use vstd::prelude::*;

pub mod cmdbuf;
pub mod cmdline;
pub mod command;
pub mod commands;
pub mod defs;
pub mod histfile;
pub mod laws;
pub mod tablelaws;
pub mod mca;
pub mod optfunc;
pub mod option;
pub mod prompt;
pub mod opttbl;
pub mod text;
pub mod util;

verus! {
} // verus!
