# less: the command and option logic, verified

The logic of the `less` pager that decides what a key, a command, an option
or a prompt does, written in Verus with its contracts proved.

- `src/` is the verified library:
  - `opttbl`, `option`, `optfunc`: the option table, reading options from the
    command line and `LESS`, toggling them, and the handlers of the options
    that take values (tab stops, fractions of the screen, search options,
    headers, quotes, prompts, ...).
  - `cmdbuf`, `cmdline`: the command line being edited (editing keys, UTF-8
    input, the histories, file-name completion) and what part of it shows.
  - `command`, `mca`, `commands`: characters given in advance, the
    multi-character commands (searches, option commands, numbers, ...), and what
    the command loop does with each command.
  - `prompt`: the prompt prototypes and their expansion.
  - `histfile`: reading and writing the lines of the history file.
  - `laws`, `tablelaws`: properties that span several functions, and those
    of the option table as a whole.
- `tests/` runs the library on concrete values.
- `app/` is what runs it in a terminal: the history file on disk, the
  environment, and the loops (commands, searches across files, keys read
  through a replacement) that carry out what the library decides.
