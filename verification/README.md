# logria

A live log viewer: it follows the output of commands and files, filters it
with regular expressions, highlights matches, and parses messages into fields
that it can aggregate (counts, most common values, dates and rates, sums and
means).

## Layout

- `src/` is the library, verified with Verus. It holds the state of the main
  window and its message buffers, the layout of the shown messages, scrolling,
  the command line editor and its history, the handlers of each input mode
  (normal, command, regex, highlight, parser, startup), the parsers and their
  fields, the counters and date aggregators, and the poll-rate control. The
  terminal and the disk are never touched from here: the window queues the
  terminal work as `UiAction`s, and the handlers hand back requests (load a
  parser, load or open a session, aggregate these parts).
- `app/` is the program around it: command-line options, the terminal, the
  files (history, sessions, parsers), the threads that read inputs, and the
  floating-point aggregators (means and sums).
- `tests/` runs the library on concrete values.
