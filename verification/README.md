# taskwarrior-tui

A terminal interface for [taskwarrior](https://taskwarrior.org): the task
report, filters, contexts, projects, a calendar and the commands that the keys
run.

The library under `src/` holds the interface's logic, verified with Verus:
reading the settings that `task show` prints (colors, key bindings, report
columns), the cells and column widths of the report, the cursor and the marks,
completion, the history of typed lines, the calendar's layout, the virtual
tags of each task, the labels and prompts of the command line, and the `task`
command lines that the keys run, with what is read back from their output. Each public function states in its contract what it returns or
changes; the properties that relate several calls are stated as proof
functions named `law_*`.

`app/` is the program around it: it runs `task`, draws with `ratatui`,
reads keys with `crossterm` and edits the line being typed; which command a
key runs in the report, the command lines, the labels and prompts it shows,
and how the cursor, marks and history change come from the library.

`tests/` runs the library on concrete values.
