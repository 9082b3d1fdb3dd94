# r3bl_terminal_async

A verified core for command line programs that read lines from a terminal while many tasks
write to it.

- `src/` is the library, verified with Verus.
  - `line_state`, `input`, `unicode`: the line that the user edits, the keys, and text as grapheme
    clusters.
  - `history`: the input history.
  - `shared_writer`: writers that hand over whole lines.
  - `monitor_signal_task`: prints what writers hand over, and heeds control signals.
  - `readline`: ties these together; one call for each thing that happens.
  - `spinner`, `spinner_render`, `spinner_style`, `abort_handle`: a spinner.
  - `ansi`: escape sequences, and what is done to a terminal.
- `app/` is the asynchronous side: it owns the terminal, the channels and the tasks, hands events
  to the library, and does the actions that it gets back.
- `tests/` run the library with the crates that it depends on.

Each executable function says in its contract what it returns and changes, over models such as
`LineModel`, `HistoryModel`, `WriterModel` and `MonitorModel`. What holds across calls is stated
by the proof functions named `law_*`. What is taken on trust of other crates is marked
`external_body`, `external_type_specification` or `assume_specification`, with a comment on what
is claimed.
