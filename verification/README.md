# gaffa

Gaffa runs the processes of a Procfile side by side: it starts, stops and
restarts them, shows their output in one place, and keeps their logs.

    gaffa run                 # all processes
    gaffa run web worker      # some of them
    gaffa run -i              # with the interactive screen

- `src/` is the library: parsing, the life of a process, terminal output, the
  screen's state, and the summary of a session. Its contracts are proved by
  Verus.
- `app/` is the program around it: arguments, files, child processes, the
  terminal.
- `tests/` runs the library on concrete values.
