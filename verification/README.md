# ccgui

A desktop window (GTK 4) around the assistant's command-line program, which it runs as one
long-lived process for each tab and talks to in `stream-json`.

- `src/` is the library: what a tab does, as a machine that takes what happens and says what is to
  be done, with everything that it needs. All of it is verified with Verus.
  - `text`, `paths`: texts and paths as sequences of characters.
  - `json`, `wire`: the lines that the program prints and reads.
  - `commands`, `names`, `render`: the commands, who is who, and the transcript as a page.
  - `errlog`, `launch`, `session`: the program's error log, which program to run, and with which
    arguments.
  - `tab`: the machine.
  - `laws`: what holds of the library as a whole.
- `app/` is the window: widgets, processes, the clipboard.
- `tests/` are the library's tests.

What the library believes without proof of `serde_json`, `pulldown_cmark` and the standard library
stands in `json`, `render` and `text`, each with its reason.
