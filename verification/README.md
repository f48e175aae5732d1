# poppy

A keyboard-driven launcher: type, and it offers to ask a language model, add
or complete a TODO, switch to a window, open a project, a bookmark or a
snippet, run a command, start an application, search the web, or copy an
earlier clipboard text.

- `src/` is the library, verified with Verus: the searches, every provider's
  candidates, the clipboard history, the TODO list, the order of the
  installed applications, the framing and assembly of the model's streamed
  answer, and the window's decisions (keys, hotkey, Escape).
- `tests/` runs the library on concrete values.
- `app/` is the desktop program around it: files, the clipboard, windows,
  processes, HTTP and the UI.
