# okkhor_gui

Background Bangla phonetic input for Windows, split in two:

- `src/` — the verified library. Everything the program decides: which keys
  extend, end or pass through a word; how the live preview is rewritten
  (`bengali::diff`, the smallest erase-and-retype, proved minimal and proved to
  leave the screen showing the parser's output); the per-window mode table and
  the key-down/key-up state machine (`state::App`); the keystrokes that carry a
  rewrite; the hook and window-event filters; what the hidden window does with
  each message; the tray tooltip and menu; the command line and the install
  offer; the startup and uninstall registry values; the uninstall helper's
  arguments and retry policy; and the `.ico` layout the installer writes.
- `app/` — the Win32 program around it: the low-level hooks, the WinEvent
  listener, the window procedure, `SendInput`, GDI drawing, the registry and
  the installer's file operations. It reads what Windows says, hands plain
  values to the library, and does what the library answers.

Transliteration itself comes from the `okkhor` crate's phonetic parser, called
from `src/phonetic.rs`.
