# simple_jingle

A tray application for Windows plays a jingle when a trigger word is typed
and a word boundary key (Space, Enter, Tab by default) follows it. It keeps
what is typed in a 64-byte buffer that is wiped on every boundary, focus
change, digit, symbol, navigation key, sensitive window and password field.

`src/` is the library, verified with Verus: the key classes, the word
buffer, the reaction of the keyboard hook to one key press, the settings
file format, the window-title blacklist, WAV decoding (through hound) up to
the float conversion, icon decoding (through image) and the drawn fallback
icon, and the tray menu decisions. `app/main.rs` is the
Windows program around it: the hook, the focus watcher thread, COM and UI
Automation, the audio device, the tray icon and the file reads. `tests/`
runs the library on concrete inputs.
