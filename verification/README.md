# buffalo_core

A Vietnamese input method engine for IBus (Telex, Simple Telex and VNI), verified with Verus.

- `src/` is the library. Its modules:
  - `charset`: the vowel table, tones and diacritic marks, letter case.
  - `rules`: the layouts of the input methods and how their rule lines compile into rules.
  - `spelling`: the tables of valid Vietnamese syllables and the spelling check.
  - `engine`: the keystroke engine. A word is a composition of transformations; each key
    adds transformations (`keystroke`), and the text is read from them (`canvas`).
    `laws`, `shape` and `retone` state what keystrokes do to the text and to the composition.
  - `encoder`: output in the Unicode, TCVN3, VNI Windows and VIQR charsets.
  - `config`: the stored settings and the shorthand file format.
  - `session`: what the IBus daemon does on each key event and menu click.
  - `settings`: what the settings window does on each user action.
  - `style`: the style sheet of the settings window.
  - `window`: the class of the focused window: which windows and properties the lookup
    reads, and the text of a property's bytes.
  - `text`: helpers on strings, and the calls into std and `regex`.
- `tests/` runs the library on concrete words.
- `app/` is the daemon: D-Bus plumbing with `zbus`, settings files with `toml`, Xlib calls
  with `x11`, and the
  loop that hands events to the library's session and performs its actions.
