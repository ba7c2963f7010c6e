# ratatui_notty

A ratatui backend that draws through crossterm commands written to any
writer, with its decisions verified by Verus.

- `src/` is the verified library:
  - `style`: plain values for the ratatui and crossterm colors, modifiers,
    attributes and styles.
  - `convert`: the `IntoNotty` / `FromNotty` conversions between them, with
    the color round trips proved.
  - `modifier_diff`: the attributes that change one modifier into another,
    a model of what attributes do to a terminal, and the proof that the
    attributes reach the target modifier.
  - `command` and `draw`: the commands that draw a run of cells.
  - `terminal`: a model of a terminal running those commands, and the proof
    that every cell is printed where and how it should be.
  - `scroll`: the escape sequences of the scrolling-region commands.
  - `backend`: clear types, window sizes and appended lines.
- `app/` is the ratatui `Backend` implementation: it converts between the
  library's values and the ratatui and crossterm types and writes the
  commands.
- `tests/` runs the library on concrete values.
