# termgfx

Drawing on a character-cell terminal: points, lines and text labels are
painted into a screen buffer that is then printed to the terminal.

- `src/` is the verified library (Verus): the 80x24 byte screen
  (`screen`), labels (`graphics_2d`), the frame refresh of the 3D
  renderer (`graphics_3d`), the 180x45 character screen (`graphics`) and
  the key map of the interactive example (`example_2d`).
- `app/` is the program around it: the global screens behind `spin`
  mutexes, everything computed in floating point (window mapping,
  clipping, line stepping, cameras, rotations, depth buffer), terminal
  output and the `crossterm` input loop.
- `tests/` exercises the library on concrete values.
