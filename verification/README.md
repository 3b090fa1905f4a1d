# omaruler

A measuring ruler and color picker that works on a screenshot of the screen: it measures the gap
under the cursor, snaps a dragged rectangle to what is inside it, pins measure lines and guides,
crops and saves selections, and reads colors.

- `src/` is the library, verified with Verus. Everything it promises stands in the `requires` and
  `ensures` clauses of its functions and in its `law_..` proof functions.
  - Images: `screenshot`, `ppm`, `crop`, `color`
  - Measuring: `extent`, `shrink`, `gradient`, `ratio`
  - The session: `session`, `session_laws`, `display`, `hints`, `geometry`, `duck`
  - Other programs: `monitor`, `shell`, `text`
- `app/` is the program around it: the window, the drawing, and the desktop's commands and files.
  It embeds four sound files from `assets/sounds/`.
- `tests/` runs the library on concrete values.

The library has no floating-point numbers. Places on the screen are numbered in a way that keeps
their order, and where a floating-point formula decides, the library takes it as a function whose
results it compares.
