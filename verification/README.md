# yazelix_screen

Terminal screen animations for Yazelix, as a verified library and the `yzs`
command around it.

- `src/` is the library, checked by Verus: frame grids and their
  cursor-addressed output, ANSI-aware widths and centering, the welcome card
  and its logo reveal, the random style pools, boids seeding, sprites and
  frame painting, the Mandelbrot iteration budget and palette, Kitty
  graphics commands and layout, magician asset paths and choices, argument
  parsing and style resolution, and the decisions of the display loops.
  Terminal control sequences are written by `crossterm`.
- `app/` is the `yzs` program: terminal modes, key polling, timing, the
  file system, and the floating-point boids and Mandelbrot simulations.
- `tests/` exercises the library on concrete values.
