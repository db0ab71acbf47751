# cvkit

Small computer-vision tools on top of OpenCV, with the parts that decide and
compute on plain values verified with Verus.

- `src/` is the verified library: integer geometry (`geometry`), the card
  digit-group search (`card`), face tracking across frames (`faces`), vehicle
  counting (`traffic`), the calculator layout (`calculator`), panorama layout
  (`stitch`), feature-match selection (`matching`), per-pixel mask and marker
  rules (`pixels`), keyboard and mouse state machines (`controls`), frame
  pacing (`pacing`), histogram plotting (`histogram`) and the colour-space
  table (`palette`).
- `app/` is the program: it reads images, cameras and videos, calls OpenCV for
  the image processing and the windows, and hands the library plain values.
  Its first argument names the tool to run (for example `camera`,
  `draw-shape`, `img-joint`); without one, the card-number reader runs.
- `tests/` exercises the library on concrete values.
