# smart_road

A reservation-based intersection manager (vehicles book tiles of the
intersection box for time slots instead of waiting at traffic lights),
verified with Verus.

- `src/` — the verified library: the integer geometry of lanes, entry and exit
  points and turn arcs (`vehicle`, `geometry`, `constants`), the vehicle
  lifecycle, the reservation table and the conversion of path samples into
  reservation keys (`reservation`), and the lane markings (`intersection`).
- `app/` — the macroquad program: window, drawing, real-valued motion along the
  waypoints and sampling of curved paths.
- `tests/` — tests of the library.

The reservation grid (`GRID_N` = 12 tiles of 20 px a side) and the length of a
time slot (0.25 s, in `app/constants.rs`) are choices made here; the protocol
only needs some tiling of the box and some slot length.
