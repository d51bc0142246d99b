# orbital

A small message system: a broker that forwards events published on a path to
every listener mounted on that path, and the services that hang off it
(logging, camera, timer, scripting, and two displays).

- `src/` is the library, verified with Verus: the broker's table of listeners
  (`registry`, `services::broker`, and the topic broker of the first design in
  `broker`), and what each service decides on the requests that reach it
  (`services::timer`, `services::scripting`, `services::view_nannou`,
  `services::view_pixels`, `view_nannou`), with the JSON field reading in
  `json` and decimal integers in `number`.
- `app/` is the program: threads, crossbeam channels, the global broker
  handle, V8, and drawing with nannou and pixels.
- `tests/` runs the library on concrete requests.
