# cufx-vio

Stereo visual-inertial odometry as a component of a task graph: it takes rectified stereo pairs and
inertial samples, and publishes where the camera is.

* `src/` is the library: the component's decisions and bookkeeping, each with its contract, proved by
  Verus. Its crate documentation names the modules. Floating-point numbers pass through it as bit
  patterns; it orders and compares them, and leaves the arithmetic on them, and the map, to its
  caller.
* `app/` is what runs it in a graph: the tasks and payloads, the arithmetic, and the driver that does
  on the map what the library asks for.
* `tests/` runs the library, some of it against the SLAM crates the application uses.

A frame goes through `Tracker::process_frame`, then `Tracker::start_run`, and then as many rounds of
`Tracker::advance` as it takes: each hands out one job and is given the report on it.
