# pawer

Building blocks for the control of power electronic converters, as a Verus
library with its contracts, and the floating-point blocks and simulation
environment around it.

- `src/` is the verified library: integer clamping (`limit`), edge detection
  (`edge_detector`), the wrapped-angle arithmetic (`angle`), the generic
  coordinate frames and their arithmetic (`frames`), the sample-counting
  on-, off- and on-off-delay timers, the parser of the simulation commands
  (`cli::parser`) with the check of real-number texts (`cli::real_text`),
  the decisions of the command executor (`cli::commands`), the decision
  step of the interactive loop (`cli::repl`) and the header of the CSV
  export (`export`).
- `app/` holds what works with floating-point numbers or does I/O: filters,
  controllers, the phase-locked loop, lookup tables, the conversions between
  radians and wrapped angles, the Clarke and Park transforms, the simulation
  engine, CSV export, SVG plotting and the interactive command line.
- `tests/` runs the library.
