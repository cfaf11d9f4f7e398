# blabbergraph

A virtual mixer for PipeWire: virtual inputs, mixing buses and virtual
outputs, routed to each other and to the hardware through a GTK interface
with a routing matrix and a tray icon.

- `src/` is the verified library (Verus): the mirror of the PipeWire graph,
  the saved configuration, the routing rules, the state machine that
  consumes PipeWire events and restores the saved routing, the plans of the
  mixer and matrix views, the properties of the objects the mixer creates,
  the registry bookkeeping, peak-meter bookkeeping and the tray menu.
- `tests/` exercises the library on concrete graphs and configurations.
- `app/` is the program around the library: the PipeWire thread, the GTK
  widgets, the tray service, and reading and writing the configuration
  file.

Gains and peak levels are carried as the bit patterns of `f32` values; only
the program reads them as numbers.
