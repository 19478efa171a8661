# schrottbar

A status bar for the niri compositor on Wayland: workspaces, window
columns, weather, Paymo timer, network, updates, volume, CPU and memory,
clock and system tray.

- `src/` is the verified library: the compositor state and what each event
  does to it, the window and workspace labels, the layout of the bar and its
  click and hover zones, the main loop's redraw scheduling, the tray's
  registry and icons, and the parsing of what the system tools and web
  services report, each function with its contract.
- `app/` is the program around it: Wayland surfaces, text shaping and
  rasterization, D-Bus, niri's socket, HTTP requests, the items' loops, and
  whatever is computed in floating point.
- `tests/` runs the library on concrete values.
