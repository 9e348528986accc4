# velowin

A Hyprland-like tiling window manager for Windows, with its core proved
correct in Verus.

- `src/` is the verified library: the dwindle tree (splitting a box,
  tiling and removing windows, laying out with gaps), the master layout,
  the window manager's bookkeeping over ten workspaces, monitor work
  areas, the configuration parser, keybinding matching and dispatch, and
  the classification of window events and windows. Each public function
  carries a contract; the laws that span functions (removing a window
  undoes tiling it, toggling twice restores the layout, the tiles of a
  tree cover its box) are proof functions beside them.
- `app/` is the Win32 program around it: the keyboard and window-event
  hooks, window queries and moves, the monitor enumeration, the
  DirectComposition border renderer, the animations and the log file.
- `tests/` runs the library on concrete values.
