# focus_space_wallpaper

Quiet deep-blue nebula wallpapers that change slowly when the user's focus
drops.

- `src/` is the verified library (Verus): the focus state machine and the
  exact IEEE-754 comparisons it makes, the input-event buffer, the integer
  parts of the focus metrics (typing bursts, idle gaps, activity histogram,
  mouse segments), wallpaper backend detection, the reading of
  `hyprctl monitors -j` output and of `/proc/<pid>/environ`, the steps each
  backend takes to set a wallpaper (the programs it runs, with their
  arguments, and the hyprpaper configuration it writes), the transition
  schedule and the clean-up of its frames, the resolution choice, the
  monitor-restart policy of the daemon, and the integer bookkeeping of image
  generation (star count, noise octaves, render grid, star placement, glow
  accumulation).
- `app/` is the program around it: the command line, configuration files,
  input monitoring, running the steps the library plans (processes, files,
  the Windows API), and the floating-point rendering.
- `tests/` exercises the library on concrete values.
