# openrgb-dark-controller

Darkens OpenRGB lighting while the screen is off and restores it when the
screen wakes.

- `src/` is the verified library: the OpenRGB SDK packet framing (`wire`),
  the effects-plugin commands and the reading of its effect list
  (`effects`), the screen-power tracking for the Wayland DPMS protocols
  (`dpms`), and the controller's run mode, delay and reaction to screen
  events (`control`).
- `app/` is the program around it: command line, D-Bus signals, the Wayland
  connection, the SDK connection and the OpenRGB client calls.
- `tests/` runs the library on concrete inputs.
