//! Decisions and wire formats of a controller that darkens RGB lighting while
//! the screen is off: the OpenRGB effects-plugin protocol, the screen-power
//! tracking of the Wayland DPMS protocols, and the controller's reaction to
//! screen events.

pub mod dpms;
pub mod wire;
pub mod effects;
pub mod control;
