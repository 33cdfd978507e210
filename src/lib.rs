//! Backlight brightness and audio volume control: the rules shared by every
//! backend (clamped relative change, percent and native units) and the
//! protocol logic of each backend, with the device I/O left to the caller.
pub mod brightness;
pub mod dbus;
pub mod fs;
pub mod notify;
pub mod range;
pub mod volume;
pub mod xcb;
