//! The core of a daemon that steers the mouse with the numpad: its settings,
//! what it does with the events of a keyboard, and which keyboard it uses.

pub mod attributes;
pub mod buttons;
pub mod config;
pub mod events;
pub mod keyboards;
pub mod keys;
pub mod motion;
pub mod privileges;
pub mod session;
pub mod text;
pub mod watch;
