//! Selective D-Bus session-bus broker for nested Wayland compositors.

pub mod broker;
pub mod bytes;
pub mod codec;
pub mod ctl;
pub mod dbus;
pub mod dbus_broker;
pub mod effect;
pub mod fcitx;
pub mod ipc;
pub mod keymap;
pub mod protocol;
pub mod rules;
pub mod state;
pub mod text;
pub mod views;
