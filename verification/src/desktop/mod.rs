//! The desktop session: its environment, its configuration files, its
//! audio sink and its processes, and how it answers the stream's client.
pub mod compositor;
pub mod control;
pub mod dbus_bus;
pub mod env;
pub mod fs_setup;
pub mod kde_config;
pub mod pipewire;
pub mod process;
pub mod session;
