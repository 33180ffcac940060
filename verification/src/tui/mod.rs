pub mod events;
pub mod keys;
pub mod shell;
pub mod state;
pub mod ui;
