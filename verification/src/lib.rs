pub mod text;
pub mod lines;
pub mod order;
pub mod table;
pub mod decimal;
pub mod json;
pub mod round_trip;
pub mod paths;
pub mod env_config;
pub mod encoder;
pub mod tui;
pub mod desktop;
pub mod sunshine_api;
