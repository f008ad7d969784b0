pub mod client;
pub mod editor;
pub mod laws;
pub mod listing;
pub mod ports;
pub mod text;
