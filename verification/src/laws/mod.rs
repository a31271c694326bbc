//! What the library is for, as laws: where the data put each mark on the panel,
//! and what it looks like there. They speak of channels, of pixels and of what is
//! drawn, and not of how it is put together.

pub mod channels;
pub mod chrome;
pub mod data;
pub mod frames;
pub mod label;
pub mod plot;
pub mod projection;
pub mod ribbon;
pub mod rich;
pub mod segment;
pub mod text;
pub mod text_fit;
pub mod text_path;
pub mod wedge;
pub mod weight;
