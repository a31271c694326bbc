//! The geoms and what they share.

pub mod builder;
pub mod error;
pub mod grouped;
pub mod label;
pub mod marker;
pub mod place;
pub mod ribbon_bspline;
pub mod rich;
pub mod segment;
pub mod state;
pub mod text;
pub mod text_fit;
pub mod text_path;
pub mod turned_path;
pub mod wedge;
