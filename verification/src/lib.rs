pub mod channel;
pub mod diff;
pub mod expr;
pub mod geom;
pub mod ids;
pub mod image_registry;
pub mod kind;
pub mod laws;
pub mod marks;
pub mod names;
pub mod num;
pub mod order;
pub mod pick;
pub mod plot;
pub mod projection;
pub mod resolve;
pub mod scene;
pub mod slot;
pub mod theme;
pub mod value;
