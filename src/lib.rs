pub mod emit;
pub mod laws;
pub mod markers;
pub mod model;
pub mod resolve;
pub mod syntax;

pub use emit::create_enum_from_impls;
