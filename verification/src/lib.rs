pub mod laws;
pub mod scalar;
pub mod vector3;

pub use crate::vector3::Vector3;
