//! Fixed-dimension geometric points (2D and 3D) over integer scalars.
//!
//! The library is organised as a small dimensional protocol: every
//! fixed-size geometric value exposes its components as a sequence of
//! mathematical integers, and the point variants derive translation,
//! Euclidean distance, equality, approximate equality and a canonical
//! text rendering from that shared view.

pub mod dim;
pub mod num;
pub mod point;
pub mod vector;

pub use dim::Dimensional;
pub use point::Point;
pub use point::Point2;
pub use point::Point3;
pub use vector::Vec2;
pub use vector::Vec3;
