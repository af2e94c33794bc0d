//! The consuming flavor of partitioning: the source sequence is moved in and
//! each part comes back as an independently owned container.

pub mod into_equal_parts;
pub mod vec;
