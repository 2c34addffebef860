//! Small value types shared by the rest of the crate.

pub mod vector2;
