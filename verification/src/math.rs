//! Small fixed-size vectors.

pub mod vector;
