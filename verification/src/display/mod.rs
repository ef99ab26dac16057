pub mod geometry;
