//! A shared-canvas pixel server core: a fixed-size RGB pixel grid held in
//! memory, mutated one authenticated pixel write at a time, and readable at
//! any time as a PNG-encoded raster image.

pub mod canvas;
pub mod codec;
pub mod ops;
pub mod raster;
