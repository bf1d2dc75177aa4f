//! Boundary detection for an on-screen ruler: given a raster image, a point and a
//! colour sensitivity, find how far a guide line reaches in each direction before
//! it crosses a perceptible colour edge.

pub mod raster;
pub mod scan;
pub mod session;
pub mod threshold;
