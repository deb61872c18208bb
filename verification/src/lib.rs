//! Escape-time fractal rasters and their portable-pixmap encoding.
//!
//! The numeric kernels (the map from a pixel to a point of the plane, the
//! recurrence, the colour ramp) are supplied by the caller as function values;
//! this crate owns everything that decides how often they run, in which
//! order, and where each byte of the result goes.
pub mod ppm;
pub mod raster;
