//! Integer core of a stochastic path tracer: the plain-text image stream,
//! the order in which pixels are produced, the depth-bounded control of a
//! traced path, and the table that surfaces share materials through.
pub mod integrator;
pub mod ppm;
pub mod raster;
pub mod registry;
