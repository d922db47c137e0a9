//! Integer core of a Monte Carlo path tracer: picking the nearest surface hit,
//! mapping pixels onto the camera's image plane, and filling the frame.
pub mod camera;
pub mod frame;
pub mod scene;
