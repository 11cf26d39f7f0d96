//! The discrete core of a small ray tracer: how scalars are ordered and
//! classified, how matrices are shaped and rearranged, which intersection is
//! visible, which lighting terms contribute, and how a canvas is laid out as
//! a portable pixmap.
//!
//! Scalars cross the boundary of this library as IEEE-754 binary64 bit
//! patterns.  The library moves, orders and classifies them; it never does
//! arithmetic on them.

pub mod scalar;
pub mod math;
pub mod ray;
pub mod materials;
pub mod canvas;
pub mod ppm;
