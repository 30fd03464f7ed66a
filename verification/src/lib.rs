//! Interactive 2-D line-plot core: a per-label registry of pan/zoom view
//! states, the linear data-to-screen transform, and the axis tick generator.
//! All values are exact rationals; the persistent vertical range lives on a
//! fixed 1/1024 grid. The surrounding UI layer converts to and from floats
//! and performs the actual drawing.

pub mod rat;
pub mod geom;
pub mod transform;
pub mod ticks;
pub mod view;
pub mod plot;
