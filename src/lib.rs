//! Rendering and output core for an addressable LED strip: the APA102 wire
//! encoder, the strip topology transform, the rendezvous frame hand-off, the
//! per-stage pipeline decisions and the index logic of the lookup tables.

pub mod apa102;
pub mod display;
pub mod lut;
pub mod pipeline;
pub mod transform;
