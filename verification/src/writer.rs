//! Image file formats.
pub mod ppm;

pub use ppm::PPMWriter;
