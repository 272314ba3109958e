//! Decoding of STL surfaces and a depth-buffered character rasteriser.
//!
//! A mesh is read from the bytes of an STL file, text or binary
//! ([`parse_stl`]), or made on the spot ([`Mesh::cube`]). It is drawn into a
//! frame of characters ([`AsciiRenderer`]), triangle by triangle, the nearer
//! one hiding the farther.
//!
//! Every number of single precision is carried as its IEEE 754 bit pattern
//! ([`Scalar`]): decoding, comparing, rounding to pixels and occlusion are
//! exact integer logic. The arithmetic of projection and shading is the
//! caller's: the frame asks for its results through the two functions that
//! [`AsciiRenderer::render_mesh`] takes, and decides what they mean.
pub mod ascii;
pub mod binary;
pub mod bounds;
pub mod controls;
pub mod error;
pub mod geometry;
pub mod pixel;
pub mod projection;
pub mod ramp;
pub mod renderer;
pub mod scalar;
pub mod stl;
pub mod transform;
pub mod utf8;
pub mod value;

pub use bounds::ScreenPoint;
pub use error::{BinaryError, DecodeError, Expected, TextError};
pub use geometry::{Mesh, Point3, Triangle, Vector3, Vertex};
pub use pixel::{Cell, Sample, Shading};
pub use projection::ProjectionMode;
pub use ramp::Tone;
pub use renderer::AsciiRenderer;
pub use scalar::Scalar;
pub use stl::{parse_ascii_stl, parse_binary_stl, parse_stl};
pub use transform::{Matrix4, Transform};
