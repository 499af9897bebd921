//! Interleaved vertex buffers addressed by named attributes, and the
//! generators that fill them for a subdivided rectangle and a box.
//!
//! Scalars are stored as the bit patterns of IEEE-754 single precision
//! numbers (`u32`), so a buffer can be handed to a graphics API byte for
//! byte while every address computed here is proved to be in range.

pub mod box3;
pub mod error;
pub mod grid;
pub mod layout;
pub mod mesh;
pub mod vector;
pub mod vertex;

pub use box3::Box3;
pub use error::MeshError;
pub use grid::{Grid, GridSamples};
pub use layout::{Attribute, AttributeSpec, Layout};
pub use mesh::Mesh;
pub use vector::{Vector2, Vector3, MINUS_ONE, ONE, ZERO};
pub use vertex::{Vertex, VertexAttributes};
