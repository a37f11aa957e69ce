//! Index layout of a rounded-box mesh: a box whose edges and corners are
//! replaced by quarter-circle fillets.
//!
//! The library decides, with integers only, how the sphere-like sector/stack
//! grid of the fillets collapses into a dense set of physical vertices, which
//! logical grid point and quadrant each vertex stands for, which face it
//! belongs to, how it unwraps into texture space, and which triangles connect
//! the vertices. A caller turns the decoded grid points into positions and
//! normals with the box size and radius.
pub mod indexer;
pub mod layout;
pub mod options;
pub mod triangles;
pub mod unwrap;

pub use indexer::{PhysicalIndexer, StackType, XYQuarter, ZHalf};
pub use layout::{mesh_layout, MeshLayout, VertexSample};
pub use options::{BoxMeshOptions, MeshError};
pub use unwrap::UvCoords;
