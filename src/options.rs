use vstd::prelude::*;

verus! {

/// The largest number of subdivisions accepted: beyond it the vertex indices
/// and the index buffer would no longer fit in `u32`.
pub const MAX_SUBDIVISIONS: usize = 8192;

/// Options for generating the mesh of a rounded box.
#[derive(Copy, Clone, Debug, Default, PartialEq, Eq, Structural)]
pub struct BoxMeshOptions {
    /// Generate texture coordinates.
    pub generate_uv: bool,
    /// Generate a face id for each vertex.
    pub generate_face: bool,
}

impl BoxMeshOptions {
    /// Whether the faces of the box need vertices of their own along the seams.
    pub open spec fn split_faces(self) -> bool {
        self.generate_uv || self.generate_face
    }

    pub fn is_generate_uv(&self) -> (r: bool)
        ensures
            r == self.generate_uv,
    {
        self.generate_uv
    }

    pub fn is_generate_face(&self) -> (r: bool)
        ensures
            r == self.generate_face,
    {
        self.generate_face
    }

    pub fn is_split_faces(&self) -> (r: bool)
        ensures
            r == self.split_faces(),
    {
        self.generate_uv || self.generate_face
    }
}

/// A configuration that cannot give a mesh.
#[derive(Copy, Clone, Debug, PartialEq, Eq, Structural)]
pub enum MeshError {
    /// The number of subdivisions is zero: a fillet needs at least one.
    ZeroSubdivisions,
    /// The number of subdivisions exceeds `MAX_SUBDIVISIONS`.
    TooManySubdivisions,
}

} // verus!
