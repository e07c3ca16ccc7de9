//! The typed per-mesh snapshot.

use vstd::prelude::*;

use crate::helpers::copy_vec;

verus! {

/// An owned snapshot of one mesh: vertex positions, vertex normals and
/// triangle indices copied out of the model's flat tables. `T` is the
/// scalar type the caller widens native floats into.
#[derive(Debug)]
pub struct Mesh<T> {
    pub vertices: Vec<[T; 3]>,
    pub normals: Vec<[T; 3]>,
    pub indices: Vec<u32>,
    pub name: String,
}

/// Two mesh snapshots hold the same data.
pub open spec fn mesh_eq<T>(a: Mesh<T>, b: Mesh<T>) -> bool {
    &&& a.vertices@ == b.vertices@
    &&& a.normals@ == b.normals@
    &&& a.indices@ == b.indices@
    &&& a.name@ == b.name@
}

impl<T: Copy> Clone for Mesh<T> {
    /// An independent deep copy holding the same data.
    fn clone(&self) -> (r: Self)
        ensures
            mesh_eq(r, *self),
    {
        Mesh {
            vertices: copy_vec(&self.vertices),
            normals: copy_vec(&self.normals),
            indices: copy_vec(&self.indices),
            name: self.name.clone(),
        }
    }
}

} // verus!
