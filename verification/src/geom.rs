//! Geometry kinds and the typed per-geom snapshot.
//!
//! The engine stores the kind of every geom as a numeric code in a flat
//! array. The code set is closed: anything outside it is a marshalling
//! fault, so decoding is only defined on the recognized codes and a total
//! checker is provided for validation at the boundary.

use vstd::prelude::*;

use crate::mesh::Mesh;

verus! {

/// The closed set of geometry kinds a model may contain.
#[derive(Clone, Copy, Debug, PartialEq, Eq, Structural)]
#[allow(non_camel_case_types)]
pub enum GeomType {
    PLANE,
    HFIELD,
    SPHERE,
    CAPSULE,
    ELLIPSOID,
    CYLINDER,
    BOX,
    MESH,
    NONE,
}

/// The numeric code the engine uses for each geometry kind.
pub open spec fn geom_code(t: GeomType) -> int {
    match t {
        GeomType::PLANE => 0,
        GeomType::HFIELD => 1,
        GeomType::SPHERE => 2,
        GeomType::CAPSULE => 3,
        GeomType::ELLIPSOID => 4,
        GeomType::CYLINDER => 5,
        GeomType::BOX => 6,
        GeomType::MESH => 7,
        GeomType::NONE => 1001,
    }
}

/// True exactly on the numeric codes that name a geometry kind.
pub open spec fn is_geom_code(val: int) -> bool {
    exists|t: GeomType| geom_code(t) == val
}

/// Decodes a recognized numeric code into its geometry kind.
pub fn geom_type_from(val: usize) -> (t: GeomType)
    requires
        is_geom_code(val as int),
    ensures
        geom_code(t) == val as int,
{
    match val {
        0 => GeomType::PLANE,
        1 => GeomType::HFIELD,
        2 => GeomType::SPHERE,
        3 => GeomType::CAPSULE,
        4 => GeomType::ELLIPSOID,
        5 => GeomType::CYLINDER,
        6 => GeomType::BOX,
        7 => GeomType::MESH,
        _ => {
            assert(val == 1001) by {
                let t = choose|t: GeomType| geom_code(t) == val as int;
                assert(geom_code(t) == val as int);
            }
            GeomType::NONE
        },
    }
}

/// Total form of [`geom_type_from`]: `None` on an unrecognized code.
pub fn geom_type_try_from(val: usize) -> (r: Option<GeomType>)
    ensures
        match r {
            Some(t) => geom_code(t) == val as int,
            None => !is_geom_code(val as int),
        },
{
    match val {
        0 => Some(GeomType::PLANE),
        1 => Some(GeomType::HFIELD),
        2 => Some(GeomType::SPHERE),
        3 => Some(GeomType::CAPSULE),
        4 => Some(GeomType::ELLIPSOID),
        5 => Some(GeomType::CYLINDER),
        6 => Some(GeomType::BOX),
        7 => Some(GeomType::MESH),
        1001 => Some(GeomType::NONE),
        _ => {
            assert(!is_geom_code(val as int)) by {
                assert forall|t: GeomType| geom_code(t) != val as int by {
                    match t {
                        GeomType::PLANE => {},
                        GeomType::HFIELD => {},
                        GeomType::SPHERE => {},
                        GeomType::CAPSULE => {},
                        GeomType::ELLIPSOID => {},
                        GeomType::CYLINDER => {},
                        GeomType::BOX => {},
                        GeomType::MESH => {},
                        GeomType::NONE => {},
                    }
                }
            }
            None
        },
    }
}

/// Every geometry-kind code is non-negative.
pub proof fn lemma_geom_code_nonneg(t: GeomType)
    ensures
        geom_code(t) >= 0,
{
    match t {
        GeomType::PLANE => {},
        GeomType::HFIELD => {},
        GeomType::SPHERE => {},
        GeomType::CAPSULE => {},
        GeomType::ELLIPSOID => {},
        GeomType::CYLINDER => {},
        GeomType::BOX => {},
        GeomType::MESH => {},
        GeomType::NONE => {},
    }
}

/// An owned, typed snapshot of one geom, copied out of the model's flat
/// arrays. `T` is the scalar type the caller widens native floats into.
#[derive(Debug)]
pub struct Geom<T> {
    pub id: i32,
    pub name: String,
    pub geom_type: GeomType,
    pub body_id: i32,
    pub pos: [T; 3],
    pub quat: [T; 4],
    pub size: [T; 3],
    pub color: [T; 4],
    pub mesh: Option<Mesh<T>>,
    pub geom_group: i32,
    pub geom_contype: i32,
}

/// Two geom snapshots hold the same data.
pub open spec fn geom_eq<T>(a: Geom<T>, b: Geom<T>) -> bool {
    &&& a.id == b.id
    &&& a.name@ == b.name@
    &&& a.geom_type == b.geom_type
    &&& a.body_id == b.body_id
    &&& a.pos@ == b.pos@
    &&& a.quat@ == b.quat@
    &&& a.size@ == b.size@
    &&& a.color@ == b.color@
    &&& (a.mesh is Some <==> b.mesh is Some)
    &&& (a.mesh is Some ==> crate::mesh::mesh_eq(a.mesh->0, b.mesh->0))
    &&& a.geom_group == b.geom_group
    &&& a.geom_contype == b.geom_contype
}

impl<T: Copy> Clone for Geom<T> {
    /// An independent deep copy holding the same data.
    fn clone(&self) -> (r: Self)
        ensures
            geom_eq(r, *self),
    {
        Geom {
            id: self.id,
            name: self.name.clone(),
            geom_type: self.geom_type,
            body_id: self.body_id,
            pos: self.pos,
            quat: self.quat,
            size: self.size,
            color: self.color,
            mesh: match &self.mesh {
                Some(m) => Some(m.clone()),
                None => None,
            },
            geom_group: self.geom_group,
            geom_contype: self.geom_contype,
        }
    }
}

} // verus!
