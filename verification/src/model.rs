//! The compiled-model snapshot: counts, flat tables, and their invariants.
//!
//! The engine's compiled model is a bundle of entity counts and flat,
//! index-addressed arrays: per-geom and per-body attribute tables, mesh
//! vertex and face tables addressed through per-mesh start/count columns,
//! and one packed name buffer addressed through per-kind offset columns.
//! This module holds that bundle as plain values. Construction validates
//! every cross reference once — addresses inside the buffers they index,
//! recognized geometry codes, names unique per kind — and everything
//! built on top (lookups, entity views) is proved against the validated
//! shape.

use vstd::prelude::*;
use vstd::string::StrSliceExecFns;
use vstd::string::StringSliceAdditionalSpecFns;
use vstd::utf8::decode_utf8;
use vstd::utf8::valid_utf8;

use crate::geom::geom_type_try_from;
use crate::geom::is_geom_code;
use crate::body::Body;
use crate::geom::Geom;
use crate::helpers::first_nul_from;
use crate::mesh::Mesh;

verus! {

/// The kinds of named model entities this layer can look up.
#[derive(Clone, Copy, Debug, PartialEq, Eq, Structural)]
#[allow(non_camel_case_types)]
pub enum ObjType {
    BODY,
    JOINT,
    GEOM,
    LIGHT,
    CAMERA,
    MESH,
}

/// Why a model snapshot was rejected at construction.
#[derive(Clone, Copy, Debug, PartialEq, Eq, Structural)]
pub enum ModelError {
    /// An array length disagrees with the count that keys it.
    BadCounts,
    /// The packed name buffer is absent or not terminated.
    BadNameTable,
    /// A name offset points outside the buffer, or at bytes that are not
    /// a valid UTF-8 name.
    BadNameAddress,
    /// Two entities of one kind bear the same non-empty name.
    DuplicateName,
    /// A geom row carries an unrecognized code or an out-of-range id.
    BadGeomTable,
    /// A body row carries an out-of-range parent or geom range.
    BadBodyTable,
    /// A mesh row addresses vertices or faces outside the flat tables.
    BadMeshTable,
}

/// Largest entity count per named kind; ids are handed out as `u16`.
pub const MAX_ENTITY_COUNT: usize = 0x10000;

/// The raw marshalled content of a compiled model, exactly as the flat
/// native arrays hold it. `T` is the scalar type native floats are
/// widened into.
pub struct ModelParts<T> {
    /// Number of generalized coordinates.
    pub nq: usize,
    /// Number of degrees of freedom.
    pub nv: usize,
    /// Number of actuators/controls.
    pub nu: usize,
    /// Number of activation states.
    pub na: usize,
    /// Number of bodies.
    pub nbody: usize,
    /// Number of joints.
    pub njnt: usize,
    /// Number of geoms.
    pub ngeom: usize,
    /// Number of lights.
    pub nlight: usize,
    /// Number of cameras.
    pub ncam: usize,
    /// Number of meshes.
    pub nmesh: usize,
    /// Number of mesh vertices over all meshes.
    pub nmeshvert: usize,
    /// Number of triangular mesh faces over all meshes.
    pub nmeshface: usize,
    /// Number of entries in the sensor data vector.
    pub nsensordata: usize,
    /// Packed name buffer: every name terminated by a zero byte.
    pub names: Vec<u8>,
    /// Per-body offset of its name in `names`.
    pub name_bodyadr: Vec<i32>,
    /// Per-joint offset of its name in `names`.
    pub name_jntadr: Vec<i32>,
    /// Per-geom offset of its name in `names`.
    pub name_geomadr: Vec<i32>,
    /// Per-light offset of its name in `names`.
    pub name_lightadr: Vec<i32>,
    /// Per-camera offset of its name in `names`.
    pub name_camadr: Vec<i32>,
    /// Per-mesh offset of its name in `names`.
    pub name_meshadr: Vec<i32>,
    /// Per-geom geometry-kind code.
    pub geom_type: Vec<i32>,
    /// Per-geom owning body id.
    pub geom_bodyid: Vec<i32>,
    /// Per-geom mesh id, or -1 when the geom carries no mesh.
    pub geom_dataid: Vec<i32>,
    /// Per-geom visibility group.
    pub geom_group: Vec<i32>,
    /// Per-geom collision-type bitmask.
    pub geom_contype: Vec<i32>,
    /// Flat per-geom positions, stride 3.
    pub geom_pos: Vec<T>,
    /// Flat per-geom orientations, stride 4.
    pub geom_quat: Vec<T>,
    /// Flat per-geom sizes, stride 3.
    pub geom_size: Vec<T>,
    /// Flat per-geom colors, stride 4.
    pub geom_rgba: Vec<T>,
    /// Per-body parent body id.
    pub body_parentid: Vec<i32>,
    /// Per-body number of geoms.
    pub body_geomnum: Vec<i32>,
    /// Per-body start index of its geoms.
    pub body_geomadr: Vec<i32>,
    /// Flat per-body positions, stride 3.
    pub body_pos: Vec<T>,
    /// Flat per-body orientations, stride 4.
    pub body_quat: Vec<T>,
    /// Per-mesh start index into the vertex tables.
    pub mesh_vertadr: Vec<i32>,
    /// Per-mesh number of vertices.
    pub mesh_vertnum: Vec<i32>,
    /// Per-mesh start index into the face table.
    pub mesh_faceadr: Vec<i32>,
    /// Per-mesh number of faces.
    pub mesh_facenum: Vec<i32>,
    /// Flat mesh vertex positions, stride 3.
    pub mesh_vert: Vec<T>,
    /// Flat mesh vertex normals, stride 3.
    pub mesh_normal: Vec<T>,
    /// Flat mesh face vertex indices, stride 3.
    pub mesh_face: Vec<i32>,
}

/// The name stored at offset `adr` of the packed buffer: the bytes up to
/// its terminator.
pub open spec fn name_bytes_from(names: Seq<u8>, adr: int) -> Seq<u8> {
    names.subrange(adr, first_nul_from(names, adr))
}

/// Every array length agrees with the count that keys it, and per-kind
/// counts stay small enough for `u16` ids.
pub open spec fn counts_ok<T>(p: ModelParts<T>) -> bool {
    &&& p.nbody <= MAX_ENTITY_COUNT
    &&& p.njnt <= MAX_ENTITY_COUNT
    &&& p.ngeom <= MAX_ENTITY_COUNT
    &&& p.nlight <= MAX_ENTITY_COUNT
    &&& p.ncam <= MAX_ENTITY_COUNT
    &&& p.nmesh <= MAX_ENTITY_COUNT
    &&& p.name_bodyadr@.len() == p.nbody
    &&& p.name_jntadr@.len() == p.njnt
    &&& p.name_geomadr@.len() == p.ngeom
    &&& p.name_lightadr@.len() == p.nlight
    &&& p.name_camadr@.len() == p.ncam
    &&& p.name_meshadr@.len() == p.nmesh
    &&& p.geom_type@.len() == p.ngeom
    &&& p.geom_bodyid@.len() == p.ngeom
    &&& p.geom_dataid@.len() == p.ngeom
    &&& p.geom_group@.len() == p.ngeom
    &&& p.geom_contype@.len() == p.ngeom
    &&& p.geom_pos@.len() == 3 * p.ngeom
    &&& p.geom_quat@.len() == 4 * p.ngeom
    &&& p.geom_size@.len() == 3 * p.ngeom
    &&& p.geom_rgba@.len() == 4 * p.ngeom
    &&& p.body_parentid@.len() == p.nbody
    &&& p.body_geomnum@.len() == p.nbody
    &&& p.body_geomadr@.len() == p.nbody
    &&& p.body_pos@.len() == 3 * p.nbody
    &&& p.body_quat@.len() == 4 * p.nbody
    &&& p.mesh_vertadr@.len() == p.nmesh
    &&& p.mesh_vertnum@.len() == p.nmesh
    &&& p.mesh_faceadr@.len() == p.nmesh
    &&& p.mesh_facenum@.len() == p.nmesh
    &&& p.mesh_vert@.len() == 3 * p.nmeshvert
    &&& p.mesh_normal@.len() == 3 * p.nmeshvert
    &&& p.mesh_face@.len() == 3 * p.nmeshface
}

/// The packed name buffer is present, terminated, and every name in it
/// (a run starting at the buffer's head or right after a terminator) is
/// valid UTF-8.
pub open spec fn names_ok(names: Seq<u8>) -> bool {
    &&& names.len() >= 1
    &&& names[names.len() - 1] == 0
    &&& forall|a: int|
        0 <= a < names.len() && (a == 0 || names[a - 1] == 0) ==> valid_utf8(
            #[trigger] name_bytes_from(names, a),
        )
}

/// Every offset of `adr` points into the buffer, at bytes that read as a
/// valid UTF-8 name.
pub open spec fn adr_entries_ok(names: Seq<u8>, adr: Seq<i32>) -> bool {
    forall|i: int|
        0 <= i < adr.len() ==> 0 <= #[trigger] adr[i] < names.len() && valid_utf8(
            name_bytes_from(names, adr[i] as int),
        )
}

/// No two entries of `adr` reach the same non-empty name.
pub open spec fn adr_names_unique(names: Seq<u8>, adr: Seq<i32>) -> bool {
    forall|i: int, j: int|
        0 <= i < j < adr.len() && name_bytes_from(names, #[trigger] adr[i] as int)
            == name_bytes_from(names, #[trigger] adr[j] as int) ==> name_bytes_from(
            names,
            adr[i] as int,
        ).len() == 0
}

/// Geom row `i` carries a recognized geometry code, an owning body id
/// inside the body table, and a mesh id of -1 or inside the mesh table.
pub open spec fn geom_row_ok<T>(p: ModelParts<T>, i: int) -> bool {
    &&& is_geom_code(p.geom_type@[i] as int)
    &&& 0 <= p.geom_bodyid@[i] < p.nbody
    &&& (p.geom_dataid@[i] == -1 || 0 <= p.geom_dataid@[i] < p.nmesh)
}

/// Every geom row is in shape.
pub open spec fn geom_rows_ok<T>(p: ModelParts<T>) -> bool {
    forall|i: int| 0 <= i < p.ngeom ==> #[trigger] geom_row_ok(p, i)
}

/// Body row `i` carries a parent id inside the body table and a geom
/// range inside the geom table.
pub open spec fn body_row_ok<T>(p: ModelParts<T>, i: int) -> bool {
    &&& 0 <= p.body_parentid@[i] < p.nbody
    &&& p.body_geomnum@[i] >= 0
    &&& (p.body_geomnum@[i] > 0 ==> 0 <= p.body_geomadr@[i] && p.body_geomadr@[i]
        + p.body_geomnum@[i] <= p.ngeom)
}

/// Every body row is in shape.
pub open spec fn body_rows_ok<T>(p: ModelParts<T>) -> bool {
    forall|i: int| 0 <= i < p.nbody ==> #[trigger] body_row_ok(p, i)
}

/// Mesh row `i` addresses a vertex range and a face range inside the
/// flat tables.
pub open spec fn mesh_row_ok<T>(p: ModelParts<T>, i: int) -> bool {
    &&& 0 <= p.mesh_vertadr@[i]
    &&& 0 <= p.mesh_vertnum@[i]
    &&& p.mesh_vertadr@[i] + p.mesh_vertnum@[i] <= p.nmeshvert
    &&& 0 <= p.mesh_faceadr@[i]
    &&& 0 <= p.mesh_facenum@[i]
    &&& p.mesh_faceadr@[i] + p.mesh_facenum@[i] <= p.nmeshface
}

/// Every mesh row is in shape, and every face index is non-negative.
pub open spec fn mesh_rows_ok<T>(p: ModelParts<T>) -> bool {
    &&& forall|i: int| 0 <= i < p.nmesh ==> #[trigger] mesh_row_ok(p, i)
    &&& forall|j: int| 0 <= j < p.mesh_face@.len() ==> #[trigger] p.mesh_face@[j] >= 0
}

/// The whole well-formedness invariant of a model snapshot.
pub open spec fn parts_wf<T>(p: ModelParts<T>) -> bool {
    &&& counts_ok(p)
    &&& names_ok(p.names@)
    &&& adr_entries_ok(p.names@, p.name_bodyadr@)
    &&& adr_entries_ok(p.names@, p.name_jntadr@)
    &&& adr_entries_ok(p.names@, p.name_geomadr@)
    &&& adr_entries_ok(p.names@, p.name_lightadr@)
    &&& adr_entries_ok(p.names@, p.name_camadr@)
    &&& adr_entries_ok(p.names@, p.name_meshadr@)
    &&& adr_names_unique(p.names@, p.name_bodyadr@)
    &&& adr_names_unique(p.names@, p.name_jntadr@)
    &&& adr_names_unique(p.names@, p.name_geomadr@)
    &&& adr_names_unique(p.names@, p.name_lightadr@)
    &&& adr_names_unique(p.names@, p.name_camadr@)
    &&& adr_names_unique(p.names@, p.name_meshadr@)
    &&& geom_rows_ok(p)
    &&& body_rows_ok(p)
    &&& mesh_rows_ok(p)
}

/// An immutable compiled model: a validated snapshot of the engine's
/// counts and flat tables.
pub struct Model<T> {
    parts: ModelParts<T>,
}

impl<T: Copy> Model<T> {
    /// The raw content this model was built from.
    pub closed spec fn parts(self) -> ModelParts<T> {
        self.parts
    }

    /// The model's invariant; established at construction and kept by
    /// every operation.
    pub open spec fn wf(self) -> bool {
        parts_wf(self.parts())
    }

    /// The number of ids of `kind`.
    pub open spec fn kind_count(self, kind: ObjType) -> int {
        match kind {
            ObjType::BODY => self.parts().nbody as int,
            ObjType::JOINT => self.parts().njnt as int,
            ObjType::GEOM => self.parts().ngeom as int,
            ObjType::LIGHT => self.parts().nlight as int,
            ObjType::CAMERA => self.parts().ncam as int,
            ObjType::MESH => self.parts().nmesh as int,
        }
    }

    /// The per-kind column of name offsets.
    pub open spec fn kind_adr(self, kind: ObjType) -> Seq<i32> {
        match kind {
            ObjType::BODY => self.parts().name_bodyadr@,
            ObjType::JOINT => self.parts().name_jntadr@,
            ObjType::GEOM => self.parts().name_geomadr@,
            ObjType::LIGHT => self.parts().name_lightadr@,
            ObjType::CAMERA => self.parts().name_camadr@,
            ObjType::MESH => self.parts().name_meshadr@,
        }
    }

    /// The stored name bytes of entity `id` of `kind`.
    pub open spec fn name_bytes_at(self, kind: ObjType, id: int) -> Seq<u8> {
        name_bytes_from(self.parts().names@, self.kind_adr(kind)[id] as int)
    }

    /// The stored name of entity `id` of `kind`, as characters.
    pub open spec fn name_at(self, kind: ObjType, id: int) -> Seq<char> {
        decode_utf8(self.name_bytes_at(kind, id))
    }

    /// Validates a raw snapshot and seals it as a `Model`.
    ///
    /// Checks run in a fixed order, so each error names the first table
    /// that broke: lengths against counts, then the name buffer, the name
    /// offsets, name uniqueness, and the geom, body and mesh rows.
    pub fn from_parts(p: ModelParts<T>) -> (r: Result<Model<T>, ModelError>)
        ensures
            r is Ok <==> parts_wf(p),
            r is Ok ==> r->Ok_0.parts() == p && r->Ok_0.wf(),
            r == Err::<Model<T>, ModelError>(ModelError::BadCounts) <==> !counts_ok(p),
            r == Err::<Model<T>, ModelError>(ModelError::BadNameTable) <==> counts_ok(p)
                && !names_ok(p.names@),
            r == Err::<Model<T>, ModelError>(ModelError::BadNameAddress) <==> counts_ok(p)
                && names_ok(p.names@) && !all_adr_ok(p),
            r == Err::<Model<T>, ModelError>(ModelError::DuplicateName) <==> counts_ok(p)
                && names_ok(p.names@) && all_adr_ok(p) && !all_unique_ok(p),
            r == Err::<Model<T>, ModelError>(ModelError::BadGeomTable) <==> counts_ok(p)
                && names_ok(p.names@) && all_adr_ok(p) && all_unique_ok(p) && !geom_rows_ok(p),
            r == Err::<Model<T>, ModelError>(ModelError::BadBodyTable) <==> counts_ok(p)
                && names_ok(p.names@) && all_adr_ok(p) && all_unique_ok(p) && geom_rows_ok(p)
                && !body_rows_ok(p),
            r == Err::<Model<T>, ModelError>(ModelError::BadMeshTable) <==> counts_ok(p)
                && names_ok(p.names@) && all_adr_ok(p) && all_unique_ok(p) && geom_rows_ok(p)
                && body_rows_ok(p) && !mesh_rows_ok(p),
    {
        if !check_counts(&p) {
            return Err(ModelError::BadCounts);
        }
        if !check_name_buffer(&p.names) {
            return Err(ModelError::BadNameTable);
        }
        if !(check_adr_table(&p.names, &p.name_bodyadr) && check_adr_table(&p.names, &p.name_jntadr)
            && check_adr_table(&p.names, &p.name_geomadr) && check_adr_table(
            &p.names,
            &p.name_lightadr,
        ) && check_adr_table(&p.names, &p.name_camadr) && check_adr_table(
            &p.names,
            &p.name_meshadr,
        )) {
            return Err(ModelError::BadNameAddress);
        }
        if !(check_adr_unique(&p.names, &p.name_bodyadr) && check_adr_unique(
            &p.names,
            &p.name_jntadr,
        ) && check_adr_unique(&p.names, &p.name_geomadr) && check_adr_unique(
            &p.names,
            &p.name_lightadr,
        ) && check_adr_unique(&p.names, &p.name_camadr) && check_adr_unique(
            &p.names,
            &p.name_meshadr,
        )) {
            return Err(ModelError::DuplicateName);
        }
        if !check_geom_rows(&p) {
            return Err(ModelError::BadGeomTable);
        }
        if !check_body_rows(&p) {
            return Err(ModelError::BadBodyTable);
        }
        if !check_mesh_rows(&p) {
            return Err(ModelError::BadMeshTable);
        }
        Ok(Model { parts: p })
    }

    /// Returns the number of geoms in the model.
    pub fn ngeom(&self) -> (r: usize)
        ensures
            r == self.parts().ngeom,
    {
        self.parts.ngeom
    }

    /// Returns the number of generalized coordinates.
    pub fn nq(&self) -> (r: usize)
        ensures
            r == self.parts().nq,
    {
        self.parts.nq
    }

    /// Returns the number of activation states.
    pub fn na(&self) -> (r: usize)
        ensures
            r == self.parts().na,
    {
        self.parts.na
    }

    /// Returns the number of degrees of freedom.
    pub fn nv(&self) -> (r: usize)
        ensures
            r == self.parts().nv,
    {
        self.parts.nv
    }

    /// Returns the number of actuators/controls.
    pub fn nu(&self) -> (r: usize)
        ensures
            r == self.parts().nu,
    {
        self.parts.nu
    }

    /// Returns the number of bodies in the model.
    pub fn nbody(&self) -> (r: usize)
        ensures
            r == self.parts().nbody,
    {
        self.parts.nbody
    }

    /// Returns the number of entries in the sensor data vector.
    pub fn nsensordata(&self) -> (r: usize)
        ensures
            r == self.parts().nsensordata,
    {
        self.parts.nsensordata
    }

    /// Returns the number of meshes.
    pub fn nmesh(&self) -> (r: usize)
        ensures
            r == self.parts().nmesh,
    {
        self.parts.nmesh
    }

    /// Returns the number of vertices over all meshes.
    pub fn nmeshvert(&self) -> (r: usize)
        ensures
            r == self.parts().nmeshvert,
    {
        self.parts.nmeshvert
    }

    /// Returns the number of triangular faces over all meshes.
    pub fn nmeshface(&self) -> (r: usize)
        ensures
            r == self.parts().nmeshface,
    {
        self.parts.nmeshface
    }

    /// Returns the start index of vertices for mesh `mesh_id`.
    pub fn mesh_vertadr(&self, mesh_id: usize) -> (r: usize)
        requires
            self.wf(),
            mesh_id < self.parts().nmesh,
        ensures
            r == self.parts().mesh_vertadr@[mesh_id as int],
    {
        proof {
            assert(mesh_row_ok(self.parts(), mesh_id as int));
        }
        self.parts.mesh_vertadr[mesh_id] as usize
    }

    /// Returns the number of vertices for mesh `mesh_id`.
    pub fn mesh_vertnum(&self, mesh_id: usize) -> (r: usize)
        requires
            self.wf(),
            mesh_id < self.parts().nmesh,
        ensures
            r == self.parts().mesh_vertnum@[mesh_id as int],
    {
        proof {
            assert(mesh_row_ok(self.parts(), mesh_id as int));
        }
        self.parts.mesh_vertnum[mesh_id] as usize
    }

    /// Returns the start index of faces for mesh `mesh_id`.
    pub fn mesh_faceadr(&self, mesh_id: usize) -> (r: usize)
        requires
            self.wf(),
            mesh_id < self.parts().nmesh,
        ensures
            r == self.parts().mesh_faceadr@[mesh_id as int],
    {
        proof {
            assert(mesh_row_ok(self.parts(), mesh_id as int));
        }
        self.parts.mesh_faceadr[mesh_id] as usize
    }

    /// Returns the number of faces for mesh `mesh_id`.
    pub fn mesh_facenum(&self, mesh_id: usize) -> (r: usize)
        requires
            self.wf(),
            mesh_id < self.parts().nmesh,
        ensures
            r == self.parts().mesh_facenum@[mesh_id as int],
    {
        proof {
            assert(mesh_row_ok(self.parts(), mesh_id as int));
        }
        self.parts.mesh_facenum[mesh_id] as usize
    }
}

impl<T: Copy> Model<T> {
    /// Entity `i` of `kind` exists and bears exactly the non-empty name
    /// bytes `name_bytes`.
    pub open spec fn name_match(self, kind: ObjType, i: int, name_bytes: Seq<u8>) -> bool {
        &&& 0 <= i < self.kind_count(kind)
        &&& self.name_bytes_at(kind, i) == name_bytes
        &&& name_bytes.len() > 0
    }

    /// The id the engine's name lookup answers for `name_bytes`: the id
    /// of the entity of `kind` bearing that non-empty name, if any.
    /// Under the invariant at most one entity qualifies.
    pub open spec fn spec_name_to_id(self, kind: ObjType, name_bytes: Seq<u8>) -> Option<int> {
        if exists|i: int| self.name_match(kind, i, name_bytes) {
            Some(choose|i: int| self.name_match(kind, i, name_bytes))
        } else {
            None
        }
    }

    fn count_of(&self, kind: ObjType) -> (r: usize)
        ensures
            r as int == self.kind_count(kind),
    {
        match kind {
            ObjType::BODY => self.parts.nbody,
            ObjType::JOINT => self.parts.njnt,
            ObjType::GEOM => self.parts.ngeom,
            ObjType::LIGHT => self.parts.nlight,
            ObjType::CAMERA => self.parts.ncam,
            ObjType::MESH => self.parts.nmesh,
        }
    }

    fn adr_of(&self, kind: ObjType, id: usize) -> (r: i32)
        requires
            self.wf(),
            (id as int) < self.kind_count(kind),
        ensures
            r == self.kind_adr(kind)[id as int],
            0 <= r < self.parts().names@.len(),
            valid_utf8(self.name_bytes_at(kind, id as int)),
    {
        proof {
            assert(self.kind_adr(kind).len() == self.kind_count(kind));
            assert(0 <= self.kind_adr(kind)[id as int] < self.parts().names@.len() && valid_utf8(
                name_bytes_from(self.parts().names@, self.kind_adr(kind)[id as int] as int),
            )) by {
                match kind {
                    ObjType::BODY => {
                        assert(0 <= self.parts().name_bodyadr@[id as int]
                            < self.parts().names@.len());
                    },
                    ObjType::JOINT => {
                        assert(0 <= self.parts().name_jntadr@[id as int]
                            < self.parts().names@.len());
                    },
                    ObjType::GEOM => {
                        assert(0 <= self.parts().name_geomadr@[id as int]
                            < self.parts().names@.len());
                    },
                    ObjType::LIGHT => {
                        assert(0 <= self.parts().name_lightadr@[id as int]
                            < self.parts().names@.len());
                    },
                    ObjType::CAMERA => {
                        assert(0 <= self.parts().name_camadr@[id as int]
                            < self.parts().names@.len());
                    },
                    ObjType::MESH => {
                        assert(0 <= self.parts().name_meshadr@[id as int]
                            < self.parts().names@.len());
                    },
                }
            }
        }
        match kind {
            ObjType::BODY => self.parts.name_bodyadr[id],
            ObjType::JOINT => self.parts.name_jntadr[id],
            ObjType::GEOM => self.parts.name_geomadr[id],
            ObjType::LIGHT => self.parts.name_lightadr[id],
            ObjType::CAMERA => self.parts.name_camadr[id],
            ObjType::MESH => self.parts.name_meshadr[id],
        }
    }

    /// Only one entity of a kind can bear a given non-empty name.
    proof fn lemma_name_match_unique(self, kind: ObjType, i: int, j: int, name_bytes: Seq<u8>)
        requires
            self.wf(),
            self.name_match(kind, i, name_bytes),
            self.name_match(kind, j, name_bytes),
        ensures
            i == j,
    {
        if i != j {
            let a = if i < j {
                i
            } else {
                j
            };
            let b = if i < j {
                j
            } else {
                i
            };
            match kind {
                ObjType::BODY => {
                    assert(name_bytes_from(
                        self.parts().names@,
                        self.parts().name_bodyadr@[a] as int,
                    ) == name_bytes_from(
                        self.parts().names@,
                        self.parts().name_bodyadr@[b] as int,
                    ));
                },
                ObjType::JOINT => {
                    assert(name_bytes_from(
                        self.parts().names@,
                        self.parts().name_jntadr@[a] as int,
                    ) == name_bytes_from(
                        self.parts().names@,
                        self.parts().name_jntadr@[b] as int,
                    ));
                },
                ObjType::GEOM => {
                    assert(name_bytes_from(
                        self.parts().names@,
                        self.parts().name_geomadr@[a] as int,
                    ) == name_bytes_from(
                        self.parts().names@,
                        self.parts().name_geomadr@[b] as int,
                    ));
                },
                ObjType::LIGHT => {
                    assert(name_bytes_from(
                        self.parts().names@,
                        self.parts().name_lightadr@[a] as int,
                    ) == name_bytes_from(
                        self.parts().names@,
                        self.parts().name_lightadr@[b] as int,
                    ));
                },
                ObjType::CAMERA => {
                    assert(name_bytes_from(
                        self.parts().names@,
                        self.parts().name_camadr@[a] as int,
                    ) == name_bytes_from(
                        self.parts().names@,
                        self.parts().name_camadr@[b] as int,
                    ));
                },
                ObjType::MESH => {
                    assert(name_bytes_from(
                        self.parts().names@,
                        self.parts().name_meshadr@[a] as int,
                    ) == name_bytes_from(
                        self.parts().names@,
                        self.parts().name_meshadr@[b] as int,
                    ));
                },
            }
        }
    }

    /// Converts `name` to the id of the entity of `obj_type` bearing it:
    /// the engine's name lookup, answered from the validated tables.
    pub fn name_to_id(&self, obj_type: ObjType, name: &str) -> (r: Option<u16>)
        requires
            self.wf(),
        ensures
            match self.spec_name_to_id(obj_type, name.spec_bytes()) {
                Some(i) => r == Some(i as u16) && 0 <= i < self.kind_count(obj_type),
                None => r is None,
            },
    {
        let q = name.as_bytes_vec();
        let count = self.count_of(obj_type);
        let mut id: usize = 0;
        while id < count
            invariant
                self.wf(),
                0 <= id <= count,
                count as int == self.kind_count(obj_type),
                q@ == name.spec_bytes(),
                forall|k: int| 0 <= k < id ==> !self.name_match(obj_type, k, q@),
            decreases count - id,
        {
            let adr = self.adr_of(obj_type, id);
            let seg = read_name_bytes(&self.parts.names, adr as usize);
            if seg.len() > 0 && crate::helpers::bytes_eq(&seg, &q) {
                proof {
                    assert(self.name_match(obj_type, id as int, q@));
                    let c = choose|i: int| self.name_match(obj_type, i, q@);
                    self.lemma_name_match_unique(obj_type, c, id as int, q@);
                }
                return Some(id as u16);
            }
            id = id + 1;
        }
        proof {
            if exists|i: int| self.name_match(obj_type, i, q@) {
                let c = choose|i: int| self.name_match(obj_type, i, q@);
                assert(!self.name_match(obj_type, c, q@));
            }
        }
        None
    }

    /// Converts a valid id of `obj_type` back to its stored name, or
    /// `None` when the id is out of range or the entity is unnamed.
    pub fn id_to_name(&self, obj_type: ObjType, id: u16) -> (r: Option<String>)
        requires
            self.wf(),
        ensures
            ((id as int) < self.kind_count(obj_type) && self.name_bytes_at(
                obj_type,
                id as int,
            ).len() > 0) ==> r is Some && r->0@ == self.name_at(obj_type, id as int),
            !((id as int) < self.kind_count(obj_type) && self.name_bytes_at(
                obj_type,
                id as int,
            ).len() > 0) ==> r is None,
    {
        let count = self.count_of(obj_type);
        if (id as usize) >= count {
            return None;
        }
        let adr = self.adr_of(obj_type, id as usize);
        let seg = read_name_bytes(&self.parts.names, adr as usize);
        if seg.len() == 0 {
            return None;
        }
        let ghost segv = seg@;
        match crate::helpers::utf8_to_string(seg) {
            Some(s) => Some(s),
            None => {
                proof {
                    assert(valid_utf8(segv));
                    assert(false);
                }
                None
            },
        }
    }
}

/// The names packed in the buffer from position `start` on, one entry
/// per terminated run.
pub open spec fn split_names_from(bytes: Seq<u8>, start: int) -> Seq<Seq<u8>>
    decreases bytes.len() - start,
    via split_names_from_decreases
{
    if start < 0 || start >= bytes.len() {
        Seq::empty()
    } else {
        let p = first_nul_from(bytes, start);
        if p >= bytes.len() {
            seq![bytes.subrange(start, bytes.len() as int)]
        } else {
            seq![bytes.subrange(start, p)] + split_names_from(bytes, p + 1)
        }
    }
}

#[via_fn]
proof fn split_names_from_decreases(bytes: Seq<u8>, start: int) {
    if 0 <= start < bytes.len() {
        crate::helpers::lemma_first_nul_bounds(bytes, start);
    }
}

/// All names packed in the buffer, in storage order.
pub open spec fn split_names(bytes: Seq<u8>) -> Seq<Seq<u8>> {
    split_names_from(bytes, 0)
}

impl<T: Copy> Model<T> {
    /// Returns the list of all names the model stores, in the order of
    /// the packed buffer.
    pub fn names(&self) -> (r: Vec<String>)
        requires
            self.wf(),
        ensures
            r@.len() == split_names(self.parts().names@).len(),
            forall|k: int|
                0 <= k < r@.len() ==> #[trigger] r@[k]@ == decode_utf8(
                    split_names(self.parts().names@)[k],
                ),
    {
        let names = &self.parts.names;
        let ghost full = names@;
        let mut out: Vec<String> = Vec::new();
        let mut pos: usize = 0;
        while pos < names.len()
            invariant
                self.wf(),
                names@ == self.parts().names@,
                full == names@,
                0 <= pos <= names@.len(),
                pos == 0 || names@[pos - 1] == 0,
                out@.len() <= split_names(full).len(),
                split_names_from(full, pos as int) =~= split_names(full).skip(out@.len() as int),
                forall|k: int|
                    0 <= k < out@.len() ==> #[trigger] out@[k]@ == decode_utf8(
                        split_names(full)[k],
                    ),
            decreases names@.len() - pos,
        {
            proof {
                crate::helpers::lemma_first_nul_bounds(full, pos as int);
                assert(first_nul_from(full, pos as int) < full.len()) by {
                    if first_nul_from(full, pos as int) == full.len() {
                        assert(full[full.len() - 1] != 0);
                    }
                }
            }
            let ghost p = first_nul_from(full, pos as int);
            let seg = read_name_bytes(names, pos);
            let seg_len = seg.len();
            let ghost segv = seg@;
            proof {
                // `pos` starts a name, so its bytes are valid UTF-8.
                assert(valid_utf8(name_bytes_from(full, pos as int)));
                assert(segv == full.subrange(pos as int, p));
                // One unfolding of the split at `pos`.
                assert(split_names_from(full, pos as int) =~= seq![full.subrange(pos as int, p)]
                    + split_names_from(full, p + 1));
                assert(split_names_from(full, pos as int).len() >= 1);
                assert(split_names(full).skip(out@.len() as int).len() == split_names(full).len()
                    - out@.len());
                assert(split_names(full)[out@.len() as int] == split_names_from(
                    full,
                    pos as int,
                )[0]);
                assert(split_names(full)[out@.len() as int] == segv);
            }
            let s = match crate::helpers::utf8_to_string(seg) {
                Some(s) => s,
                None => {
                    proof {
                        assert(false);
                    }
                    String::new()
                },
            };
            out.push(s);
            proof {
                assert(split_names_from(full, p + 1) =~= split_names(full).skip(
                    out@.len() as int,
                )) by {
                    assert(split_names_from(full, pos as int).drop_first() =~= split_names_from(
                        full,
                        p + 1,
                    ));
                    assert(split_names(full).skip((out@.len() - 1) as int).drop_first()
                        =~= split_names(full).skip(out@.len() as int));
                }
            }
            pos = pos + seg_len + 1;
        }
        proof {
            assert(split_names_from(full, pos as int) =~= Seq::<Seq<u8>>::empty());
            assert(split_names(full).skip(out@.len() as int).len() == 0);
        }
        out
    }
}

impl<T: Copy> Model<T> {
    /// `m` is the typed snapshot of mesh `i`: name, vertices, normals
    /// and triangle indices copied from the flat tables at the row's
    /// addresses.
    pub open spec fn mesh_matches(self, i: int, m: Mesh<T>) -> bool {
        let va = self.parts().mesh_vertadr@[i] as int;
        let vn = self.parts().mesh_vertnum@[i] as int;
        let fa = self.parts().mesh_faceadr@[i] as int;
        let fc = self.parts().mesh_facenum@[i] as int;
        &&& m.name@ == self.name_at(ObjType::MESH, i)
        &&& m.vertices@.len() == vn
        &&& forall|j: int, c: int|
            0 <= j < vn && 0 <= c < 3 ==> #[trigger] m.vertices@[j]@[c] == self.parts().mesh_vert@[(
            va + j) * 3 + c]
        &&& m.normals@.len() == vn
        &&& forall|j: int, c: int|
            0 <= j < vn && 0 <= c < 3 ==> #[trigger] m.normals@[j]@[c]
                == self.parts().mesh_normal@[(va + j) * 3 + c]
        &&& m.indices@.len() == 3 * fc
        &&& forall|k: int|
            0 <= k < 3 * fc ==> #[trigger] m.indices@[k] == self.parts().mesh_face@[fa * 3 + k]
                as u32
    }

    /// The stored name of entity `id` of `kind`, decoded; empty when the
    /// entity is unnamed.
    fn name_string_at(&self, kind: ObjType, id: usize) -> (r: String)
        requires
            self.wf(),
            (id as int) < self.kind_count(kind),
        ensures
            r@ == self.name_at(kind, id as int),
    {
        let adr = self.adr_of(kind, id);
        let seg = read_name_bytes(&self.parts.names, adr as usize);
        let ghost segv = seg@;
        match crate::helpers::utf8_to_string(seg) {
            Some(s) => s,
            None => {
                proof {
                    assert(valid_utf8(segv));
                    assert(false);
                }
                String::new()
            },
        }
    }

    /// Returns the list of typed mesh snapshots, one per mesh, built
    /// from the flat vertex, normal and face tables.
    pub fn meshes(&self) -> (r: Vec<Mesh<T>>)
        requires
            self.wf(),
        ensures
            r@.len() == self.parts().nmesh,
            forall|i: int| 0 <= i < r@.len() ==> #[trigger] self.mesh_matches(i, r@[i]),
    {
        let mut out: Vec<Mesh<T>> = Vec::new();
        let n = self.nmesh();
        let mut i: usize = 0;
        while i < n
            invariant
                self.wf(),
                n == self.parts().nmesh,
                0 <= i <= n,
                out@.len() == i,
                forall|k: int| 0 <= k < i ==> #[trigger] self.mesh_matches(k, out@[k]),
            decreases n - i,
        {
            proof {
                assert(mesh_row_ok(self.parts(), i as int));
            }
            let vertadr = self.mesh_vertadr(i);
            let vertnum = self.mesh_vertnum(i);
            let faceadr = self.mesh_faceadr(i);
            let facenum = self.mesh_facenum(i);
            proof {
                assert((vertadr + vertnum) * 3 <= 3 * self.parts().nmeshvert) by (nonlinear_arith)
                    requires
                        vertadr + vertnum <= self.parts().nmeshvert,
                ;
                assert((faceadr + facenum) * 3 <= 3 * self.parts().nmeshface) by (nonlinear_arith)
                    requires
                        faceadr + facenum <= self.parts().nmeshface,
                ;
            }
            let vertices = crate::helpers::extract_mesh_attribute(
                &self.parts.mesh_vert,
                vertadr,
                vertnum,
            );
            let normals = crate::helpers::extract_mesh_attribute(
                &self.parts.mesh_normal,
                vertadr,
                vertnum,
            );
            let indices = crate::helpers::extract_indices(&self.parts.mesh_face, faceadr, facenum);
            let name = self.name_string_at(ObjType::MESH, i);
            let mesh = Mesh { vertices, normals, indices, name };
            proof {
                assert(self.mesh_matches(i as int, mesh));
            }
            out.push(mesh);
            i = i + 1;
        }
        out
    }
}

impl<T: Copy> Model<T> {
    /// `g` is the typed snapshot of geom `i`: its row values, its
    /// attribute triples and quadruples, and — when the row names a mesh
    /// — a copy of that mesh's snapshot.
    pub open spec fn geom_matches(self, i: int, g: Geom<T>) -> bool {
        &&& g.id == i as i32
        &&& g.name@ == self.name_at(ObjType::GEOM, i)
        &&& crate::geom::geom_code(g.geom_type) == self.parts().geom_type@[i] as int
        &&& g.body_id == self.parts().geom_bodyid@[i]
        &&& g.geom_group == self.parts().geom_group@[i]
        &&& g.geom_contype == self.parts().geom_contype@[i]
        &&& forall|c: int| 0 <= c < 3 ==> #[trigger] g.pos@[c] == self.parts().geom_pos@[3 * i + c]
        &&& forall|c: int|
            0 <= c < 4 ==> #[trigger] g.quat@[c] == self.parts().geom_quat@[4 * i + c]
        &&& forall|c: int|
            0 <= c < 3 ==> #[trigger] g.size@[c] == self.parts().geom_size@[3 * i + c]
        &&& forall|c: int|
            0 <= c < 4 ==> #[trigger] g.color@[c] == self.parts().geom_rgba@[4 * i + c]
        &&& (self.parts().geom_dataid@[i] == -1 <==> g.mesh is None)
        &&& (self.parts().geom_dataid@[i] != -1 ==> self.mesh_matches(
            self.parts().geom_dataid@[i] as int,
            g.mesh->0,
        ))
    }

    /// Returns the list of typed geom snapshots, one per geom.
    pub fn geoms(&self) -> (r: Vec<Geom<T>>)
        requires
            self.wf(),
        ensures
            r@.len() == self.parts().ngeom,
            forall|i: int| 0 <= i < r@.len() ==> #[trigger] self.geom_matches(i, r@[i]),
    {
        let meshes = self.meshes();
        let n = self.ngeom();
        let mut out: Vec<Geom<T>> = Vec::new();
        let mut i: usize = 0;
        while i < n
            invariant
                self.wf(),
                n == self.parts().ngeom,
                0 <= i <= n,
                out@.len() == i,
                meshes@.len() == self.parts().nmesh,
                forall|k: int| 0 <= k < meshes@.len() ==> #[trigger] self.mesh_matches(
                    k,
                    meshes@[k],
                ),
                forall|k: int| 0 <= k < i ==> #[trigger] self.geom_matches(k, out@[k]),
            decreases n - i,
        {
            proof {
                assert(geom_row_ok(self.parts(), i as int));
                assert(3 * i + 3 <= 3 * n && 4 * i + 4 <= 4 * n) by (nonlinear_arith)
                    requires
                        0 <= i < n,
                ;
            }
            let b3: usize = 3 * i;
            let b4: usize = 4 * i;
            let pos: [T; 3] = [
                self.parts.geom_pos[b3],
                self.parts.geom_pos[b3 + 1],
                self.parts.geom_pos[b3 + 2],
            ];
            let quat: [T; 4] = [
                self.parts.geom_quat[b4],
                self.parts.geom_quat[b4 + 1],
                self.parts.geom_quat[b4 + 2],
                self.parts.geom_quat[b4 + 3],
            ];
            let size: [T; 3] = [
                self.parts.geom_size[b3],
                self.parts.geom_size[b3 + 1],
                self.parts.geom_size[b3 + 2],
            ];
            let color: [T; 4] = [
                self.parts.geom_rgba[b4],
                self.parts.geom_rgba[b4 + 1],
                self.parts.geom_rgba[b4 + 2],
                self.parts.geom_rgba[b4 + 3],
            ];
            let dataid = self.parts.geom_dataid[i];
            let mesh: Option<Mesh<T>> = if dataid == -1 {
                None
            } else {
                proof {
                    assert(self.mesh_matches(dataid as int, meshes@[dataid as int]));
                }
                Some(meshes[dataid as usize].clone())
            };
            let code = self.parts.geom_type[i];
            proof {
                assert(code >= 0) by {
                    let t = choose|t: crate::geom::GeomType|
                        crate::geom::geom_code(t) == code as int;
                    crate::geom::lemma_geom_code_nonneg(t);
                }
            }
            let geom_type = crate::geom::geom_type_from(code as usize);
            let name = self.name_string_at(ObjType::GEOM, i);
            let g = Geom {
                id: i as i32,
                name,
                geom_type,
                body_id: self.parts.geom_bodyid[i],
                pos,
                quat,
                size,
                color,
                mesh,
                geom_group: self.parts.geom_group[i],
                geom_contype: self.parts.geom_contype[i],
            };
            proof {
                assert(self.geom_matches(i as int, g));
            }
            out.push(g);
            i = i + 1;
        }
        out
    }

    /// `b` is the typed snapshot of body `i`: its row values and its
    /// attribute triple and quadruple.
    pub open spec fn body_matches(self, i: int, b: Body<T>) -> bool {
        &&& b.id == i as i32
        &&& b.name@ == self.name_at(ObjType::BODY, i)
        &&& b.parent_id == self.parts().body_parentid@[i]
        &&& b.geom_n == self.parts().body_geomnum@[i]
        &&& b.geom_addr == self.parts().body_geomadr@[i]
        &&& forall|c: int| 0 <= c < 3 ==> #[trigger] b.pos@[c] == self.parts().body_pos@[3 * i + c]
        &&& forall|c: int|
            0 <= c < 4 ==> #[trigger] b.quat@[c] == self.parts().body_quat@[4 * i + c]
    }

    /// Returns the list of typed body snapshots, one per body.
    pub fn bodies(&self) -> (r: Vec<Body<T>>)
        requires
            self.wf(),
        ensures
            r@.len() == self.parts().nbody,
            forall|i: int| 0 <= i < r@.len() ==> #[trigger] self.body_matches(i, r@[i]),
    {
        let n = self.nbody();
        let mut out: Vec<Body<T>> = Vec::new();
        let mut i: usize = 0;
        while i < n
            invariant
                self.wf(),
                n == self.parts().nbody,
                0 <= i <= n,
                out@.len() == i,
                forall|k: int| 0 <= k < i ==> #[trigger] self.body_matches(k, out@[k]),
            decreases n - i,
        {
            proof {
                assert(body_row_ok(self.parts(), i as int));
                assert(3 * i + 3 <= 3 * n && 4 * i + 4 <= 4 * n) by (nonlinear_arith)
                    requires
                        0 <= i < n,
                ;
            }
            let b3: usize = 3 * i;
            let b4: usize = 4 * i;
            let pos: [T; 3] = [
                self.parts.body_pos[b3],
                self.parts.body_pos[b3 + 1],
                self.parts.body_pos[b3 + 2],
            ];
            let quat: [T; 4] = [
                self.parts.body_quat[b4],
                self.parts.body_quat[b4 + 1],
                self.parts.body_quat[b4 + 2],
                self.parts.body_quat[b4 + 3],
            ];
            let name = self.name_string_at(ObjType::BODY, i);
            let b = Body {
                id: i as i32,
                name,
                parent_id: self.parts.body_parentid[i],
                geom_n: self.parts.body_geomnum[i],
                geom_addr: self.parts.body_geomadr[i],
                pos,
                quat,
            };
            proof {
                assert(self.body_matches(i as int, b));
            }
            out.push(b);
            i = i + 1;
        }
        out
    }
}

/// Looking an entity's stored name up returns the entity itself: for
/// every valid `(kind, id)` pair with a non-empty name, the name lookup
/// of that name answers `id`, and re-encoding the decoded name gives
/// back the stored bytes, so the round trip goes through the string
/// form unchanged.
pub proof fn lemma_id_lookup_symmetry<T: Copy>(m: Model<T>, kind: ObjType, id: int)
    requires
        m.wf(),
        0 <= id < m.kind_count(kind),
        m.name_bytes_at(kind, id).len() > 0,
    ensures
        m.spec_name_to_id(kind, m.name_bytes_at(kind, id)) == Some(id),
        vstd::utf8::encode_utf8(m.name_at(kind, id)) == m.name_bytes_at(kind, id),
{
    let nb = m.name_bytes_at(kind, id);
    assert(valid_utf8(nb)) by {
        match kind {
            ObjType::BODY => {
                assert(0 <= m.parts().name_bodyadr@[id] < m.parts().names@.len());
            },
            ObjType::JOINT => {
                assert(0 <= m.parts().name_jntadr@[id] < m.parts().names@.len());
            },
            ObjType::GEOM => {
                assert(0 <= m.parts().name_geomadr@[id] < m.parts().names@.len());
            },
            ObjType::LIGHT => {
                assert(0 <= m.parts().name_lightadr@[id] < m.parts().names@.len());
            },
            ObjType::CAMERA => {
                assert(0 <= m.parts().name_camadr@[id] < m.parts().names@.len());
            },
            ObjType::MESH => {
                assert(0 <= m.parts().name_meshadr@[id] < m.parts().names@.len());
            },
        }
    }
    vstd::utf8::decode_utf8_encode_utf8(nb);
    assert(m.name_match(kind, id, nb));
    let c = choose|i: int| m.name_match(kind, i, nb);
    m.lemma_name_match_unique(kind, c, id, nb);
}

/// The two raw snapshots hold the same counts and the same table
/// contents.
pub open spec fn parts_data_eq<T>(a: ModelParts<T>, b: ModelParts<T>) -> bool {
    &&& a.nq == b.nq
    &&& a.nv == b.nv
    &&& a.nu == b.nu
    &&& a.na == b.na
    &&& a.nbody == b.nbody
    &&& a.njnt == b.njnt
    &&& a.ngeom == b.ngeom
    &&& a.nlight == b.nlight
    &&& a.ncam == b.ncam
    &&& a.nmesh == b.nmesh
    &&& a.nmeshvert == b.nmeshvert
    &&& a.nmeshface == b.nmeshface
    &&& a.nsensordata == b.nsensordata
    &&& a.names@ == b.names@
    &&& a.name_bodyadr@ == b.name_bodyadr@
    &&& a.name_jntadr@ == b.name_jntadr@
    &&& a.name_geomadr@ == b.name_geomadr@
    &&& a.name_lightadr@ == b.name_lightadr@
    &&& a.name_camadr@ == b.name_camadr@
    &&& a.name_meshadr@ == b.name_meshadr@
    &&& a.geom_type@ == b.geom_type@
    &&& a.geom_bodyid@ == b.geom_bodyid@
    &&& a.geom_dataid@ == b.geom_dataid@
    &&& a.geom_group@ == b.geom_group@
    &&& a.geom_contype@ == b.geom_contype@
    &&& a.geom_pos@ == b.geom_pos@
    &&& a.geom_quat@ == b.geom_quat@
    &&& a.geom_size@ == b.geom_size@
    &&& a.geom_rgba@ == b.geom_rgba@
    &&& a.body_parentid@ == b.body_parentid@
    &&& a.body_geomnum@ == b.body_geomnum@
    &&& a.body_geomadr@ == b.body_geomadr@
    &&& a.body_pos@ == b.body_pos@
    &&& a.body_quat@ == b.body_quat@
    &&& a.mesh_vertadr@ == b.mesh_vertadr@
    &&& a.mesh_vertnum@ == b.mesh_vertnum@
    &&& a.mesh_faceadr@ == b.mesh_faceadr@
    &&& a.mesh_facenum@ == b.mesh_facenum@
    &&& a.mesh_vert@ == b.mesh_vert@
    &&& a.mesh_normal@ == b.mesh_normal@
    &&& a.mesh_face@ == b.mesh_face@
}

/// Well-formedness depends only on the data a snapshot holds.
pub proof fn lemma_parts_wf_transfers<T>(a: ModelParts<T>, b: ModelParts<T>)
    requires
        parts_data_eq(a, b),
        parts_wf(a),
    ensures
        parts_wf(b),
{
    assert forall|i: int| 0 <= i < b.ngeom implies #[trigger] geom_row_ok(b, i) by {
        assert(geom_row_ok(a, i));
    }
    assert forall|i: int| 0 <= i < b.nbody implies #[trigger] body_row_ok(b, i) by {
        assert(body_row_ok(a, i));
    }
    assert forall|i: int| 0 <= i < b.nmesh implies #[trigger] mesh_row_ok(b, i) by {
        assert(mesh_row_ok(a, i));
    }
}

impl<T: Copy> Clone for Model<T> {
    /// An independent deep copy: the copy holds the same counts and
    /// table contents and is itself well formed, so it outlives the
    /// original and answers every query the same way.
    fn clone(&self) -> (r: Self)
        ensures
            parts_data_eq(r.parts(), self.parts()),
            self.wf() ==> r.wf(),
    {
        let p = &self.parts;
        let copy = ModelParts {
            nq: p.nq,
            nv: p.nv,
            nu: p.nu,
            na: p.na,
            nbody: p.nbody,
            njnt: p.njnt,
            ngeom: p.ngeom,
            nlight: p.nlight,
            ncam: p.ncam,
            nmesh: p.nmesh,
            nmeshvert: p.nmeshvert,
            nmeshface: p.nmeshface,
            nsensordata: p.nsensordata,
            names: crate::helpers::copy_vec(&p.names),
            name_bodyadr: crate::helpers::copy_vec(&p.name_bodyadr),
            name_jntadr: crate::helpers::copy_vec(&p.name_jntadr),
            name_geomadr: crate::helpers::copy_vec(&p.name_geomadr),
            name_lightadr: crate::helpers::copy_vec(&p.name_lightadr),
            name_camadr: crate::helpers::copy_vec(&p.name_camadr),
            name_meshadr: crate::helpers::copy_vec(&p.name_meshadr),
            geom_type: crate::helpers::copy_vec(&p.geom_type),
            geom_bodyid: crate::helpers::copy_vec(&p.geom_bodyid),
            geom_dataid: crate::helpers::copy_vec(&p.geom_dataid),
            geom_group: crate::helpers::copy_vec(&p.geom_group),
            geom_contype: crate::helpers::copy_vec(&p.geom_contype),
            geom_pos: crate::helpers::copy_vec(&p.geom_pos),
            geom_quat: crate::helpers::copy_vec(&p.geom_quat),
            geom_size: crate::helpers::copy_vec(&p.geom_size),
            geom_rgba: crate::helpers::copy_vec(&p.geom_rgba),
            body_parentid: crate::helpers::copy_vec(&p.body_parentid),
            body_geomnum: crate::helpers::copy_vec(&p.body_geomnum),
            body_geomadr: crate::helpers::copy_vec(&p.body_geomadr),
            body_pos: crate::helpers::copy_vec(&p.body_pos),
            body_quat: crate::helpers::copy_vec(&p.body_quat),
            mesh_vertadr: crate::helpers::copy_vec(&p.mesh_vertadr),
            mesh_vertnum: crate::helpers::copy_vec(&p.mesh_vertnum),
            mesh_faceadr: crate::helpers::copy_vec(&p.mesh_faceadr),
            mesh_facenum: crate::helpers::copy_vec(&p.mesh_facenum),
            mesh_vert: crate::helpers::copy_vec(&p.mesh_vert),
            mesh_normal: crate::helpers::copy_vec(&p.mesh_normal),
            mesh_face: crate::helpers::copy_vec(&p.mesh_face),
        };
        proof {
            if self.wf() {
                lemma_parts_wf_transfers(self.parts(), copy);
            }
        }
        Model { parts: copy }
    }
}

/// A deep copy is interchangeable with its original: two models holding
/// the same data agree on every count, every stored name, and every
/// name lookup, so reads of a copy are unaffected by whatever later
/// happens to the model it was copied from.
pub proof fn lemma_equal_models_answer_alike<T: Copy>(
    a: Model<T>,
    b: Model<T>,
    kind: ObjType,
    id: int,
    name_bytes: Seq<u8>,
)
    requires
        a.wf(),
        parts_data_eq(a.parts(), b.parts()),
    ensures
        a.kind_count(kind) == b.kind_count(kind),
        a.kind_adr(kind) == b.kind_adr(kind),
        a.name_bytes_at(kind, id) == b.name_bytes_at(kind, id),
        a.name_at(kind, id) == b.name_at(kind, id),
        a.spec_name_to_id(kind, name_bytes) == b.spec_name_to_id(kind, name_bytes),
{
    assert forall|i: int| a.name_match(kind, i, name_bytes) <==> b.name_match(
        kind,
        i,
        name_bytes,
    ) by {
        assert(a.name_bytes_at(kind, i) == b.name_bytes_at(kind, i));
    }
    if exists|i: int| a.name_match(kind, i, name_bytes) {
        let wa = choose|i: int| a.name_match(kind, i, name_bytes);
        assert(b.name_match(kind, wa, name_bytes));
        let wb = choose|i: int| b.name_match(kind, i, name_bytes);
        assert(a.name_match(kind, wb, name_bytes));
        a.lemma_name_match_unique(kind, wa, wb, name_bytes);
    } else if exists|i: int| b.name_match(kind, i, name_bytes) {
        let wb = choose|i: int| b.name_match(kind, i, name_bytes);
        assert(a.name_match(kind, wb, name_bytes));
    }
}

/// How a native load call ended, decided from its error buffer and
/// whether a handle came back.
#[derive(Debug)]
pub enum LoadOutcome {
    /// No error text and a handle: the model loaded.
    Loaded,
    /// The loader wrote error text; the load failed with that message.
    NativeError(String),
    /// The native contract broke: no error text yet no handle, or an
    /// error buffer that is not UTF-8. Callers stop loudly on this.
    BrokenInvariant,
}

/// Decides the outcome of a native load call: non-empty decoded error
/// text rejects the load with that text; empty text with a handle
/// accepts; empty text without a handle, or an undecodable buffer, is a
/// broken native invariant.
pub fn load_outcome(handle_present: bool, err_buf: &Vec<u8>) -> (r: LoadOutcome)
    ensures
        ({
            let msg = crate::helpers::to_first_nul(err_buf@);
            &&& ((valid_utf8(msg) && msg.len() > 0) <==> r is NativeError)
            &&& (r is NativeError ==> r->NativeError_0@ == decode_utf8(msg))
            &&& ((valid_utf8(msg) && msg.len() == 0 && handle_present) <==> r is Loaded)
            &&& ((!valid_utf8(msg) || (msg.len() == 0 && !handle_present)) <==> r
                is BrokenInvariant)
        }),
{
    match crate::helpers::convert_err_buf(err_buf) {
        None => LoadOutcome::BrokenInvariant,
        Some(s) => {
            if !s.as_str().is_empty() {
                LoadOutcome::NativeError(s)
            } else if handle_present {
                LoadOutcome::Loaded
            } else {
                LoadOutcome::BrokenInvariant
            }
        },
    }
}

/// All six name-offset columns point at valid names.
pub open spec fn all_adr_ok<T>(p: ModelParts<T>) -> bool {
    &&& adr_entries_ok(p.names@, p.name_bodyadr@)
    &&& adr_entries_ok(p.names@, p.name_jntadr@)
    &&& adr_entries_ok(p.names@, p.name_geomadr@)
    &&& adr_entries_ok(p.names@, p.name_lightadr@)
    &&& adr_entries_ok(p.names@, p.name_camadr@)
    &&& adr_entries_ok(p.names@, p.name_meshadr@)
}

/// All six kinds keep non-empty names unique.
pub open spec fn all_unique_ok<T>(p: ModelParts<T>) -> bool {
    &&& adr_names_unique(p.names@, p.name_bodyadr@)
    &&& adr_names_unique(p.names@, p.name_jntadr@)
    &&& adr_names_unique(p.names@, p.name_geomadr@)
    &&& adr_names_unique(p.names@, p.name_lightadr@)
    &&& adr_names_unique(p.names@, p.name_camadr@)
    &&& adr_names_unique(p.names@, p.name_meshadr@)
}

fn check_counts<T>(p: &ModelParts<T>) -> (r: bool)
    ensures
        r == counts_ok(*p),
{
    if p.nbody > MAX_ENTITY_COUNT || p.njnt > MAX_ENTITY_COUNT || p.ngeom > MAX_ENTITY_COUNT
        || p.nlight > MAX_ENTITY_COUNT || p.ncam > MAX_ENTITY_COUNT || p.nmesh
        > MAX_ENTITY_COUNT {
        return false;
    }
    let r1 = p.name_bodyadr.len() == p.nbody && p.name_jntadr.len() == p.njnt
        && p.name_geomadr.len() == p.ngeom && p.name_lightadr.len() == p.nlight
        && p.name_camadr.len() == p.ncam && p.name_meshadr.len() == p.nmesh;
    let r2 = p.geom_type.len() == p.ngeom && p.geom_bodyid.len() == p.ngeom
        && p.geom_dataid.len() == p.ngeom && p.geom_group.len() == p.ngeom
        && p.geom_contype.len() == p.ngeom && p.geom_pos.len() == 3 * p.ngeom
        && p.geom_quat.len() == 4 * p.ngeom && p.geom_size.len() == 3 * p.ngeom
        && p.geom_rgba.len() == 4 * p.ngeom;
    let r3 = p.body_parentid.len() == p.nbody && p.body_geomnum.len() == p.nbody
        && p.body_geomadr.len() == p.nbody && p.body_pos.len() == 3 * p.nbody
        && p.body_quat.len() == 4 * p.nbody;
    let r4 = p.mesh_vertadr.len() == p.nmesh && p.mesh_vertnum.len() == p.nmesh
        && p.mesh_faceadr.len() == p.nmesh && p.mesh_facenum.len() == p.nmesh;
    let r5 = check_len_is_triple(p.mesh_vert.len(), p.nmeshvert) && check_len_is_triple(
        p.mesh_normal.len(),
        p.nmeshvert,
    ) && check_len_is_triple(p.mesh_face.len(), p.nmeshface);
    r1 && r2 && r3 && r4 && r5
}

/// Decides `len == 3 * n` without computing `3 * n`, which could exceed
/// the machine word.
fn check_len_is_triple(len: usize, n: usize) -> (r: bool)
    ensures
        r == (len == 3 * n),
{
    proof {
        vstd::arithmetic::div_mod::lemma_fundamental_div_mod(len as int, 3);
    }
    len % 3 == 0 && len / 3 == n
}

/// Reads the name stored at offset `adr`: the bytes up to the first
/// terminator.
pub fn read_name_bytes(names: &Vec<u8>, adr: usize) -> (r: Vec<u8>)
    requires
        adr <= names@.len(),
    ensures
        r@ == name_bytes_from(names@, adr as int),
        forall|j: int| 0 <= j < r@.len() ==> r@[j] != 0,
{
    proof {
        crate::helpers::lemma_first_nul_bounds(names@, adr as int);
    }
    let ghost stop = first_nul_from(names@, adr as int);
    let mut out: Vec<u8> = Vec::new();
    let mut i: usize = adr;
    while i < names.len() && names[i] != 0
        invariant
            adr <= i <= names@.len(),
            i <= stop <= names@.len(),
            stop < names@.len() ==> names@[stop] == 0,
            forall|j: int| adr <= j < stop ==> names@[j] != 0,
            out@ == names@.subrange(adr as int, i as int),
        decreases names@.len() - i,
    {
        out.push(names[i]);
        i = i + 1;
        proof {
            assert(out@ =~= names@.subrange(adr as int, i as int));
        }
    }
    proof {
        assert(i == stop);
        assert(out@ =~= name_bytes_from(names@, adr as int));
    }
    out
}

fn check_name_buffer(names: &Vec<u8>) -> (r: bool)
    ensures
        r == names_ok(names@),
{
    if names.len() == 0 {
        return false;
    }
    if names[names.len() - 1] != 0 {
        return false;
    }
    let mut pos: usize = 0;
    while pos < names.len()
        invariant
            0 <= pos <= names@.len(),
            names@.len() >= 1,
            names@[names@.len() - 1] == 0,
            pos == 0 || names@[pos - 1] == 0,
            forall|a: int|
                0 <= a < pos && (a == 0 || names@[a - 1] == 0) ==> valid_utf8(
                    #[trigger] name_bytes_from(names@, a),
                ),
        decreases names@.len() - pos,
    {
        let seg = read_name_bytes(names, pos);
        let seg_len = seg.len();
        if !crate::helpers::utf8_check(seg) {
            return false;
        }
        proof {
            crate::helpers::lemma_first_nul_bounds(names@, pos as int);
            assert(first_nul_from(names@, pos as int) < names@.len()) by {
                if first_nul_from(names@, pos as int) == names@.len() {
                    assert(names@[names@.len() - 1] != 0);
                }
            }
            assert(seg_len == first_nul_from(names@, pos as int) - pos);
        }
        let next = pos + seg_len + 1;
        proof {
            let stop = first_nul_from(names@, pos as int);
            assert(next == stop + 1);
            assert(names@[stop] == 0);
            assert forall|a: int|
                0 <= a < next && (a == 0 || names@[a - 1] == 0) implies valid_utf8(
                #[trigger] name_bytes_from(names@, a),
            ) by {
                if a < pos {
                } else if a == pos {
                } else {
                    // pos < a < next means names@[a - 1] != 0, contradiction
                    assert(pos < a < next);
                    assert(a - 1 < stop);
                    assert(names@[a - 1] != 0);
                }
            }
        }
        pos = next;
    }
    true
}

fn check_adr_table(names: &Vec<u8>, adr: &Vec<i32>) -> (r: bool)
    ensures
        r == adr_entries_ok(names@, adr@),
{
    let mut i: usize = 0;
    while i < adr.len()
        invariant
            0 <= i <= adr@.len(),
            forall|k: int|
                0 <= k < i ==> 0 <= #[trigger] adr@[k] < names@.len() && valid_utf8(
                    name_bytes_from(names@, adr@[k] as int),
                ),
        decreases adr@.len() - i,
    {
        let a = adr[i];
        if a < 0 {
            return false;
        }
        let au = a as usize;
        if au >= names.len() {
            return false;
        }
        let seg = read_name_bytes(names, au);
        if !crate::helpers::utf8_check(seg) {
            return false;
        }
        i = i + 1;
    }
    true
}

fn check_adr_unique(names: &Vec<u8>, adr: &Vec<i32>) -> (r: bool)
    requires
        adr_entries_ok(names@, adr@),
    ensures
        r == adr_names_unique(names@, adr@),
{
    let mut i: usize = 0;
    while i < adr.len()
        invariant
            0 <= i <= adr@.len(),
            adr_entries_ok(names@, adr@),
            forall|a: int, b: int|
                0 <= a < b < adr@.len() && a < i && name_bytes_from(names@, #[trigger] adr@[a] as int)
                    == name_bytes_from(names@, #[trigger] adr@[b] as int) ==> name_bytes_from(
                    names@,
                    adr@[a] as int,
                ).len() == 0,
        decreases adr@.len() - i,
    {
        let seg_i = read_name_bytes(names, adr[i] as usize);
        if seg_i.len() > 0 {
            let mut j: usize = i + 1;
            while j < adr.len()
                invariant
                    0 <= i < j <= adr@.len(),
                    adr_entries_ok(names@, adr@),
                    seg_i@ == name_bytes_from(names@, adr@[i as int] as int),
                    seg_i@.len() > 0,
                    forall|b: int|
                        i < b < j ==> name_bytes_from(names@, #[trigger] adr@[b] as int)
                            != seg_i@,
                decreases adr@.len() - j,
            {
                let seg_j = read_name_bytes(names, adr[j] as usize);
                if crate::helpers::bytes_eq(&seg_i, &seg_j) {
                    return false;
                }
                j = j + 1;
            }
        }
        i = i + 1;
    }
    true
}

fn check_geom_rows<T>(p: &ModelParts<T>) -> (r: bool)
    requires
        counts_ok(*p),
    ensures
        r == geom_rows_ok(*p),
{
    let mut i: usize = 0;
    while i < p.ngeom
        invariant
            0 <= i <= p.ngeom,
            counts_ok(*p),
            forall|k: int| 0 <= k < i ==> #[trigger] geom_row_ok(*p, k),
        decreases p.ngeom - i,
    {
        let code = p.geom_type[i];
        if code < 0 {
            proof {
                assert(!is_geom_code(p.geom_type@[i as int] as int)) by {
                    assert forall|t: crate::geom::GeomType|
                        crate::geom::geom_code(t) != p.geom_type@[i as int] as int by {
                        crate::geom::lemma_geom_code_nonneg(t);
                    }
                }
                assert(!geom_row_ok(*p, i as int));
            }
            return false;
        }
        match geom_type_try_from(code as usize) {
            None => {
                proof {
                    assert(p.geom_type@[i as int] as int == code as usize as int);
                    assert(!geom_row_ok(*p, i as int));
                }
                return false;
            },
            Some(t) => {
                proof {
                    assert(crate::geom::geom_code(t) == p.geom_type@[i as int] as int);
                    assert(is_geom_code(p.geom_type@[i as int] as int));
                }
            },
        }
        let b = p.geom_bodyid[i];
        if b < 0 || b as usize >= p.nbody {
            proof {
                assert(!geom_row_ok(*p, i as int));
            }
            return false;
        }
        let d = p.geom_dataid[i];
        if d != -1 && (d < 0 || d as usize >= p.nmesh) {
            proof {
                assert(!geom_row_ok(*p, i as int));
            }
            return false;
        }
        proof {
            assert(geom_row_ok(*p, i as int));
        }
        i = i + 1;
    }
    true
}

fn check_body_rows<T>(p: &ModelParts<T>) -> (r: bool)
    requires
        counts_ok(*p),
    ensures
        r == body_rows_ok(*p),
{
    let mut i: usize = 0;
    while i < p.nbody
        invariant
            0 <= i <= p.nbody,
            counts_ok(*p),
            forall|k: int| 0 <= k < i ==> #[trigger] body_row_ok(*p, k),
        decreases p.nbody - i,
    {
        let pa = p.body_parentid[i];
        if pa < 0 || pa as usize >= p.nbody {
            proof {
                assert(!body_row_ok(*p, i as int));
            }
            return false;
        }
        let n = p.body_geomnum[i];
        if n < 0 {
            proof {
                assert(!body_row_ok(*p, i as int));
            }
            return false;
        }
        if n > 0 {
            let a = p.body_geomadr[i];
            if a < 0 {
                proof {
                    assert(!body_row_ok(*p, i as int));
                }
                return false;
            }
            if (a as usize) > p.ngeom || p.ngeom - (a as usize) < (n as usize) {
                proof {
                    assert(!body_row_ok(*p, i as int));
                }
                return false;
            }
        }
        proof {
            assert(body_row_ok(*p, i as int));
        }
        i = i + 1;
    }
    true
}

fn check_mesh_rows<T>(p: &ModelParts<T>) -> (r: bool)
    requires
        counts_ok(*p),
    ensures
        r == mesh_rows_ok(*p),
{
    let mut i: usize = 0;
    while i < p.nmesh
        invariant
            0 <= i <= p.nmesh,
            counts_ok(*p),
            forall|k: int| 0 <= k < i ==> #[trigger] mesh_row_ok(*p, k),
        decreases p.nmesh - i,
    {
        let va = p.mesh_vertadr[i];
        let vn = p.mesh_vertnum[i];
        let fa = p.mesh_faceadr[i];
        let fn_ = p.mesh_facenum[i];
        if va < 0 || vn < 0 || fa < 0 || fn_ < 0 {
            proof {
                assert(!mesh_row_ok(*p, i as int));
            }
            return false;
        }
        if (va as usize) > p.nmeshvert || p.nmeshvert - (va as usize) < (vn as usize) {
            proof {
                assert(!mesh_row_ok(*p, i as int));
            }
            return false;
        }
        if (fa as usize) > p.nmeshface || p.nmeshface - (fa as usize) < (fn_ as usize) {
            proof {
                assert(!mesh_row_ok(*p, i as int));
            }
            return false;
        }
        proof {
            assert(mesh_row_ok(*p, i as int));
        }
        i = i + 1;
    }
    let mut j: usize = 0;
    while j < p.mesh_face.len()
        invariant
            0 <= j <= p.mesh_face@.len(),
            counts_ok(*p),
            forall|k: int| 0 <= k < p.nmesh ==> #[trigger] mesh_row_ok(*p, k),
            forall|k: int| 0 <= k < j ==> #[trigger] p.mesh_face@[k] >= 0,
        decreases p.mesh_face@.len() - j,
    {
        if p.mesh_face[j] < 0 {
            return false;
        }
        j = j + 1;
    }
    true
}

} // verus!
