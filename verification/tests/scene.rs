//! Model queries on a small scene: one light, one static plane geom,
//! and one free body carrying one box geom.

use mujoco::model::ModelError;
use mujoco::model::ModelParts;
use mujoco::model::ObjType;
use mujoco::GeomType;
use mujoco::Model;
use mujoco::State;

fn simple_scene_parts() -> ModelParts<f64> {
    // Packed name buffer:
    //   world\0 body1\0 joint0\0 geom0\0 geom1\0 light0\0
    // at offsets 0, 6, 12, 19, 25, 31.
    let names = b"world\0body1\0joint0\0geom0\0geom1\0light0\0".to_vec();
    ModelParts {
        nq: 7,
        nv: 6,
        nu: 0,
        na: 0,
        nbody: 2,
        njnt: 1,
        ngeom: 2,
        nlight: 1,
        ncam: 0,
        nmesh: 0,
        nmeshvert: 0,
        nmeshface: 0,
        nsensordata: 0,
        names,
        name_bodyadr: vec![0, 6],
        name_jntadr: vec![12],
        name_geomadr: vec![19, 25],
        name_lightadr: vec![31],
        name_camadr: vec![],
        name_meshadr: vec![],
        geom_type: vec![0, 6],
        geom_bodyid: vec![0, 1],
        geom_dataid: vec![-1, -1],
        geom_group: vec![0, 0],
        geom_contype: vec![1, 1],
        geom_pos: vec![0.0; 6],
        geom_quat: vec![1.0, 0.0, 0.0, 0.0, 1.0, 0.0, 0.0, 0.0],
        geom_size: vec![1.0, 1.0, 0.1, 0.1, 0.2, 0.3],
        geom_rgba: vec![0.9, 0.0, 0.0, 1.0, 0.0, 0.9, 0.0, 1.0],
        body_parentid: vec![0, 0],
        body_geomnum: vec![1, 1],
        body_geomadr: vec![0, 1],
        body_pos: vec![0.0, 0.0, 0.0, 0.0, 0.0, 1.0],
        body_quat: vec![1.0, 0.0, 0.0, 0.0, 1.0, 0.0, 0.0, 0.0],
        mesh_vertadr: vec![],
        mesh_vertnum: vec![],
        mesh_faceadr: vec![],
        mesh_facenum: vec![],
        mesh_vert: vec![],
        mesh_normal: vec![],
        mesh_face: vec![],
    }
}

fn simple_scene() -> Model<f64> {
    Model::from_parts(simple_scene_parts()).unwrap()
}

fn check_expected_ids(m: &Model<f64>) {
    assert_eq!(m.name_to_id(ObjType::BODY, "world").unwrap(), 0);
    assert_eq!(m.name_to_id(ObjType::LIGHT, "light0").unwrap(), 0);
    assert_eq!(m.name_to_id(ObjType::GEOM, "geom0").unwrap(), 0);
    assert_eq!(m.name_to_id(ObjType::BODY, "body1").unwrap(), 1);
    assert_eq!(m.name_to_id(ObjType::JOINT, "joint0").unwrap(), 0);
    assert_eq!(m.name_to_id(ObjType::GEOM, "geom1").unwrap(), 1);
    assert_eq!(m.geoms()[1].size[0], 0.1);
}

#[test]
fn test_activate() {
    mujoco::vfs::Vfs::new();
    simple_scene();
}

#[test]
fn model_name_to_id() {
    let m = simple_scene();

    // Check expected values
    check_expected_ids(&m);

    // Check that non-existent names give `None`
    assert_eq!(m.name_to_id(ObjType::BODY, "asdf"), None);
    assert_eq!(m.name_to_id(ObjType::BODY, "body0"), None);
    assert_eq!(m.name_to_id(ObjType::GEOM, "geom2"), None);
    assert_eq!(m.name_to_id(ObjType::CAMERA, "cam"), None);
}

#[test]
fn mod_name_to_id() {
    let m = simple_scene();
    check_expected_ids(&m);
    assert_eq!(m.name_to_id(ObjType::BODY, "asdf"), None);
    assert_eq!(m.name_to_id(ObjType::BODY, "body0"), None);
    assert_eq!(m.name_to_id(ObjType::GEOM, "geom2"), None);
    assert_eq!(m.name_to_id(ObjType::CAMERA, "cam"), None);
}

#[test]
fn model_id_to_name() {
    let m = simple_scene();

    // Check expected values
    assert_eq!(m.id_to_name(ObjType::BODY, 0).unwrap(), "world");
    assert_eq!(m.id_to_name(ObjType::LIGHT, 0).unwrap(), "light0");
    assert_eq!(m.id_to_name(ObjType::GEOM, 0).unwrap(), "geom0");
    assert_eq!(m.id_to_name(ObjType::BODY, 1).unwrap(), "body1");
    assert_eq!(m.id_to_name(ObjType::JOINT, 0).unwrap(), "joint0");
    assert_eq!(m.id_to_name(ObjType::GEOM, 1).unwrap(), "geom1");

    // Check that non-existent ids give `None`
    assert_eq!(m.id_to_name(ObjType::BODY, 2), None);
    assert_eq!(m.id_to_name(ObjType::LIGHT, 1), None);
    assert_eq!(m.id_to_name(ObjType::GEOM, 2), None);
    assert_eq!(m.id_to_name(ObjType::CAMERA, 0), None);
}

#[test]
fn mod_id_to_name() {
    let m = simple_scene();
    assert_eq!(m.id_to_name(ObjType::BODY, 0).unwrap(), "world");
    assert_eq!(m.id_to_name(ObjType::LIGHT, 0).unwrap(), "light0");
    assert_eq!(m.id_to_name(ObjType::GEOM, 0).unwrap(), "geom0");
    assert_eq!(m.id_to_name(ObjType::BODY, 1).unwrap(), "body1");
    assert_eq!(m.id_to_name(ObjType::JOINT, 0).unwrap(), "joint0");
    assert_eq!(m.id_to_name(ObjType::GEOM, 1).unwrap(), "geom1");
    assert_eq!(m.id_to_name(ObjType::BODY, 2), None);
    assert_eq!(m.id_to_name(ObjType::LIGHT, 1), None);
    assert_eq!(m.id_to_name(ObjType::GEOM, 2), None);
    assert_eq!(m.id_to_name(ObjType::CAMERA, 0), None);
}

#[test]
fn geoms() {
    let model = simple_scene();
    let geoms = model.bodies();

    assert!(!geoms.is_empty());
}

#[test]
fn bodies() {
    let model = simple_scene();
    let bodies = model.bodies();

    assert!(bodies.len() == 2);
}

#[test]
fn meshes() {
    let model = simple_scene();
    let meshes = model.meshes();

    assert!(meshes.len() == model.nmesh());
}

#[test]
fn names() {
    let model = simple_scene();
    let names = model.names();

    assert!(!names.is_empty());
}

#[test]
fn state_new() {
    let model = simple_scene();
    let state = State::new(&model, 0.0);
    assert_eq!(state.qpos.len(), model.nq());
}

#[test]
fn entity_counts_match() {
    let model = simple_scene();
    assert_eq!(model.bodies().len(), model.nbody());
    assert_eq!(model.geoms().len(), model.ngeom());
    assert_eq!(model.meshes().len(), model.nmesh());
}

#[test]
fn simple_scene_expectations() {
    let model = simple_scene();
    assert_eq!(model.bodies().len(), 2);
    assert_eq!(model.geoms().len(), 2);
    assert_eq!(model.name_to_id(ObjType::GEOM, "geom1"), Some(1));
    assert_eq!(model.id_to_name(ObjType::BODY, 1).unwrap(), "body1");
    assert_eq!(model.name_to_id(ObjType::BODY, "nonexistent"), None);
}

#[test]
fn id_lookup_round_trips() {
    let model = simple_scene();
    let kinds = [
        ObjType::BODY,
        ObjType::JOINT,
        ObjType::GEOM,
        ObjType::LIGHT,
        ObjType::CAMERA,
        ObjType::MESH,
    ];
    let counts = [2u16, 1, 2, 1, 0, 0];
    for (kind, count) in kinds.iter().zip(counts.iter()) {
        for id in 0..*count {
            if let Some(name) = model.id_to_name(*kind, id) {
                assert_eq!(model.name_to_id(*kind, &name), Some(id));
            }
        }
    }
}

#[test]
fn geom_snapshot_values() {
    let model = simple_scene();
    let geoms = model.geoms();
    assert_eq!(geoms[0].id, 0);
    assert_eq!(geoms[0].name, "geom0");
    assert_eq!(geoms[0].geom_type, GeomType::PLANE);
    assert_eq!(geoms[0].body_id, 0);
    assert_eq!(geoms[0].size, [1.0, 1.0, 0.1]);
    assert_eq!(geoms[0].color, [0.9, 0.0, 0.0, 1.0]);
    assert!(geoms[0].mesh.is_none());
    assert_eq!(geoms[1].id, 1);
    assert_eq!(geoms[1].name, "geom1");
    assert_eq!(geoms[1].geom_type, GeomType::BOX);
    assert_eq!(geoms[1].body_id, 1);
    assert_eq!(geoms[1].size, [0.1, 0.2, 0.3]);
}

#[test]
fn body_snapshot_values() {
    let model = simple_scene();
    let bodies = model.bodies();
    assert_eq!(bodies[0].name, "world");
    assert_eq!(bodies[0].parent_id, 0);
    assert_eq!(bodies[1].name, "body1");
    assert_eq!(bodies[1].pos, [0.0, 0.0, 1.0]);
    assert_eq!(bodies[1].geom_n, 1);
    assert_eq!(bodies[1].geom_addr, 1);
}

#[test]
fn names_list_in_storage_order() {
    let model = simple_scene();
    assert_eq!(model.names(), vec!["world", "body1", "joint0", "geom0", "geom1", "light0"]);
}

#[test]
fn model_clone_reads_alike_after_drop() {
    let m = simple_scene();
    let m2 = m.clone();
    drop(m);
    check_expected_ids(&m2);
    assert_eq!(m2.bodies().len(), 2);
    assert_eq!(m2.names().len(), 6);
}

#[test]
fn multibyte_names_decode() {
    let mut parts = simple_scene_parts();
    // Rename body1 to "caf\u{e9}" (two UTF-8 bytes for the last char).
    let names = b"world\0caf\xc3\xa9\0joint0\0geom0\0geom1\0light0\0".to_vec();
    parts.names = names;
    let m = Model::from_parts(parts).unwrap();
    assert_eq!(m.id_to_name(ObjType::BODY, 1).unwrap(), "caf\u{e9}");
    assert_eq!(m.name_to_id(ObjType::BODY, "caf\u{e9}"), Some(1));
}

#[test]
fn from_parts_rejects_bad_counts() {
    let mut parts = simple_scene_parts();
    parts.geom_pos = vec![0.0; 5];
    assert_eq!(Model::from_parts(parts).err().unwrap(), ModelError::BadCounts);
}

#[test]
fn from_parts_rejects_unterminated_names() {
    let mut parts = simple_scene_parts();
    parts.names = b"world".to_vec();
    assert_eq!(Model::from_parts(parts).err().unwrap(), ModelError::BadNameTable);
}

#[test]
fn from_parts_rejects_out_of_range_name_offset() {
    let mut parts = simple_scene_parts();
    parts.name_lightadr = vec![500];
    assert_eq!(Model::from_parts(parts).err().unwrap(), ModelError::BadNameAddress);
}

#[test]
fn from_parts_rejects_duplicate_names() {
    let mut parts = simple_scene_parts();
    parts.name_geomadr = vec![19, 19];
    assert_eq!(Model::from_parts(parts).err().unwrap(), ModelError::DuplicateName);
}

#[test]
fn from_parts_rejects_unknown_geom_code() {
    let mut parts = simple_scene_parts();
    parts.geom_type = vec![0, 99];
    assert_eq!(Model::from_parts(parts).err().unwrap(), ModelError::BadGeomTable);
}

#[test]
fn from_parts_rejects_out_of_range_parent() {
    let mut parts = simple_scene_parts();
    parts.body_parentid = vec![0, 5];
    assert_eq!(Model::from_parts(parts).err().unwrap(), ModelError::BadBodyTable);
}

#[test]
fn from_parts_rejects_mesh_range_overflow() {
    let mut parts = simple_scene_parts();
    parts.nmesh = 1;
    parts.name_meshadr = vec![19];
    parts.mesh_vertadr = vec![4];
    parts.mesh_vertnum = vec![1];
    parts.mesh_faceadr = vec![0];
    parts.mesh_facenum = vec![0];
    assert_eq!(Model::from_parts(parts).err().unwrap(), ModelError::BadMeshTable);
}

#[test]
fn mesh_snapshot_values() {
    let mut parts = simple_scene_parts();
    parts.nmesh = 1;
    parts.nmeshvert = 3;
    parts.nmeshface = 1;
    // Reuse the name "geom1" slot offset area is taken; give the mesh
    // an unnamed entry by pointing at the terminator of "light0".
    parts.name_meshadr = vec![37];
    parts.mesh_vertadr = vec![0];
    parts.mesh_vertnum = vec![3];
    parts.mesh_faceadr = vec![0];
    parts.mesh_facenum = vec![1];
    parts.mesh_vert = vec![0.0, 0.0, 0.0, 1.0, 0.0, 0.0, 0.0, 1.0, 0.0];
    parts.mesh_normal = vec![0.0, 0.0, 1.0, 0.0, 0.0, 1.0, 0.0, 0.0, 1.0];
    parts.mesh_face = vec![0, 1, 2];
    // Attach the mesh to geom1.
    parts.geom_type = vec![0, 7];
    parts.geom_dataid = vec![-1, 0];
    let m = Model::from_parts(parts).unwrap();
    let meshes = m.meshes();
    assert_eq!(meshes.len(), 1);
    assert_eq!(meshes[0].name, "");
    assert_eq!(meshes[0].vertices, vec![[0.0, 0.0, 0.0], [1.0, 0.0, 0.0], [0.0, 1.0, 0.0]]);
    assert_eq!(meshes[0].indices, vec![0u32, 1, 2]);
    let geoms = m.geoms();
    assert_eq!(geoms[1].geom_type, GeomType::MESH);
    let attached = geoms[1].mesh.as_ref().unwrap();
    assert_eq!(attached.vertices, meshes[0].vertices);
}

#[test]
fn render_geom_prefers_single_match() {
    let model = simple_scene();
    let geoms = model.geoms();
    let bodies = model.bodies();
    let picked = bodies[1].render_geom(&geoms).unwrap();
    assert_eq!(picked.id, 1);
}

#[test]
fn render_geom_prefers_primitive_and_low_group() {
    let mut parts = simple_scene_parts();
    // Three geoms on body1: a mesh-typed one, and two boxes in groups
    // 2 and 1. The box in group 1 must win.
    let names = b"world\0body1\0joint0\0geom0\0geom1\0geom2\0geom3\0light0\0".to_vec();
    parts.names = names;
    parts.name_lightadr = vec![43];
    parts.name_geomadr = vec![19, 25, 31, 37];
    parts.ngeom = 4;
    parts.nmesh = 1;
    parts.nmeshvert = 3;
    parts.nmeshface = 1;
    parts.name_meshadr = vec![49];
    parts.mesh_vertadr = vec![0];
    parts.mesh_vertnum = vec![3];
    parts.mesh_faceadr = vec![0];
    parts.mesh_facenum = vec![1];
    parts.mesh_vert = vec![0.0; 9];
    parts.mesh_normal = vec![0.0; 9];
    parts.mesh_face = vec![0, 1, 2];
    parts.geom_type = vec![0, 7, 6, 6];
    parts.geom_bodyid = vec![0, 1, 1, 1];
    parts.geom_dataid = vec![-1, 0, -1, -1];
    parts.geom_group = vec![0, 0, 2, 1];
    parts.geom_contype = vec![1, 1, 1, 1];
    parts.geom_pos = vec![0.0; 12];
    parts.geom_quat = vec![1.0, 0.0, 0.0, 0.0, 1.0, 0.0, 0.0, 0.0, 1.0, 0.0, 0.0, 0.0, 1.0, 0.0,
        0.0, 0.0];
    parts.geom_size = vec![0.1; 12];
    parts.geom_rgba = vec![1.0; 16];
    parts.body_geomnum = vec![1, 3];
    parts.body_geomadr = vec![0, 1];
    let m = Model::from_parts(parts).unwrap();
    let geoms = m.geoms();
    let bodies = m.bodies();
    let picked = bodies[1].render_geom(&geoms).unwrap();
    assert_eq!(picked.id, 3);
    assert_eq!(picked.geom_group, 1);
}

#[test]
fn body_geoms_copies_own_range() {
    let model = simple_scene();
    let geoms = model.geoms();
    let bodies = model.bodies();
    let own = bodies[1].geoms(&geoms);
    assert_eq!(own.len(), 1);
    assert_eq!(own[0].id, 1);
}
