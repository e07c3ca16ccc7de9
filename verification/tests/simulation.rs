//! The stepping surface: control injection, state loading, and the
//! per-step vector extraction.

use mujoco::model::ModelParts;
use mujoco::Model;
use mujoco::Simulation;
use mujoco::State;

fn actuated_scene() -> Model<f64> {
    // One light, a static plane geom on the world body, and one free
    // body with a box geom; two actuators and two sensor channels.
    let names = b"world\0body1\0joint0\0geom0\0geom1\0light0\0".to_vec();
    let parts = ModelParts {
        nq: 7,
        nv: 6,
        nu: 2,
        na: 0,
        nbody: 2,
        njnt: 1,
        ngeom: 2,
        nlight: 1,
        ncam: 0,
        nmesh: 0,
        nmeshvert: 0,
        nmeshface: 0,
        nsensordata: 2,
        names,
        name_bodyadr: vec![0, 6],
        name_jntadr: vec![12],
        name_geomadr: vec![19, 25],
        name_lightadr: vec![31],
        name_camadr: vec![],
        name_meshadr: vec![],
        geom_type: vec![0, 6],
        geom_bodyid: vec![0, 1],
        geom_dataid: vec![-1, -1],
        geom_group: vec![0, 0],
        geom_contype: vec![1, 1],
        geom_pos: vec![0.0; 6],
        geom_quat: vec![1.0, 0.0, 0.0, 0.0, 1.0, 0.0, 0.0, 0.0],
        geom_size: vec![1.0, 1.0, 0.1, 0.1, 0.2, 0.3],
        geom_rgba: vec![0.9, 0.0, 0.0, 1.0, 0.0, 0.9, 0.0, 1.0],
        body_parentid: vec![0, 0],
        body_geomnum: vec![1, 1],
        body_geomadr: vec![0, 1],
        body_pos: vec![0.0, 0.0, 0.0, 0.0, 0.0, 1.0],
        body_quat: vec![1.0, 0.0, 0.0, 0.0, 1.0, 0.0, 0.0, 0.0],
        mesh_vertadr: vec![],
        mesh_vertnum: vec![],
        mesh_faceadr: vec![],
        mesh_facenum: vec![],
        mesh_vert: vec![],
        mesh_normal: vec![],
        mesh_face: vec![],
    };
    Model::from_parts(parts).unwrap()
}

fn fresh_simulation() -> Simulation<f64> {
    let model = actuated_scene();
    let state = State::new(&model, 0.0);
    Simulation::new(model, state).unwrap()
}

#[test]
fn new_couples_matching_shapes() {
    let sim = fresh_simulation();
    assert_eq!(sim.model().nu(), 2);
    assert_eq!(sim.state().ctrl.len(), 2);
}

#[test]
fn new_rejects_mismatched_state() {
    let model = actuated_scene();
    let mut state = State::new(&model, 0.0);
    state.qpos.push(0.0);
    assert!(Simulation::new(model, state).is_err());
}

#[test]
fn set_control_writes_matching_vector() {
    let mut sim = fresh_simulation();
    sim.control(&vec![0.25, -0.5]);
    assert_eq!(sim.state().ctrl, vec![0.25, -0.5]);
}

#[test]
fn set_control_wrong_length_is_a_no_op() {
    let mut sim = fresh_simulation();
    sim.control(&vec![0.25, -0.5]);
    let before = sim.state().ctrl.clone();
    let before_bytes: Vec<u8> = before.iter().flat_map(|v| v.to_le_bytes()).collect();

    sim.control(&vec![1.0]);
    sim.control(&vec![1.0, 2.0, 3.0]);
    sim.control(&vec![]);

    let after = sim.state().ctrl.clone();
    let after_bytes: Vec<u8> = after.iter().flat_map(|v| v.to_le_bytes()).collect();
    assert_eq!(after_bytes, before_bytes);
    assert_eq!(after, vec![0.25, -0.5]);
}

#[test]
fn repeated_steps_keep_vector_shapes() {
    let mut sim = fresh_simulation();
    let ngeom = sim.model().ngeom();
    let nq = sim.model().nq();
    for step in 0..10 {
        // Stand in for one native integration step: the engine hands
        // back buffers of the same shape with new numbers.
        let mut next = sim.state().clone();
        next.time = step as f64 * 0.002;
        next.qpos[0] = step as f64;
        sim.load_state(next).unwrap();

        assert_eq!(sim.xpos().len(), ngeom);
        assert_eq!(sim.qpos().len(), nq);
        assert_eq!(sim.xquat().len(), ngeom);
    }
}

#[test]
fn load_state_rejects_wrong_shape() {
    let mut sim = fresh_simulation();
    sim.control(&vec![0.25, -0.5]);
    let mut bad = sim.state().clone();
    bad.sensordata.push(0.0);
    assert!(sim.load_state(bad).is_err());
    assert_eq!(sim.state().ctrl, vec![0.25, -0.5]);
}

#[test]
fn extraction_reads_loaded_buffers() {
    let mut sim = fresh_simulation();
    let mut next = sim.state().clone();
    next.xpos = vec![1.0, 2.0, 3.0, 4.0, 5.0, 6.0];
    next.xquat = vec![1.0, 0.0, 0.0, 0.0, 0.0, 1.0, 0.0, 0.0];
    next.cfrc_ext = vec![
        0.0, 0.0, 0.0, 0.0, 0.0, 0.0, 1.0, 2.0, 3.0, 4.0, 5.0, 6.0,
    ];
    next.qvel = vec![0.1, 0.2, 0.3, 0.4, 0.5, 0.6];
    next.sensordata = vec![7.5, -7.5];
    sim.load_state(next).unwrap();

    assert_eq!(sim.xpos(), vec![[1.0, 2.0, 3.0], [4.0, 5.0, 6.0]]);
    assert_eq!(sim.xquat(), vec![[1.0, 0.0, 0.0, 0.0], [0.0, 1.0, 0.0, 0.0]]);
    assert_eq!(sim.cfrc_ext()[1], [1.0, 2.0, 3.0, 4.0, 5.0, 6.0]);
    assert_eq!(sim.qvel(), vec![0.1, 0.2, 0.3, 0.4, 0.5, 0.6]);
    assert_eq!(sim.sensordata(), vec![7.5, -7.5]);
}

#[test]
fn state_clone_is_independent() {
    let model = actuated_scene();
    let mut state = State::new(&model, 0.0);
    let copy = state.clone();
    state.qpos[0] = 9.5;
    state.time = 3.0;
    assert_eq!(copy.qpos[0], 0.0);
    assert_eq!(copy.time(), 0.0);
    assert_eq!(state.qpos[0], 9.5);
}

#[test]
fn state_time_reports_field() {
    let model = actuated_scene();
    let mut state = State::new(&model, 0.0);
    state.time = 1.25;
    assert_eq!(state.time(), 1.25);
}
