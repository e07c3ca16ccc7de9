//! The time-dependent numeric state of one simulation run.
//!
//! The engine keeps per-step state in flat arrays sized by the model it
//! was allocated for. This module holds one snapshot of those arrays as
//! plain values; the shape coupling between a state and its model is
//! stated here and enforced by [`crate::sim::Simulation`], which owns
//! the two together.

use vstd::prelude::*;

use crate::helpers::copy_vec;
use crate::helpers::filled;
use crate::model::Model;
use crate::model::ModelParts;

verus! {

/// One snapshot of a simulation's mutable numeric state. `T` is the
/// scalar type native floats are widened into.
pub struct State<T> {
    /// Simulation time.
    pub time: T,
    /// Generalized positions, one per generalized coordinate.
    pub qpos: Vec<T>,
    /// Generalized velocities, one per degree of freedom.
    pub qvel: Vec<T>,
    /// Control vector, one entry per actuator.
    pub ctrl: Vec<T>,
    /// Entity positions in the inertial frame, stride 3.
    pub xpos: Vec<T>,
    /// Entity orientations, stride 4.
    pub xquat: Vec<T>,
    /// External contact forces, stride 6, one sextet per body.
    pub cfrc_ext: Vec<T>,
    /// Sensor readings, one per sensor channel.
    pub sensordata: Vec<T>,
}

/// The shape coupling between a state and the model it belongs to:
/// every buffer's length is the model's count times the buffer's stride.
pub open spec fn state_shape_ok<T>(p: ModelParts<T>, s: State<T>) -> bool {
    &&& s.qpos@.len() == p.nq
    &&& s.qvel@.len() == p.nv
    &&& s.ctrl@.len() == p.nu
    &&& s.xpos@.len() == 3 * p.ngeom
    &&& s.xquat@.len() == 4 * p.ngeom
    &&& s.cfrc_ext@.len() == 6 * p.nbody
    &&& s.sensordata@.len() == p.nsensordata
}

/// The two snapshots hold the same numbers.
pub open spec fn state_eq<T>(a: State<T>, b: State<T>) -> bool {
    &&& a.time == b.time
    &&& a.qpos@ == b.qpos@
    &&& a.qvel@ == b.qvel@
    &&& a.ctrl@ == b.ctrl@
    &&& a.xpos@ == b.xpos@
    &&& a.xquat@ == b.xquat@
    &&& a.cfrc_ext@ == b.cfrc_ext@
    &&& a.sensordata@ == b.sensordata@
}

impl<T: Copy> State<T> {
    /// Creates a state shaped for `model`, every entry set to `fill`.
    pub fn new(model: &Model<T>, fill: T) -> (r: State<T>)
        requires
            model.wf(),
        ensures
            state_shape_ok(model.parts(), r),
            r.time == fill,
            forall|i: int| 0 <= i < r.qpos@.len() ==> #[trigger] r.qpos@[i] == fill,
            forall|i: int| 0 <= i < r.qvel@.len() ==> #[trigger] r.qvel@[i] == fill,
            forall|i: int| 0 <= i < r.ctrl@.len() ==> #[trigger] r.ctrl@[i] == fill,
            forall|i: int| 0 <= i < r.xpos@.len() ==> #[trigger] r.xpos@[i] == fill,
            forall|i: int| 0 <= i < r.xquat@.len() ==> #[trigger] r.xquat@[i] == fill,
            forall|i: int| 0 <= i < r.cfrc_ext@.len() ==> #[trigger] r.cfrc_ext@[i] == fill,
            forall|i: int| 0 <= i < r.sensordata@.len() ==> #[trigger] r.sensordata@[i] == fill,
    {
        let ngeom = model.ngeom();
        let nbody = model.nbody();
        proof {
            assert(ngeom <= crate::model::MAX_ENTITY_COUNT);
            assert(nbody <= crate::model::MAX_ENTITY_COUNT);
        }
        State {
            time: fill,
            qpos: filled(model.nq(), fill),
            qvel: filled(model.nv(), fill),
            ctrl: filled(model.nu(), fill),
            xpos: filled(3 * ngeom, fill),
            xquat: filled(4 * ngeom, fill),
            cfrc_ext: filled(6 * nbody, fill),
            sensordata: filled(model.nsensordata(), fill),
        }
    }

    /// Simulation time.
    pub fn time(&self) -> (r: T)
        ensures
            r == self.time,
    {
        self.time
    }
}

impl<T: Copy> Clone for State<T> {
    /// An independent deep copy holding the same numbers.
    fn clone(&self) -> (r: Self)
        ensures
            state_eq(r, *self),
    {
        State {
            time: self.time,
            qpos: copy_vec(&self.qpos),
            qvel: copy_vec(&self.qvel),
            ctrl: copy_vec(&self.ctrl),
            xpos: copy_vec(&self.xpos),
            xquat: copy_vec(&self.xquat),
            cfrc_ext: copy_vec(&self.cfrc_ext),
            sensordata: copy_vec(&self.sensordata),
        }
    }
}

} // verus!
