//! The simulation surface: one model and one state, held together.
//!
//! A state's buffers are only meaningful against the model they were
//! sized for, so this type owns the pair and admits only states of the
//! right shape. Control injection and every read-back of a flat state
//! array go through here, with the shape proved rather than assumed.
//! The native integration step itself happens outside; its result
//! re-enters through [`Simulation::load_state`], which re-checks the
//! shape before accepting it.

use vstd::prelude::*;

use crate::helpers::copy_vec;
use crate::helpers::extract_mesh_attribute;
use crate::helpers::extract_vector;
use crate::helpers::extract_quads;
use crate::helpers::extract_sextets;
use crate::model::Model;
use crate::state::state_eq;
use crate::state::state_shape_ok;
use crate::state::State;

verus! {

/// A state was offered to a model it was not shaped for.
#[derive(Clone, Copy, Debug, PartialEq, Eq, Structural)]
pub struct ShapeMismatch;

/// One simulation: a compiled model and a numeric state of its shape.
pub struct Simulation<T> {
    model: Model<T>,
    state: State<T>,
}

impl<T: Copy> Simulation<T> {
    /// The model this simulation runs.
    pub closed spec fn spec_model(self) -> Model<T> {
        self.model
    }

    /// The current state snapshot.
    pub closed spec fn spec_state(self) -> State<T> {
        self.state
    }

    /// The pair's invariant: the model is well formed and the state is
    /// shaped for it.
    pub open spec fn wf(self) -> bool {
        &&& self.spec_model().wf()
        &&& state_shape_ok(self.spec_model().parts(), self.spec_state())
    }

    fn shape_matches(model: &Model<T>, state: &State<T>) -> (r: bool)
        requires
            model.wf(),
        ensures
            r == state_shape_ok(model.parts(), *state),
    {
        let ngeom = model.ngeom();
        let nbody = model.nbody();
        proof {
            assert(ngeom <= crate::model::MAX_ENTITY_COUNT);
            assert(nbody <= crate::model::MAX_ENTITY_COUNT);
        }
        state.qpos.len() == model.nq() && state.qvel.len() == model.nv() && state.ctrl.len()
            == model.nu() && state.xpos.len() == 3 * ngeom && state.xquat.len() == 4 * ngeom
            && state.cfrc_ext.len() == 6 * nbody && state.sensordata.len() == model.nsensordata()
    }

    /// Couples `model` and `state`; rejects a state whose buffers do not
    /// have the lengths the model dictates.
    pub fn new(model: Model<T>, state: State<T>) -> (r: Result<Simulation<T>, ShapeMismatch>)
        requires
            model.wf(),
        ensures
            r is Ok <==> state_shape_ok(model.parts(), state),
            r is Ok ==> r->Ok_0.spec_model() == model && r->Ok_0.spec_state() == state
                && r->Ok_0.wf(),
    {
        if Self::shape_matches(&model, &state) {
            Ok(Simulation { model, state })
        } else {
            Err(ShapeMismatch)
        }
    }

    /// The model, for queries.
    pub fn model(&self) -> (r: &Model<T>)
        ensures
            *r == self.spec_model(),
    {
        &self.model
    }

    /// The current state snapshot, for reading.
    pub fn state(&self) -> (r: &State<T>)
        ensures
            *r == self.spec_state(),
    {
        &self.state
    }

    /// Writes the control vector, or does nothing when `control` does
    /// not have one entry per actuator — the documented no-op on a
    /// length mismatch, which leaves the control buffer untouched.
    pub fn control(&mut self, control: &Vec<T>)
        requires
            old(self).wf(),
        ensures
            final(self).wf(),
            final(self).spec_model() == old(self).spec_model(),
            control@.len() != old(self).spec_model().parts().nu ==> state_eq(
                final(self).spec_state(),
                old(self).spec_state(),
            ),
            control@.len() == old(self).spec_model().parts().nu ==> {
                &&& final(self).spec_state().ctrl@ == control@
                &&& final(self).spec_state().time == old(self).spec_state().time
                &&& final(self).spec_state().qpos@ == old(self).spec_state().qpos@
                &&& final(self).spec_state().qvel@ == old(self).spec_state().qvel@
                &&& final(self).spec_state().xpos@ == old(self).spec_state().xpos@
                &&& final(self).spec_state().xquat@ == old(self).spec_state().xquat@
                &&& final(self).spec_state().cfrc_ext@ == old(self).spec_state().cfrc_ext@
                &&& final(self).spec_state().sensordata@ == old(self).spec_state().sensordata@
            },
    {
        if control.len() != self.model.nu() {
            return ;
        }
        self.state.ctrl = copy_vec(control);
    }

    /// Replaces the state snapshot, re-checking the shape coupling; on a
    /// mismatch the current state stays.
    pub fn load_state(&mut self, state: State<T>) -> (r: Result<(), ShapeMismatch>)
        requires
            old(self).wf(),
        ensures
            final(self).wf(),
            final(self).spec_model() == old(self).spec_model(),
            r is Ok <==> state_shape_ok(old(self).spec_model().parts(), state),
            r is Ok ==> final(self).spec_state() == state,
            r is Err ==> final(self).spec_state() == old(self).spec_state(),
    {
        if Self::shape_matches(&self.model, &state) {
            self.state = state;
            Ok(())
        } else {
            Err(ShapeMismatch)
        }
    }

    /// Returns entity positions in the inertial frame, one triple per
    /// geom count entry.
    pub fn xpos(&self) -> (r: Vec<[T; 3]>)
        requires
            self.wf(),
        ensures
            r@.len() == self.spec_model().parts().ngeom,
            forall|i: int, c: int|
                0 <= i < r@.len() && 0 <= c < 3 ==> #[trigger] r@[i]@[c]
                    == self.spec_state().xpos@[3 * i + c],
    {
        extract_mesh_attribute(&self.state.xpos, 0, self.model.ngeom())
    }

    /// Returns entity orientations, one quadruple per geom count entry.
    pub fn xquat(&self) -> (r: Vec<[T; 4]>)
        requires
            self.wf(),
        ensures
            r@.len() == self.spec_model().parts().ngeom,
            forall|i: int, c: int|
                0 <= i < r@.len() && 0 <= c < 4 ==> #[trigger] r@[i]@[c]
                    == self.spec_state().xquat@[4 * i + c],
    {
        extract_quads(&self.state.xquat, 0, self.model.ngeom())
    }

    /// Returns the generalized positions, one per generalized
    /// coordinate.
    pub fn qpos(&self) -> (r: Vec<T>)
        requires
            self.wf(),
        ensures
            r@ == self.spec_state().qpos@,
            r@.len() == self.spec_model().parts().nq,
    {
        let r = extract_vector(&self.state.qpos, 1, self.model.nq());
        proof {
            assert(r@ =~= self.spec_state().qpos@);
        }
        r
    }

    /// Returns the generalized velocities, one per degree of freedom.
    pub fn qvel(&self) -> (r: Vec<T>)
        requires
            self.wf(),
        ensures
            r@ == self.spec_state().qvel@,
            r@.len() == self.spec_model().parts().nv,
    {
        let r = extract_vector(&self.state.qvel, 1, self.model.nv());
        proof {
            assert(r@ =~= self.spec_state().qvel@);
        }
        r
    }

    /// Returns the external contact forces, one sextet per body.
    pub fn cfrc_ext(&self) -> (r: Vec<[T; 6]>)
        requires
            self.wf(),
        ensures
            r@.len() == self.spec_model().parts().nbody,
            forall|i: int, c: int|
                0 <= i < r@.len() && 0 <= c < 6 ==> #[trigger] r@[i]@[c]
                    == self.spec_state().cfrc_ext@[6 * i + c],
    {
        extract_sextets(&self.state.cfrc_ext, 0, self.model.nbody())
    }

    /// Returns the sensor readings, one per sensor channel.
    pub fn sensordata(&self) -> (r: Vec<T>)
        requires
            self.wf(),
        ensures
            r@ == self.spec_state().sensordata@,
            r@.len() == self.spec_model().parts().nsensordata,
    {
        let r = extract_vector(&self.state.sensordata, 1, self.model.nsensordata());
        proof {
            assert(r@ =~= self.spec_state().sensordata@);
        }
        r
    }
}

} // verus!
