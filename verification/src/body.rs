//! The typed per-body snapshot and its geom queries.

use vstd::prelude::*;

use crate::geom::geom_eq;
use crate::geom::Geom;
use crate::geom::GeomType;

verus! {

/// An owned snapshot of one body, copied out of the model's flat arrays.
/// `T` is the scalar type the caller widens native floats into.
#[derive(Debug)]
pub struct Body<T> {
    pub id: i32,
    pub name: String,
    pub parent_id: i32,
    pub geom_n: i32,
    pub geom_addr: i32,
    pub pos: [T; 3],
    pub quat: [T; 4],
}

impl<T: Copy> Clone for Body<T> {
    /// An independent deep copy holding the same data.
    fn clone(&self) -> (r: Self)
        ensures
            r.id == self.id,
            r.name@ == self.name@,
            r.parent_id == self.parent_id,
            r.geom_n == self.geom_n,
            r.geom_addr == self.geom_addr,
            r.pos@ == self.pos@,
            r.quat@ == self.quat@,
    {
        Body {
            id: self.id,
            name: self.name.clone(),
            parent_id: self.parent_id,
            geom_n: self.geom_n,
            geom_addr: self.geom_addr,
            pos: self.pos,
            quat: self.quat,
        }
    }
}

impl<T: Copy> Body<T> {
    /// Copies this body's own geoms out of the full geom list: the run
    /// of `geom_n` entries starting at `geom_addr`.
    pub fn geoms(&self, geoms: &Vec<Geom<T>>) -> (r: Vec<Geom<T>>)
        requires
            self.geom_n >= 0,
            self.geom_n > 0 ==> 0 <= self.geom_addr && self.geom_addr + self.geom_n
                <= geoms@.len(),
        ensures
            r@.len() == self.geom_n,
            forall|k: int|
                0 <= k < r@.len() ==> geom_eq(#[trigger] r@[k], geoms@[self.geom_addr + k]),
    {
        let mut out: Vec<Geom<T>> = Vec::new();
        if self.geom_n <= 0 {
            return out;
        }
        let start = self.geom_addr as usize;
        let count = self.geom_n as usize;
        proof {
            assert(geoms@.len() == geoms.len());
        }
        let mut k: usize = 0;
        while k < count
            invariant
                0 <= k <= count,
                start + count <= geoms@.len(),
                geoms@.len() <= usize::MAX,
                out@.len() == k,
                forall|t: int|
                    0 <= t < k ==> geom_eq(#[trigger] out@[t], geoms@[start + t]),
            decreases count - k,
        {
            out.push(geoms[start + k].clone());
            k = k + 1;
        }
        out
    }
}

/// Rendering prefers primitive geoms over mesh geoms.
pub open spec fn mesh_rank<T>(g: Geom<T>) -> int {
    if g.geom_type == GeomType::MESH {
        1int
    } else {
        0int
    }
}

/// The rendering preference order: primitive before mesh, then lower
/// visibility group first.
pub open spec fn render_key_le<T>(a: Geom<T>, b: Geom<T>) -> bool {
    mesh_rank(a) < mesh_rank(b) || (mesh_rank(a) == mesh_rank(b) && a.geom_group <= b.geom_group)
}

/// How many geoms of the list belong to body `id`.
pub open spec fn count_body_matches<T>(geoms: Seq<Geom<T>>, id: i32) -> int
    decreases geoms.len(),
{
    if geoms.len() == 0 {
        0
    } else {
        (if geoms.last().body_id == id {
            1int
        } else {
            0int
        }) + count_body_matches(geoms.drop_last(), id)
    }
}

impl<T: Copy> Body<T> {
    /// This body's geom `k` is renderable: it sits in the body's range
    /// and its visibility group is below 3.
    pub open spec fn candidate(self, geoms: Seq<Geom<T>>, k: int) -> bool {
        0 <= k < self.geom_n && geoms[self.geom_addr + k].geom_group < 3
    }

    /// Some geom of this body is renderable.
    pub open spec fn has_candidate(self, geoms: Seq<Geom<T>>) -> bool {
        exists|k: int| self.candidate(geoms, k)
    }

    /// `k` is the first renderable geom of this body that no other
    /// renderable one beats in the preference order.
    pub open spec fn first_best(self, geoms: Seq<Geom<T>>, k: int) -> bool {
        &&& self.candidate(geoms, k)
        &&& forall|j: int|
            #[trigger] self.candidate(geoms, j) ==> render_key_le(
                geoms[self.geom_addr + k],
                geoms[self.geom_addr + j],
            )
        &&& forall|j: int|
            0 <= j < k && #[trigger] self.candidate(geoms, j) ==> !render_key_le(
                geoms[self.geom_addr + j],
                geoms[self.geom_addr + k],
            )
    }

    /// Picks the geom to render for this body.
    ///
    /// When exactly one geom of the whole list belongs to this body,
    /// that geom is it. Otherwise the body's own renderable geoms
    /// (visibility group below 3) compete, primitive kinds before mesh
    /// kinds and lower groups first; the first geom no other beats wins,
    /// and a body with no renderable geom renders nothing.
    pub fn render_geom(&self, geoms: &Vec<Geom<T>>) -> (r: Option<Geom<T>>)
        requires
            self.geom_n >= 0,
            self.geom_n > 0 ==> 0 <= self.geom_addr && self.geom_addr + self.geom_n
                <= geoms@.len(),
        ensures
            count_body_matches(geoms@, self.id) == 1 ==> r is Some && exists|i: int|
                0 <= i < geoms@.len() && geoms@[i].body_id == self.id && geom_eq(r->0, geoms@[i]),
            count_body_matches(geoms@, self.id) != 1 && !self.has_candidate(geoms@) ==> r
                is None,
            count_body_matches(geoms@, self.id) != 1 && self.has_candidate(geoms@) ==> r is Some
                && exists|k: int|
                #[trigger] self.first_best(geoms@, k) && geom_eq(
                    r->0,
                    geoms@[self.geom_addr + k],
                ),
    {
        proof {
            assert(geoms@.len() == geoms.len());
        }
        let mut matches: usize = 0;
        let mut last_match: usize = 0;
        let mut i: usize = 0;
        while i < geoms.len()
            invariant
                0 <= i <= geoms@.len(),
                geoms@.len() <= usize::MAX,
                matches == count_body_matches(geoms@.subrange(0, i as int), self.id),
                matches <= i,
                matches > 0 ==> last_match < i && geoms@[last_match as int].body_id == self.id,
            decreases geoms@.len() - i,
        {
            let ghost pre = geoms@.subrange(0, i as int);
            if geoms[i].body_id == self.id {
                matches = matches + 1;
                last_match = i;
            }
            i = i + 1;
            proof {
                let cur = geoms@.subrange(0, i as int);
                assert(cur.drop_last() =~= pre);
                assert(cur.last() == geoms@[i - 1]);
            }
        }
        proof {
            assert(geoms@.subrange(0, geoms@.len() as int) =~= geoms@);
        }
        if matches == 1 {
            return Some(geoms[last_match].clone());
        }
        if self.geom_n <= 0 {
            proof {
                assert(!self.has_candidate(geoms@)) by {
                    if exists|k: int| self.candidate(geoms@, k) {
                        let k = choose|k: int| self.candidate(geoms@, k);
                        assert(false);
                    }
                }
            }
            return None;
        }
        let addr = self.geom_addr as usize;
        let count = self.geom_n as usize;
        let mut best: usize = 0;
        let mut found = false;
        let mut k: usize = 0;
        while k < count
            invariant
                0 <= k <= count,
                addr + count <= geoms@.len(),
                geoms@.len() <= usize::MAX,
                addr == self.geom_addr,
                count == self.geom_n,
                !found ==> forall|j: int| 0 <= j < k ==> !self.candidate(geoms@, j),
                found ==> {
                    &&& best < k
                    &&& self.candidate(geoms@, best as int)
                    &&& forall|j: int|
                        0 <= j < k && #[trigger] self.candidate(geoms@, j) ==> render_key_le(
                            geoms@[self.geom_addr + best],
                            geoms@[self.geom_addr + j],
                        )
                    &&& forall|j: int|
                        0 <= j < best && #[trigger] self.candidate(geoms@, j)
                            ==> !render_key_le(
                            geoms@[self.geom_addr + j],
                            geoms@[self.geom_addr + best],
                        )
                },
            decreases count - k,
        {
            if geoms[addr + k].geom_group < 3 {
                if !found {
                    best = k;
                    found = true;
                } else {
                    let cur = &geoms[addr + k];
                    let old_best = &geoms[addr + best];
                    let cur_rank: i32 = if matches!(cur.geom_type, GeomType::MESH) {
                        1
                    } else {
                        0
                    };
                    let best_rank: i32 = if matches!(old_best.geom_type, GeomType::MESH) {
                        1
                    } else {
                        0
                    };
                    let strictly_better = cur_rank < best_rank || (cur_rank == best_rank
                        && cur.geom_group < old_best.geom_group);
                    proof {
                        assert(strictly_better == !render_key_le(
                            geoms@[addr + best],
                            geoms@[addr + k as int],
                        ));
                    }
                    if strictly_better {
                        best = k;
                    }
                }
            }
            k = k + 1;
        }
        if found {
            proof {
                assert(self.first_best(geoms@, best as int));
            }
            Some(geoms[addr + best].clone())
        } else {
            proof {
                assert(!self.has_candidate(geoms@)) by {
                    if exists|j: int| self.candidate(geoms@, j) {
                        let j = choose|j: int| self.candidate(geoms@, j);
                        assert(!self.candidate(geoms@, j));
                    }
                }
            }
            None
        }
    }
}

} // verus!
