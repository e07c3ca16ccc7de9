//! The in-memory virtual file table.
//!
//! The engine loads models through a fixed-capacity table of named byte
//! buffers instead of a filesystem. This module holds that table as plain
//! values with its two invariants — names unique while present, size
//! bounded by the native capacity — and gives every operation the exact
//! collision and capacity semantics of the native table.

use vstd::prelude::*;
use vstd::slice::slice_to_vec;
use vstd::string::StrSliceExecFns;
use vstd::string::StringSliceAdditionalSpecFns;

use crate::helpers::bytes_eq;
use crate::helpers::copy_vec;

verus! {

/// Capacity of the native file table.
pub const MAX_FILES: usize = 2000;

/// Native bound on a stored file name, terminator included.
pub const MAX_FILENAME_LEN: usize = 1000;

/// An error when adding a file to a [`Vfs`] via [`Vfs::add_file()`].
#[derive(Debug, PartialEq, Eq, Clone, Copy, Hash, Structural)]
pub enum AddError {
    VfsFull,
    RepeatedName,
}

impl AddError {
    /// A short description of the error.
    pub fn message(&self) -> (s: &'static str)
        ensures
            *self is VfsFull ==> s@ == "the file table is full"@,
            *self is RepeatedName ==> s@ == "a file of that name is already present"@,
    {
        match self {
            AddError::VfsFull => "the file table is full",
            AddError::RepeatedName => "a file of that name is already present",
        }
    }
}

/// One stored file: its name and contents, both as plain bytes.
struct VfsFile {
    name: Vec<u8>,
    contents: Vec<u8>,
}

/// What a file table holds: a sequence of (name, contents) pairs in
/// insertion order.
pub type FileTableView = Seq<(Seq<u8>, Seq<u8>)>;

/// True when some stored file bears `name`.
pub open spec fn contains_name(files: FileTableView, name: Seq<u8>) -> bool {
    exists|i: int| 0 <= i < files.len() && files[i].0 == name
}

/// The contents stored under `name`, looking from the front of the table.
pub open spec fn lookup(files: FileTableView, name: Seq<u8>) -> Option<Seq<u8>>
    decreases files.len(),
{
    if files.len() == 0 {
        None
    } else if files[0].0 == name {
        Some(files[0].1)
    } else {
        lookup(files.drop_first(), name)
    }
}

/// The table with the first file named `name` taken out, and the rest
/// shifted up — the native table's deletion order.
pub open spec fn remove_name(files: FileTableView, name: Seq<u8>) -> FileTableView
    decreases files.len(),
{
    if files.len() == 0 {
        files
    } else if files[0].0 == name {
        files.drop_first()
    } else {
        seq![files[0]] + remove_name(files.drop_first(), name)
    }
}

proof fn lemma_lookup_at_first_match(files: FileTableView, name: Seq<u8>, i: int)
    requires
        0 <= i < files.len(),
        files[i].0 == name,
        forall|k: int| 0 <= k < i ==> files[k].0 != name,
    ensures
        lookup(files, name) == Some(files[i].1),
        remove_name(files, name) =~= files.remove(i),
    decreases i,
{
    if i == 0 {
        assert(remove_name(files, name) =~= files.remove(0));
    } else {
        let rest = files.drop_first();
        assert(forall|k: int| 0 <= k < i - 1 ==> #[trigger] rest[k].0 == files[k + 1].0);
        lemma_lookup_at_first_match(rest, name, i - 1);
        assert(seq![files[0]] + rest.remove(i - 1) =~= files.remove(i));
    }
}

proof fn lemma_lookup_no_match(files: FileTableView, name: Seq<u8>)
    requires
        forall|k: int| 0 <= k < files.len() ==> files[k].0 != name,
    ensures
        lookup(files, name) is None,
        remove_name(files, name) =~= files,
    decreases files.len(),
{
    if files.len() > 0 {
        let rest = files.drop_first();
        assert(forall|k: int| 0 <= k < rest.len() ==> #[trigger] rest[k].0 == files[k + 1].0);
        lemma_lookup_no_match(rest, name);
        assert(seq![files[0]] + rest =~= files);
    }
}

/// Looking a name up never fails silently: the lookup succeeds exactly
/// when a file of that name is present.
pub proof fn lemma_lookup_iff_contains(files: FileTableView, name: Seq<u8>)
    ensures
        lookup(files, name) is Some <==> contains_name(files, name),
{
    if contains_name(files, name) {
        let w = choose|i: int| 0 <= i < files.len() && files[i].0 == name;
        lemma_first_match_exists(files, name, w);
        let first = choose|i: int|
            0 <= i < files.len() && files[i].0 == name && forall|k: int|
                0 <= k < i ==> files[k].0 != name;
        lemma_lookup_at_first_match(files, name, first);
    } else {
        lemma_lookup_no_match(files, name);
    }
}

proof fn lemma_first_match_exists(files: FileTableView, name: Seq<u8>, w: int)
    requires
        0 <= w < files.len(),
        files[w].0 == name,
    ensures
        exists|i: int|
            0 <= i < files.len() && files[i].0 == name && forall|k: int|
                0 <= k < i ==> files[k].0 != name,
    decreases w,
{
    if forall|k: int| 0 <= k < w ==> files[k].0 != name {
    } else {
        let w2 = choose|k: int| 0 <= k < w && files[k].0 == name;
        lemma_first_match_exists(files, name, w2);
    }
}

/// The in-memory virtual file table: a bounded table of named byte
/// buffers with unique names.
pub struct Vfs {
    files: Vec<VfsFile>,
}

impl View for Vfs {
    type V = FileTableView;

    closed spec fn view(&self) -> FileTableView {
        self.files@.map_values(|f: VfsFile| (f.name@, f.contents@))
    }
}

impl Vfs {
    /// The table's invariant: within capacity, and no name twice.
    pub open spec fn wf(self) -> bool {
        &&& self@.len() <= MAX_FILES
        &&& forall|i: int, j: int| 0 <= i < j < self@.len() ==> self@[i].0 != self@[j].0
    }

    /// Initializes a new empty `Vfs`.
    pub fn new() -> (r: Self)
        ensures
            r@ =~= Seq::<(Seq<u8>, Seq<u8>)>::empty(),
            r.wf(),
    {
        Vfs { files: Vec::new() }
    }

    /// Looks up the index of the first (and, under the invariant, only)
    /// file bearing `name`.
    fn get_idx(&self, name: &Vec<u8>) -> (r: Option<usize>)
        ensures
            match r {
                Some(i) => {
                    &&& i < self@.len()
                    &&& self@[i as int].0 == name@
                    &&& forall|k: int| 0 <= k < i ==> self@[k].0 != name@
                },
                None => forall|k: int| 0 <= k < self@.len() ==> self@[k].0 != name@,
            },
    {
        let mut i: usize = 0;
        while i < self.files.len()
            invariant
                0 <= i <= self.files@.len(),
                self@.len() == self.files@.len(),
                forall|k: int| 0 <= k < i ==> self@[k].0 != name@,
            decreases self.files@.len() - i,
        {
            if bytes_eq(&self.files[i].name, name) {
                return Some(i);
            }
            i = i + 1;
        }
        None
    }

    /// Gets a copy of a file's contents from the table.
    pub fn get_file(&self, filename: &str) -> (r: Option<Vec<u8>>)
        ensures
            match r {
                Some(v) => lookup(self@, filename.spec_bytes()) == Some(v@),
                None => lookup(self@, filename.spec_bytes()) is None,
            },
    {
        let name = filename.as_bytes_vec();
        match self.get_idx(&name) {
            Some(i) => {
                proof {
                    lemma_lookup_at_first_match(self@, name@, i as int);
                }
                Some(copy_vec(&self.files[i].contents))
            },
            None => {
                proof {
                    lemma_lookup_no_match(self@, name@);
                }
                None
            },
        }
    }

    /// Deletes the file bearing `filename` if present, and reports
    /// whether one was found.
    pub fn delete_file(&mut self, filename: &str) -> (r: bool)
        requires
            old(self).wf(),
        ensures
            final(self).wf(),
            r == contains_name(old(self)@, filename.spec_bytes()),
            final(self)@ == remove_name(old(self)@, filename.spec_bytes()),
    {
        let name = filename.as_bytes_vec();
        match self.get_idx(&name) {
            Some(i) => {
                proof {
                    lemma_lookup_at_first_match(self@, name@, i as int);
                }
                let ghost pre = self@;
                self.files.remove(i);
                proof {
                    assert(self@ =~= pre.remove(i as int));
                    assert forall|p: int, q: int| 0 <= p < q < self@.len() implies self@[p].0
                        != self@[q].0 by {
                        let p0 = if p < i as int {
                            p
                        } else {
                            p + 1
                        };
                        let q0 = if q < i as int {
                            q
                        } else {
                            q + 1
                        };
                        assert(self@[p] == pre[p0] && self@[q] == pre[q0]);
                    }
                }
                true
            },
            None => {
                proof {
                    lemma_lookup_no_match(self@, name@);
                }
                false
            },
        }
    }

    /// Adds a file to the table from the given contents.
    ///
    /// The native table's order of checks is kept: a full table is
    /// reported before a repeated name.
    pub fn add_file(&mut self, filename: &str, contents: &[u8]) -> (r: Result<(), AddError>)
        requires
            old(self).wf(),
        ensures
            final(self).wf(),
            old(self)@.len() == MAX_FILES ==> r == Err::<(), AddError>(AddError::VfsFull)
                && final(self)@ == old(self)@,
            old(self)@.len() < MAX_FILES && contains_name(old(self)@, filename.spec_bytes())
                ==> r == Err::<(), AddError>(AddError::RepeatedName) && final(self)@ == old(
                self,
            )@,
            old(self)@.len() < MAX_FILES && !contains_name(old(self)@, filename.spec_bytes())
                ==> r == Ok::<(), AddError>(()) && final(self)@ == old(self)@.push(
                (filename.spec_bytes(), contents@),
            ),
    {
        if self.files.len() >= MAX_FILES {
            return Err(AddError::VfsFull);
        }
        let name = filename.as_bytes_vec();
        match self.get_idx(&name) {
            Some(_) => Err(AddError::RepeatedName),
            None => {
                let ghost pre = self@;
                let file = VfsFile { name, contents: slice_to_vec(contents) };
                self.files.push(file);
                proof {
                    assert(self@ =~= pre.push((filename.spec_bytes(), contents@)));
                }
                Ok(())
            },
        }
    }
}

impl Default for Vfs {
    /// The default table is the empty one.
    fn default() -> (r: Self)
        ensures
            r@ =~= Seq::<(Seq<u8>, Seq<u8>)>::empty(),
            r.wf(),
    {
        Vfs::new()
    }
}

/// Adding a name that is already present is rejected, and the contents
/// stored first stay retrievable unchanged: after a successful add of
/// `(name, contents)`, the table contains `name` — so a second add of the
/// same name answers `RepeatedName` and leaves the table as it was — and
/// looking `name` up yields exactly `contents`.
pub proof fn lemma_duplicate_add_rejected(files: FileTableView, name: Seq<u8>, contents: Seq<u8>)
    requires
        !contains_name(files, name),
    ensures
        contains_name(files.push((name, contents)), name),
        lookup(files.push((name, contents)), name) == Some(contents),
{
    let grown = files.push((name, contents));
    assert(grown[files.len() as int].0 == name);
    lemma_lookup_at_first_match(grown, name, files.len() as int);
}

/// Staging a file under a reserved name and deleting that name afterwards
/// restores the table exactly, whatever the outcome in between: a later
/// staging under the same name starts from the same table and so succeeds
/// again.
pub proof fn lemma_stage_then_cleanup_restores(
    files: FileTableView,
    name: Seq<u8>,
    contents: Seq<u8>,
)
    requires
        !contains_name(files, name),
    ensures
        remove_name(files.push((name, contents)), name) == files,
        !contains_name(remove_name(files.push((name, contents)), name), name),
{
    let grown = files.push((name, contents));
    assert(grown[files.len() as int].0 == name);
    lemma_lookup_at_first_match(grown, name, files.len() as int);
    assert(grown.remove(files.len() as int) =~= files);
}

} // verus!
