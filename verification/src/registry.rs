//! The spatial registry: which objects are candidates for capture and which
//! are owned by the zone.
//!
//! Objects are tracked by their stable 64-bit identifier. The registry keeps
//! two disjoint collections: `candidates` (objects inside the volume but not
//! owned) and `captured` (objects the zone has taken ownership of). All
//! operations are idempotent set operations, so host notifications that race
//! with the zone's own transitions are harmless no-ops rather than errors.

use vstd::prelude::*;

verus! {

/// Tracks candidate and captured object identifiers for one capture zone.
pub struct Registry {
    candidates: Vec<u64>,
    captured: Vec<u64>,
}

impl Registry {
    /// The set of identifiers currently inside the volume but not owned.
    pub closed spec fn candidate_ids(&self) -> Set<u64> {
        self.candidates@.to_set()
    }

    /// The set of identifiers currently owned by the zone.
    pub closed spec fn captured_ids(&self) -> Set<u64> {
        self.captured@.to_set()
    }

    /// Well-formedness: each collection holds an identifier at most once,
    /// and no identifier is a candidate and captured at the same time.
    pub closed spec fn wf(&self) -> bool {
        &&& self.candidates@.no_duplicates()
        &&& self.captured@.no_duplicates()
        &&& forall|i: int, j: int|
            0 <= i < self.candidates@.len() && 0 <= j < self.captured@.len()
                ==> self.candidates@[i] != self.captured@[j]
    }

    /// An identifier is never simultaneously a candidate and captured.
    pub proof fn lemma_exclusive(&self, id: u64)
        requires
            self.wf(),
        ensures
            !(self.candidate_ids().contains(id) && self.captured_ids().contains(id)),
    {
    }

    /// The two identifier sets share no element.
    pub proof fn lemma_sets_disjoint(&self)
        requires
            self.wf(),
        ensures
            self.candidate_ids().disjoint(self.captured_ids()),
    {
    }

    /// Both identifier sets are finite.
    pub proof fn lemma_sets_finite(&self)
        ensures
            self.candidate_ids().finite(),
            self.captured_ids().finite(),
    {
        broadcast use vstd::seq_lib::seq_to_set_is_finite;

    }

    pub fn new() -> (r: Registry)
        ensures
            r.wf(),
            r.candidate_ids() == Set::<u64>::empty(),
            r.captured_ids() == Set::<u64>::empty(),
    {
        let r = Registry { candidates: Vec::new(), captured: Vec::new() };
        proof {
            assert(r.candidate_ids() =~= Set::<u64>::empty());
            assert(r.captured_ids() =~= Set::<u64>::empty());
        }
        r
    }

    pub fn is_candidate(&self, id: u64) -> (b: bool)
        ensures
            b == self.candidate_ids().contains(id),
    {
        index_of(&self.candidates, id).is_some()
    }

    pub fn is_captured(&self, id: u64) -> (b: bool)
        ensures
            b == self.captured_ids().contains(id),
    {
        index_of(&self.captured, id).is_some()
    }

    pub fn candidate_count(&self) -> (n: usize)
        requires
            self.wf(),
        ensures
            n == self.candidate_ids().len(),
    {
        proof {
            self.candidates@.unique_seq_to_set();
        }
        self.candidates.len()
    }

    pub fn captured_count(&self) -> (n: usize)
        requires
            self.wf(),
        ensures
            n == self.captured_ids().len(),
    {
        proof {
            self.captured@.unique_seq_to_set();
        }
        self.captured.len()
    }

    /// An object moved into the volume: record it as a candidate. A repeated
    /// notification, or one for an object the zone already owns, is a no-op.
    pub fn enter(&mut self, id: u64)
        requires
            old(self).wf(),
        ensures
            final(self).wf(),
            final(self).captured_ids() == old(self).captured_ids(),
            final(self).candidate_ids() == (if old(self).captured_ids().contains(id) {
                old(self).candidate_ids()
            } else {
                old(self).candidate_ids().insert(id)
            }),
    {
        let owned = index_of(&self.captured, id).is_some();
        let present = index_of(&self.candidates, id).is_some();
        if !owned && !present {
            proof {
                lemma_push_keeps_to_set(self.candidates@, id);
            }
            self.candidates.push(id);
        }
        proof {
            if !old(self).captured_ids().contains(id) && old(self).candidate_ids().contains(id) {
                assert(final(self).candidate_ids() =~= old(self).candidate_ids().insert(id));
            }
        }
    }

    /// An object moved out of the volume: forget it as a candidate. A
    /// notification for an absent identifier is a no-op and leaves every
    /// other entry untouched.
    pub fn leave(&mut self, id: u64)
        requires
            old(self).wf(),
        ensures
            final(self).wf(),
            final(self).captured_ids() == old(self).captured_ids(),
            final(self).candidate_ids() == old(self).candidate_ids().remove(id),
            !old(self).candidate_ids().contains(id)
                ==> final(self).candidate_ids() == old(self).candidate_ids(),
    {
        match index_of(&self.candidates, id) {
            Some(i) => {
                proof {
                    lemma_remove_keeps_to_set(self.candidates@, i as int);
                }
                self.candidates.remove(i);
            },
            None => {
                proof {
                    assert(final(self).candidate_ids() =~= old(self).candidate_ids().remove(id));
                }
            },
        }
    }

    /// The zone took ownership of an object: it stops being a candidate and
    /// becomes captured. Idempotent; the host may request this out of band.
    pub fn capture(&mut self, id: u64)
        requires
            old(self).wf(),
        ensures
            final(self).wf(),
            final(self).candidate_ids() == old(self).candidate_ids().remove(id),
            final(self).captured_ids() == old(self).captured_ids().insert(id),
    {
        match index_of(&self.candidates, id) {
            Some(i) => {
                proof {
                    lemma_remove_keeps_to_set(self.candidates@, i as int);
                }
                self.candidates.remove(i);
            },
            None => {
                proof {
                    assert(self.candidates@.to_set() =~= old(self).candidate_ids().remove(id));
                }
            },
        }
        match index_of(&self.captured, id) {
            Some(_) => {
                proof {
                    assert(final(self).captured_ids() =~= old(self).captured_ids().insert(id));
                }
            },
            None => {
                proof {
                    lemma_push_keeps_to_set(self.captured@, id);
                }
                self.captured.push(id);
            },
        }
    }

    /// The zone relinquished ownership of an object. A notification for an
    /// absent identifier is a no-op and leaves every other entry untouched.
    pub fn release(&mut self, id: u64)
        requires
            old(self).wf(),
        ensures
            final(self).wf(),
            final(self).candidate_ids() == old(self).candidate_ids(),
            final(self).captured_ids() == old(self).captured_ids().remove(id),
            !old(self).captured_ids().contains(id)
                ==> final(self).captured_ids() == old(self).captured_ids(),
    {
        match index_of(&self.captured, id) {
            Some(i) => {
                proof {
                    lemma_remove_keeps_to_set(self.captured@, i as int);
                }
                self.captured.remove(i);
            },
            None => {
                proof {
                    assert(final(self).captured_ids() =~= old(self).captured_ids().remove(id));
                }
            },
        }
    }

    /// Promote every candidate to captured, in one step. Returns the
    /// identifiers that were promoted.
    pub fn promote_all(&mut self) -> (moved: Vec<u64>)
        requires
            old(self).wf(),
        ensures
            final(self).wf(),
            moved@.no_duplicates(),
            moved@.to_set() == old(self).candidate_ids(),
            final(self).candidate_ids() == Set::<u64>::empty(),
            final(self).captured_ids() == old(self).captured_ids().union(
                old(self).candidate_ids(),
            ),
    {
        let moved = copy_ids(&self.candidates);
        proof {
            vstd::seq_lib::lemma_no_dup_in_concat(self.captured@, self.candidates@);
            lemma_concat_to_set(self.captured@, self.candidates@);
        }
        self.captured.append(&mut self.candidates);
        proof {
            assert(final(self).candidate_ids() =~= Set::<u64>::empty());
        }
        moved
    }

    /// Demote every captured object back to a candidate, in one step.
    /// Returns the identifiers that were demoted.
    pub fn release_all(&mut self) -> (moved: Vec<u64>)
        requires
            old(self).wf(),
        ensures
            final(self).wf(),
            moved@.no_duplicates(),
            moved@.to_set() == old(self).captured_ids(),
            final(self).captured_ids() == Set::<u64>::empty(),
            final(self).candidate_ids() == old(self).candidate_ids().union(
                old(self).captured_ids(),
            ),
    {
        let moved = copy_ids(&self.captured);
        proof {
            vstd::seq_lib::lemma_no_dup_in_concat(self.candidates@, self.captured@);
            lemma_concat_to_set(self.candidates@, self.captured@);
        }
        self.candidates.append(&mut self.captured);
        proof {
            assert(final(self).captured_ids() =~= Set::<u64>::empty());
        }
        moved
    }
}

/// Position of an identifier in a vector, if it occurs.
fn index_of(v: &Vec<u64>, id: u64) -> (r: Option<usize>)
    ensures
        match r {
            Some(i) => i < v@.len() && v@[i as int] == id && v@.to_set().contains(id),
            None => !v@.to_set().contains(id),
        },
{
    let mut i: usize = 0;
    while i < v.len()
        invariant
            i <= v.len(),
            forall|j: int| 0 <= j < i ==> v@[j] != id,
        decreases v.len() - i,
    {
        if v[i] == id {
            return Some(i);
        }
        i = i + 1;
    }
    None
}

/// A fresh vector with the same identifiers in the same order.
fn copy_ids(v: &Vec<u64>) -> (out: Vec<u64>)
    ensures
        out@ == v@,
{
    let mut out: Vec<u64> = Vec::new();
    let mut i: usize = 0;
    while i < v.len()
        invariant
            i <= v.len(),
            out@ == v@.subrange(0, i as int),
        decreases v.len() - i,
    {
        out.push(v[i]);
        proof {
            assert(out@ =~= v@.subrange(0, i + 1));
        }
        i = i + 1;
    }
    proof {
        assert(out@ =~= v@);
    }
    out
}

/// Appending one element extends the sequence's set by that element.
proof fn lemma_push_keeps_to_set(s: Seq<u64>, id: u64)
    ensures
        s.push(id).to_set() == s.to_set().insert(id),
{
    let t = s.push(id);
    assert forall|x: u64| t.to_set().contains(x) implies s.to_set().insert(id).contains(x) by {
        let k = choose|k: int| 0 <= k < t.len() && t[k] == x;
        if k < s.len() {
            assert(s[k] == x);
        }
    }
    assert forall|x: u64| s.to_set().insert(id).contains(x) implies t.to_set().contains(x) by {
        if s.to_set().contains(x) {
            let k = choose|k: int| 0 <= k < s.len() && s[k] == x;
            assert(t[k] == x);
        } else {
            assert(t[s.len() as int] == id);
        }
    }
    assert(t.to_set() =~= s.to_set().insert(id));
}

/// Removing the one occurrence of an identifier removes exactly it from the
/// sequence's set, and keeps the sequence duplicate-free.
proof fn lemma_remove_keeps_to_set(s: Seq<u64>, i: int)
    requires
        s.no_duplicates(),
        0 <= i < s.len(),
    ensures
        s.remove(i).no_duplicates(),
        s.remove(i).to_set() == s.to_set().remove(s[i]),
{
    s.remove_ensures(i);
    let t = s.remove(i);
    assert forall|p: int, q: int|
        0 <= p < t.len() && 0 <= q < t.len() && p != q implies t[p] != t[q] by {
        let sp: int = if p < i { p } else { p + 1 };
        let sq: int = if q < i { q } else { q + 1 };
        assert(t[p] == s[sp]);
        assert(t[q] == s[sq]);
    }
    assert forall|x: u64| t.to_set().contains(x) implies s.to_set().remove(s[i]).contains(x) by {
        let k = choose|k: int| 0 <= k < t.len() && t[k] == x;
        let sk: int = if k < i { k } else { k + 1 };
        assert(s[sk] == x);
    }
    assert forall|x: u64| s.to_set().remove(s[i]).contains(x) implies t.to_set().contains(x) by {
        let k = choose|k: int| 0 <= k < s.len() && s[k] == x;
        if k < i {
            assert(t[k] == x);
        } else {
            assert(t[k - 1] == x);
        }
    }
    assert(t.to_set() =~= s.to_set().remove(s[i]));
}

/// The set of a concatenation is the union of the two sets.
proof fn lemma_concat_to_set(a: Seq<u64>, b: Seq<u64>)
    ensures
        (a + b).to_set() == a.to_set().union(b.to_set()),
{
    let t = a + b;
    assert forall|x: u64| t.to_set().contains(x)
        implies a.to_set().union(b.to_set()).contains(x) by {
        let k = choose|k: int| 0 <= k < t.len() && t[k] == x;
        if k < a.len() {
            assert(a[k] == x);
        } else {
            assert(b[k - a.len()] == x);
        }
    }
    assert forall|x: u64| a.to_set().union(b.to_set()).contains(x)
        implies t.to_set().contains(x) by {
        if a.to_set().contains(x) {
            let k = choose|k: int| 0 <= k < a.len() && a[k] == x;
            assert(t[k] == x);
        } else {
            let k = choose|k: int| 0 <= k < b.len() && b[k] == x;
            assert(t[k + a.len()] == x);
        }
    }
    assert(t.to_set() =~= a.to_set().union(b.to_set()));
}

} // verus!
