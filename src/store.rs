use vstd::prelude::*;
use crate::models::{Snap, SnapView};
use crate::state::SnapCreationError;

verus! {

/// `a` is listed before `b`: it is newer, or as new and inserted later.
pub open spec fn precedes(a: SnapView, b: SnapView) -> bool {
    a.timestamp > b.timestamp || (a.timestamp == b.timestamp && a.seq > b.seq)
}

/// No two snaps of `s` share an identity.
pub open spec fn ids_distinct(s: Seq<SnapView>) -> bool {
    forall|i: int, j: int| 0 <= i < j < s.len() ==> s[i].id != s[j].id
}

/// Each snap of `s` carries its own position as insertion number.
pub open spec fn numbered(s: Seq<SnapView>) -> bool {
    forall|i: int| 0 <= i < s.len() ==> (#[trigger] s[i]).seq == i
}

/// `s` is what a repository may hold: insertion numbers follow positions and
/// identities are unique.
pub open spec fn valid_history(s: Seq<SnapView>) -> bool {
    numbered(s) && ids_distinct(s)
}

/// Some snap of `s` has identity `id`.
pub open spec fn holds_id(s: Seq<SnapView>, id: u128) -> bool {
    exists|i: int| 0 <= i < s.len() && s[i].id == id
}

/// Every snap of `r` precedes every later one.
pub open spec fn newest_first(r: Seq<SnapView>) -> bool {
    forall|i: int, j: int| 0 <= i < j < r.len() ==> precedes(r[i], r[j])
}

/// `r` holds exactly the snaps of `s`, newest first.
pub open spec fn is_listing(s: Seq<SnapView>, r: Seq<SnapView>) -> bool {
    &&& r.len() == s.len()
    &&& newest_first(r)
    &&& forall|k: int| 0 <= k < r.len() ==> s.contains(#[trigger] r[k])
    &&& forall|i: int| 0 <= i < s.len() ==> r.contains(#[trigger] s[i])
}

/// The views of a sequence of snaps.
pub open spec fn views(v: Seq<Snap>) -> Seq<SnapView> {
    v.map_values(|x: Snap| x@)
}

/// `history` is the succession of store contents along a run of successful
/// creations from an empty store: each step adds `created[i]`, whose identity
/// was not held before it.
pub open spec fn successful_run(history: Seq<Seq<SnapView>>, created: Seq<SnapView>) -> bool {
    &&& history.len() == created.len() + 1
    &&& history[0] == Seq::<SnapView>::empty()
    &&& forall|i: int|
        0 <= i < created.len() ==> !holds_id(#[trigger] history[i], created[i].id) && history[i
            + 1] == history[i].push(created[i])
}

/// After a run of successful creations from an empty store, the store holds
/// exactly the created snaps, so its count is the number of creations, and
/// their identities are pairwise distinct.
pub proof fn lemma_successful_run(history: Seq<Seq<SnapView>>, created: Seq<SnapView>)
    requires
        successful_run(history, created),
    ensures
        history.last() == created,
        history.last().len() == created.len(),
        ids_distinct(created),
{
    assert forall|i: int| 0 <= i <= created.len() implies #[trigger] history[i]
        == created.subrange(0, i) by {
        lemma_run_prefix(history, created, i);
    }
    assert(created.subrange(0, created.len() as int) =~= created);
    assert forall|i: int, j: int| 0 <= i < j < created.len() implies created[i].id
        != created[j].id by {
        assert(history[j] == created.subrange(0, j));
        assert(history[j][i] == created[i]);
    }
}

proof fn lemma_run_prefix(history: Seq<Seq<SnapView>>, created: Seq<SnapView>, i: int)
    requires
        successful_run(history, created),
        0 <= i <= created.len(),
    ensures
        history[i] == created.subrange(0, i),
    decreases i,
{
    if i == 0 {
        assert(created.subrange(0, 0) =~= Seq::<SnapView>::empty());
    } else {
        lemma_run_prefix(history, created, i - 1);
        assert(history[i - 1 + 1] == history[i - 1].push(created[i - 1]));
        assert(created.subrange(0, i) =~= created.subrange(0, i - 1).push(created[i - 1]));
    }
}

/// A store with no snaps lists nothing.
pub proof fn lemma_empty_store_lists_nothing(r: Seq<SnapView>)
    requires
        is_listing(Seq::<SnapView>::empty(), r),
    ensures
        r == Seq::<SnapView>::empty(),
{
    assert(r =~= Seq::<SnapView>::empty());
}

/// A snap just added is in every later listing of the store.
pub proof fn lemma_created_snap_is_listed(before: Seq<SnapView>, s: SnapView, r: Seq<SnapView>)
    requires
        is_listing(before.push(s), r),
    ensures
        r.contains(s),
{
    let after = before.push(s);
    assert(after[before.len() as int] == s);
}

/// The entry that a later listing holds under a new snap's identity has that
/// snap's identity, message, time and insertion number, unchanged.
pub proof fn lemma_listed_entry_is_created_snap(
    before: Seq<SnapView>,
    s: SnapView,
    r: Seq<SnapView>,
    k: int,
)
    requires
        ids_distinct(before.push(s)),
        is_listing(before.push(s), r),
        0 <= k < r.len(),
        r[k].id == s.id,
    ensures
        r[k] == s,
{
    let after = before.push(s);
    assert(after.contains(r[k]));
    let j = choose|j: int| 0 <= j < after.len() && after[j] == r[k];
    if j != before.len() {
        assert(after[j].id != after[before.len() as int].id);
    }
}

proof fn lemma_rank_upper(r: Seq<SnapView>, k: int)
    requires
        0 <= k < r.len(),
        forall|i: int| 0 <= i < r.len() ==> (#[trigger] r[i]).seq < r.len(),
        forall|a: int, b: int| 0 <= a < b < r.len() ==> r[a].seq > r[b].seq,
    ensures
        r[k].seq <= r.len() - 1 - k,
    decreases k,
{
    if k > 0 {
        lemma_rank_upper(r, k - 1);
        assert(r[k - 1].seq > r[k].seq);
    }
}

proof fn lemma_rank_lower(r: Seq<SnapView>, k: int)
    requires
        0 <= k < r.len(),
        forall|a: int, b: int| 0 <= a < b < r.len() ==> r[a].seq > r[b].seq,
    ensures
        r[k].seq >= r.len() - 1 - k,
    decreases r.len() - k,
{
    if k < r.len() - 1 {
        lemma_rank_lower(r, k + 1);
        assert(r[k].seq > r[k + 1].seq);
    }
}

/// Where the clock never went back between insertions, the listing is the
/// insertion order reversed: snaps created one after another come out last
/// created first.
pub proof fn lemma_steady_clock_lists_in_reverse(s: Seq<SnapView>, r: Seq<SnapView>)
    requires
        numbered(s),
        forall|i: int, j: int| 0 <= i <= j < s.len() ==> s[i].timestamp <= s[j].timestamp,
        is_listing(s, r),
    ensures
        r == s.reverse(),
{
    let n = s.len() as int;
    assert forall|k: int| 0 <= k < n implies (#[trigger] r[k]).seq < n && r[k] == s[r[k].seq as int] by {
        assert(s.contains(r[k]));
        let j = choose|j: int| 0 <= j < n && s[j] == r[k];
        assert(s[j].seq == j);
    }
    assert forall|a: int, b: int| 0 <= a < b < n implies r[a].seq > r[b].seq by {
        assert(precedes(r[a], r[b]));
        let ja = r[a].seq as int;
        let jb = r[b].seq as int;
        if ja <= jb {
            assert(s[ja].timestamp <= s[jb].timestamp);
        }
    }
    assert forall|k: int| 0 <= k < n implies r[k] == s.reverse()[k] by {
        lemma_rank_upper(r, k);
        lemma_rank_lower(r, k);
    }
    assert(r =~= s.reverse());
}

/// The snaps of one repository, in insertion order.
pub struct SnapStore {
    snaps: Vec<Snap>,
}

impl View for SnapStore {
    type V = Seq<SnapView>;

    closed spec fn view(&self) -> Seq<SnapView> {
        views(self.snaps@)
    }
}

impl SnapStore {
    /// Insertion numbers follow positions and identities are unique.
    pub open spec fn wf(&self) -> bool {
        valid_history(self@)
    }

    pub fn new() -> (r: SnapStore)
        ensures
            r.wf(),
            r@ == Seq::<SnapView>::empty(),
    {
        let r = SnapStore { snaps: Vec::new() };
        assert(r@ =~= Seq::<SnapView>::empty());
        r
    }

    /// Number of snaps held.
    pub fn len(&self) -> (r: usize)
        ensures
            r == self@.len(),
    {
        self.snaps.len()
    }

    /// Whether a snap with identity `id` is held.
    pub fn contains_id(&self, id: u128) -> (r: bool)
        ensures
            r == holds_id(self@, id),
    {
        let mut i: usize = 0;
        while i < self.snaps.len()
            invariant
                i <= self.snaps@.len(),
                self@ == views(self.snaps@),
                forall|j: int| 0 <= j < i ==> self@[j].id != id,
            decreases self.snaps@.len() - i,
        {
            if self.snaps[i].id_bits() == id {
                assert(self@[i as int] == self.snaps@[i as int]@);
                return true;
            }
            i = i + 1;
        }
        false
    }

    /// Adds a snap with the given message, identity and time, numbered after
    /// all others, unless the identity is already held; then nothing changes.
    pub fn insert_new(&mut self, message: String, id: u128, timestamp: i64) -> (r: Result<
        Snap,
        SnapCreationError,
    >)
        requires
            old(self).wf(),
        ensures
            final(self).wf(),
            r is Err <==> holds_id(old(self)@, id),
            r is Err ==> final(self)@ == old(self)@,
            r matches Ok(s) ==> s@ == (SnapView {
                id,
                message: message@,
                timestamp,
                seq: old(self)@.len(),
            }) && final(self)@ == old(self)@.push(s@),
    {
        if self.contains_id(id) {
            return Err(SnapCreationError::IdCollisionError);
        }
        let seq = self.snaps.len();
        let snap = Snap::new(message, id, timestamp, seq);
        let stored = snap.duplicate();
        self.snaps.push(stored);
        assert(self@ =~= old(self)@.push(snap@));
        Ok(snap)
    }

    /// Copies of all snaps, newest first; among snaps of equal time, the one
    /// inserted later comes first.
    pub fn listing(&self) -> (r: Vec<Snap>)
        requires
            self.wf(),
        ensures
            is_listing(self@, views(r@)),
    {
        let mut out: Vec<Snap> = Vec::new();
        let mut i: usize = 0;
        while i < self.snaps.len()
            invariant
                self.wf(),
                i <= self.snaps@.len(),
                self@ == views(self.snaps@),
                is_listing(self@.subrange(0, i as int), views(out@)),
            decreases self.snaps@.len() - i,
        {
            let x = self.snaps[i].duplicate();
            let ghost xs = x@;
            let ghost before = views(out@);
            let ghost done = self@.subrange(0, i as int);
            assert(xs == self@[i as int]);
            assert(xs.seq == i);
            let mut k: usize = 0;
            while k < out.len() && out[k].timestamp() > x.timestamp()
                invariant
                    k <= out@.len(),
                    before == views(out@),
                    xs == x@,
                    forall|m: int| 0 <= m < k ==> precedes(#[trigger] before[m], xs),
                decreases out@.len() - k,
            {
                assert(before[k as int] == out@[k as int]@);
                k = k + 1;
            }
            proof {
                assert forall|m: int| 0 <= m < before.len() implies (#[trigger] before[m]).seq
                    < i by {
                    assert(done.contains(before[m]));
                    let j = choose|j: int| 0 <= j < done.len() && done[j] == before[m];
                    assert(self@[j] == done[j]);
                }
                assert forall|m: int| k <= m < before.len() implies precedes(
                    xs,
                    #[trigger] before[m],
                ) by {
                    if m > k {
                        assert(precedes(before[k as int], before[m]));
                    }
                }
            }
            out.insert(k, x);
            proof {
                let after = views(out@);
                let next = self@.subrange(0, i + 1);
                assert(after =~= before.insert(k as int, xs));
                assert(next =~= done.push(xs));
                assert forall|k1: int| 0 <= k1 < after.len() implies next.contains(
                    #[trigger] after[k1],
                ) by {
                    if k1 < k {
                        assert(done.contains(before[k1]));
                    } else if k1 > k {
                        assert(done.contains(before[k1 - 1]));
                    } else {
                        assert(next[i as int] == xs);
                    }
                }
                assert forall|i1: int| 0 <= i1 < next.len() implies after.contains(
                    #[trigger] next[i1],
                ) by {
                    if i1 < i {
                        assert(next[i1] == done[i1]);
                        assert(before.contains(done[i1]));
                        let j = choose|j: int| 0 <= j < before.len() && before[j] == done[i1];
                        if j < k {
                            assert(after[j] == before[j]);
                        } else {
                            assert(after[j + 1] == before[j]);
                        }
                    } else {
                        assert(after[k as int] == xs);
                    }
                }
            }
            i = i + 1;
        }
        assert(self@.subrange(0, i as int) =~= self@);
        out
    }
}

} // verus!
