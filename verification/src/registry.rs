//! The interactable registry: the sole authority on which identities are
//! currently interactive. A registry maps each identity to its hit-region
//! and stacking priority; its view is that mapping as a `Map`.
//!
//! The hit-test resolver also lives here: given a 3D point it projects
//! into region space, collects the candidate identities whose region
//! contains the point, and picks the one with the highest priority,
//! breaking ties deterministically in favour of the lowest identity.

use vstd::prelude::*;

use crate::geometry::{flatten, region_contains, Region, P2, P3};

verus! {

/// The identity of an interactable: opaque, globally unique, owned by
/// some external component.
#[derive(Clone, Copy, Debug, PartialEq, Eq, Hash, Structural)]
pub struct Id(pub u64);

/// One registered interactable: its identity, hit-region, and stacking
/// priority (higher `z_index` wins).
#[derive(Clone, Copy, Debug, PartialEq, Eq, Structural)]
pub struct Interactable {
    pub id: Id,
    pub region: Region,
    pub z_index: usize,
}

/// No two entries share an identity.
spec fn unique_ids(s: Seq<Interactable>) -> bool {
    forall|i: int, j: int| 0 <= i < j < s.len() ==> s[i].id != s[j].id
}

/// The mapping that a sequence of entries denotes; a later entry for the
/// same identity overrides an earlier one.
spec fn map_of(s: Seq<Interactable>) -> Map<Id, (Region, usize)>
    decreases s.len(),
{
    if s.len() == 0 {
        Map::empty()
    } else {
        map_of(s.drop_last()).insert(s.last().id, (s.last().region, s.last().z_index))
    }
}

/// An identity is in the denoted mapping exactly when some entry carries it.
proof fn lemma_map_of_contains(s: Seq<Interactable>, k: Id)
    ensures
        map_of(s).contains_key(k) <==> exists|i: int| 0 <= i < s.len() && s[i].id == k,
    decreases s.len(),
{
    if s.len() > 0 {
        lemma_map_of_contains(s.drop_last(), k);
        if s.last().id == k {
            assert(s[s.len() - 1].id == k);
        } else {
            if exists|i: int| 0 <= i < s.len() && s[i].id == k {
                let i = choose|i: int| 0 <= i < s.len() && s[i].id == k;
                assert(s.drop_last()[i] == s[i]);
            }
            if exists|i: int| 0 <= i < s.drop_last().len() && s.drop_last()[i].id == k {
                let i = choose|i: int| 0 <= i < s.drop_last().len() && s.drop_last()[i].id == k;
                assert(s[i] == s.drop_last()[i]);
            }
        }
    }
}

/// Dropping the last entry keeps the identities unique.
proof fn lemma_unique_drop_last(s: Seq<Interactable>)
    requires
        unique_ids(s),
        s.len() > 0,
    ensures
        unique_ids(s.drop_last()),
{
    assert forall|i: int, j: int|
        0 <= i < j < s.drop_last().len() implies s.drop_last()[i].id != s.drop_last()[j].id by {
        assert(s.drop_last()[i] == s[i]);
        assert(s.drop_last()[j] == s[j]);
    }
}

/// With unique identities, each entry is the one the mapping records.
proof fn lemma_map_of_index(s: Seq<Interactable>, i: int)
    requires
        unique_ids(s),
        0 <= i < s.len(),
    ensures
        map_of(s).contains_key(s[i].id),
        map_of(s)[s[i].id] == (s[i].region, s[i].z_index),
    decreases s.len(),
{
    if i == s.len() - 1 {
        assert(s.last() == s[i]);
    } else {
        lemma_unique_drop_last(s);
        assert(s.drop_last()[i] == s[i]);
        lemma_map_of_index(s.drop_last(), i);
        assert(s.last().id != s[i].id);
    }
}

/// Appending an entry inserts it into the denoted mapping.
proof fn lemma_map_of_push(s: Seq<Interactable>, e: Interactable)
    ensures
        map_of(s.push(e)) == map_of(s).insert(e.id, (e.region, e.z_index)),
{
    assert(s.push(e).drop_last() =~= s);
    assert(s.push(e).last() == e);
}

/// Removing the entry at an index removes its identity from the mapping.
proof fn lemma_map_of_remove(s: Seq<Interactable>, i: int)
    requires
        unique_ids(s),
        0 <= i < s.len(),
    ensures
        map_of(s.remove(i)) == map_of(s).remove(s[i].id),
    decreases s.len(),
{
    let k = s[i].id;
    if i == s.len() - 1 {
        lemma_unique_drop_last(s);
        lemma_map_of_contains(s.drop_last(), k);
        assert forall|j: int| 0 <= j < s.drop_last().len() implies s.drop_last()[j].id != k by {
            assert(s.drop_last()[j] == s[j]);
        }
        assert(s.remove(i) =~= s.drop_last());
        assert(map_of(s.drop_last()).remove(k) =~= map_of(s.drop_last()));
        assert(map_of(s).remove(k) =~= map_of(s.drop_last()).remove(k));
    } else {
        let t = s.drop_last();
        let e = s.last();
        lemma_unique_drop_last(s);
        lemma_map_of_remove(t, i);
        assert(t[i] == s[i]);
        assert(s.remove(i).drop_last() =~= t.remove(i));
        assert(s.remove(i).last() == e);
        assert(map_of(s.remove(i)) == map_of(t.remove(i)).insert(e.id, (e.region, e.z_index)));
        assert(e.id != k);
        assert(map_of(t).remove(k).insert(e.id, (e.region, e.z_index)) =~= map_of(t).insert(
            e.id,
            (e.region, e.z_index),
        ).remove(k));
    }
}

/// With unique identities, the mapping has exactly one key per entry.
proof fn lemma_map_of_len(s: Seq<Interactable>)
    requires
        unique_ids(s),
    ensures
        map_of(s).dom().finite(),
        map_of(s).dom().len() == s.len(),
    decreases s.len(),
{
    if s.len() == 0 {
        assert(map_of(s).dom() =~= Set::<Id>::empty());
    } else {
        let t = s.drop_last();
        let e = s.last();
        lemma_unique_drop_last(s);
        lemma_map_of_len(t);
        lemma_map_of_contains(t, e.id);
        assert forall|j: int| 0 <= j < t.len() implies t[j].id != e.id by {
            assert(t[j] == s[j]);
        }
        assert(map_of(s).dom() =~= map_of(t).dom().insert(e.id));
        vstd::set::axiom_set_insert_len(map_of(t).dom(), e.id);
    }
}

/// The interactable registry. At most one entry per identity.
pub struct Registry {
    entries: Vec<Interactable>,
}

impl View for Registry {
    type V = Map<Id, (Region, usize)>;

    closed spec fn view(&self) -> Map<Id, (Region, usize)> {
        map_of(self.entries@)
    }
}

/// `id` is under the pointer at `p`: it is registered and its region
/// contains the projection of `p` into region space.
pub open spec fn is_candidate(m: Map<Id, (Region, usize)>, p: P3, id: Id) -> bool {
    m.contains_key(id) && region_contains(m[id].0, flatten(p))
}

/// `a` is preferred over `b` by the resolver: strictly higher priority,
/// or equal priority and lower identity.
pub open spec fn beats(m: Map<Id, (Region, usize)>, a: Id, b: Id) -> bool {
    m[a].1 > m[b].1 || (m[a].1 == m[b].1 && a.0 < b.0)
}

/// `a` is the candidate the resolver must pick at `p`: it is a candidate
/// and is preferred over every other candidate.
pub open spec fn is_best(m: Map<Id, (Region, usize)>, p: P3, a: Id) -> bool {
    is_candidate(m, p, a) && forall|o: Id| is_candidate(m, p, o) && o != a ==> beats(m, a, o)
}

/// Law: in a registry holding exactly one interactable, a point whose
/// projection its region contains resolves to that identity, and a point
/// its region does not contain is no candidate at all, so the resolver
/// returns none for it.
pub proof fn lemma_register_then_hit(id: Id, region: Region, z_index: usize, p: P3)
    ensures
        region_contains(region, flatten(p)) ==> is_best(
            Map::<Id, (Region, usize)>::empty().insert(id, (region, z_index)),
            p,
            id,
        ),
        !region_contains(region, flatten(p)) ==> (forall|o: Id|
            !is_candidate(Map::<Id, (Region, usize)>::empty().insert(id, (region, z_index)), p, o)),
{
    let m = Map::<Id, (Region, usize)>::empty().insert(id, (region, z_index));
    assert forall|o: Id| is_candidate(m, p, o) implies o == id && region_contains(
        region,
        flatten(p),
    ) by {
        assert(m.dom() =~= Set::<Id>::empty().insert(id));
    }
}

/// Law: once an identity is unregistered it is no hit-test candidate, so
/// no resolution picks it; and removing it again changes nothing.
pub proof fn lemma_unregister_absent(m: Map<Id, (Region, usize)>, id: Id, p: P3)
    ensures
        !is_candidate(m.remove(id), p, id),
        forall|h: Id| is_best(m.remove(id), p, h) ==> h != id,
        m.remove(id).remove(id) == m.remove(id),
{
    assert(!m.remove(id).contains_key(id));
    assert forall|h: Id| is_best(m.remove(id), p, h) implies h != id by {
        assert(is_candidate(m.remove(id), p, h));
    }
    assert(m.remove(id).remove(id) =~= m.remove(id));
}

/// Law: a candidate whose priority is strictly above every other
/// candidate's is the resolver's choice.
pub proof fn lemma_highest_priority_wins(m: Map<Id, (Region, usize)>, p: P3, w: Id)
    requires
        is_candidate(m, p, w),
        forall|o: Id| is_candidate(m, p, o) && o != w ==> m[o].1 < m[w].1,
    ensures
        is_best(m, p, w),
{
}

/// The resolver's choice is deterministic: at most one identity is best.
pub proof fn lemma_best_unique(m: Map<Id, (Region, usize)>, p: P3, a: Id, b: Id)
    requires
        is_best(m, p, a),
        is_best(m, p, b),
    ensures
        a == b,
{
    if a != b {
        assert(beats(m, a, b));
        assert(beats(m, b, a));
    }
}

impl Registry {
    /// The registry's internal invariant: entry identities are unique.
    pub closed spec fn wf(&self) -> bool {
        unique_ids(self.entries@)
    }

    /// An empty registry.
    pub fn new() -> (r: Registry)
        ensures
            r.wf(),
            r@ == Map::<Id, (Region, usize)>::empty(),
    {
        Registry { entries: Vec::new() }
    }

    /// How many interactables are registered.
    pub fn len(&self) -> (n: usize)
        requires
            self.wf(),
        ensures
            n == self@.dom().len(),
    {
        proof {
            lemma_map_of_len(self.entries@);
        }
        self.entries.len()
    }

    /// Remove the entry for `id`; removing an absent identity is a no-op.
    pub fn unregister(&mut self, id: Id)
        requires
            old(self).wf(),
        ensures
            final(self).wf(),
            final(self)@ == old(self)@.remove(id),
            !old(self)@.contains_key(id) ==> final(self)@ == old(self)@,
    {
        let ghost s0 = self.entries@;
        let n = self.entries.len();
        let mut i: usize = 0;
        while i < n
            invariant
                self.entries@ == s0,
                s0 == old(self).entries@,
                unique_ids(s0),
                n == s0.len(),
                i <= n,
                forall|j: int| 0 <= j < i ==> s0[j].id != id,
            decreases n - i,
        {
            if self.entries[i].id == id {
                self.entries.remove(i);
                proof {
                    lemma_map_of_remove(s0, i as int);
                    lemma_map_of_contains(s0, id);
                    assert(s0[i as int].id == id);
                    assert(self.entries@ == s0.remove(i as int));
                    assert(self@ == old(self)@.remove(id));
                    assert forall|a: int, b: int|
                        0 <= a < b < self.entries@.len() implies self.entries@[a].id
                        != self.entries@[b].id by {
                        if b < i {
                            assert(self.entries@[a] == s0[a]);
                            assert(self.entries@[b] == s0[b]);
                        } else if a < i {
                            assert(self.entries@[a] == s0[a]);
                            assert(self.entries@[b] == s0[b + 1]);
                        } else {
                            assert(self.entries@[a] == s0[a + 1]);
                            assert(self.entries@[b] == s0[b + 1]);
                        }
                    }
                }
                return ;
            }
            i = i + 1;
        }
        proof {
            lemma_map_of_contains(s0, id);
            assert(!map_of(s0).contains_key(id));
            assert(map_of(s0).remove(id) =~= map_of(s0));
        }
    }

    /// Insert or replace the entry for `id`; a duplicate identity is
    /// overwritten silently (last write wins), so the registry never
    /// grows when an identity is re-registered.
    pub fn register(&mut self, id: Id, region: Region, z_index: usize)
        requires
            old(self).wf(),
        ensures
            final(self).wf(),
            final(self)@ == old(self)@.insert(id, (region, z_index)),
            old(self)@.contains_key(id) ==> final(self)@.dom().len() == old(self)@.dom().len(),
            !old(self)@.contains_key(id) ==> final(self)@.dom().len() == old(self)@.dom().len()
                + 1,
    {
        proof {
            lemma_map_of_len(old(self).entries@);
        }
        self.unregister(id);
        let ghost s1 = self.entries@;
        proof {
            lemma_map_of_contains(s1, id);
        }
        self.entries.push(Interactable { id, region, z_index });
        proof {
            lemma_map_of_push(s1, Interactable { id, region, z_index });
            assert forall|a: int, b: int|
                0 <= a < b < self.entries@.len() implies self.entries@[a].id
                != self.entries@[b].id by {
                assert(self.entries@[a] == s1.push(Interactable { id, region, z_index })[a]);
                if b < s1.len() {
                    assert(self.entries@[b] == s1[b]);
                } else {
                    assert(self.entries@[b].id == id);
                    assert(!map_of(s1).contains_key(id));
                }
            }
            assert(self@ == map_of(s1).insert(id, (region, z_index)));
            assert(map_of(s1).insert(id, (region, z_index)) =~= old(self)@.insert(
                id,
                (region, z_index),
            ));
            lemma_map_of_len(self.entries@);
            lemma_map_of_len(s1);
            if old(self)@.contains_key(id) {
                assert(s1.len() == old(self).entries@.len() - 1);
            } else {
                assert(s1.len() == old(self).entries@.len());
            }
        }
    }

    /// The set of identities whose region contains `p` (region space).
    /// The result lists each candidate exactly once.
    pub fn query_candidates(&self, p: P2) -> (r: Vec<Id>)
        requires
            self.wf(),
        ensures
            forall|id: Id|
                r@.contains(id) <==> (self@.contains_key(id) && region_contains(self@[id].0, p)),
            forall|a: int, b: int| 0 <= a < b < r@.len() ==> r@[a] != r@[b],
    {
        let ghost s = self.entries@;
        let n = self.entries.len();
        let mut r: Vec<Id> = Vec::new();
        let mut i: usize = 0;
        while i < n
            invariant
                self.entries@ == s,
                self@ == map_of(s),
                unique_ids(s),
                n == s.len(),
                i <= n,
                forall|k: int|
                    0 <= k < r@.len() ==> self@.contains_key(#[trigger] r@[k]) && region_contains(
                        self@[r@[k]].0,
                        p,
                    ),
                forall|j: int|
                    0 <= j < i && region_contains(#[trigger] s[j].region, p) ==> r@.contains(
                        s[j].id,
                    ),
                forall|j: int| i <= j < n ==> !r@.contains(#[trigger] s[j].id),
                forall|a: int, b: int| 0 <= a < b < r@.len() ==> r@[a] != r@[b],
            decreases n - i,
        {
            let e = self.entries[i];
            if e.region.contains(p) {
                let ghost r0 = r@;
                r.push(e.id);
                proof {
                    assert(e == s[i as int]);
                    assert(!r0.contains(s[i as int].id));
                    lemma_map_of_index(s, i as int);
                    assert forall|j: int|
                        0 <= j < i + 1 && region_contains(
                            #[trigger] s[j].region,
                            p,
                        ) implies r@.contains(s[j].id) by {
                        if j < i {
                            let k = choose|k: int| 0 <= k < r0.len() && r0[k] == s[j].id;
                            assert(r@[k] == s[j].id);
                        } else {
                            assert(r@[r@.len() - 1] == s[j].id);
                        }
                    }
                    assert forall|j: int| i + 1 <= j < n implies !r@.contains(
                        #[trigger] s[j].id,
                    ) by {
                        if r@.contains(s[j].id) {
                            let k = choose|k: int| 0 <= k < r@.len() && r@[k] == s[j].id;
                            if k < r0.len() {
                                assert(r0[k] == s[j].id);
                                assert(r0.contains(s[j].id));
                            } else {
                                assert(s[i as int].id == s[j].id);
                            }
                        }
                    }
                }
            }
            i = i + 1;
        }
        proof {
            assert forall|id: Id|
                r@.contains(id) <==> (self@.contains_key(id) && region_contains(
                    self@[id].0,
                    p,
                )) by {
                if r@.contains(id) {
                    let k = choose|k: int| 0 <= k < r@.len() && r@[k] == id;
                    assert(self@.contains_key(r@[k]) && region_contains(self@[r@[k]].0, p));
                }
                if self@.contains_key(id) && region_contains(self@[id].0, p) {
                    lemma_map_of_contains(s, id);
                    let j = choose|j: int| 0 <= j < s.len() && s[j].id == id;
                    lemma_map_of_index(s, j);
                }
            }
        }
        r
    }

    /// Resolve which interactable is under the pointer at the 3D point
    /// `p`: none if no region contains its projection, otherwise the
    /// best candidate (highest priority, ties to the lowest identity).
    pub fn hit_test_3d(&self, p: P3) -> (r: Option<Id>)
        requires
            self.wf(),
        ensures
            (r is None) <==> (forall|id: Id| !is_candidate(self@, p, id)),
            r matches Some(id) ==> is_best(self@, p, id),
    {
        let ghost s = self.entries@;
        let fp = p.into_2d();
        let n = self.entries.len();
        let mut best_id: Option<Id> = None;
        let mut best_z: usize = 0;
        let mut i: usize = 0;
        while i < n
            invariant
                self.entries@ == s,
                self@ == map_of(s),
                unique_ids(s),
                n == s.len(),
                i <= n,
                fp == flatten(p),
                best_id is None ==> forall|j: int|
                    0 <= j < i ==> !region_contains(#[trigger] s[j].region, fp),
                best_id matches Some(b) ==> exists|j: int|
                    0 <= j < i && s[j].id == b && s[j].z_index == best_z && region_contains(
                        s[j].region,
                        fp,
                    ),
                best_id matches Some(b) ==> forall|j: int|
                    0 <= j < i && region_contains(#[trigger] s[j].region, fp) && s[j].id != b
                        ==> (best_z > s[j].z_index || (best_z == s[j].z_index && b.0 < s[j].id.0)),
            decreases n - i,
        {
            let e = self.entries[i];
            if e.region.contains(fp) {
                match best_id {
                    None => {
                        best_id = Some(e.id);
                        best_z = e.z_index;
                    },
                    Some(b) => {
                        if e.z_index > best_z || (e.z_index == best_z && e.id.0 < b.0) {
                            proof {
                                let j = choose|j: int|
                                    0 <= j < i && s[j].id == b && s[j].z_index == best_z
                                        && region_contains(s[j].region, fp);
                                assert(s[j].id != s[i as int].id);
                            }
                            best_id = Some(e.id);
                            best_z = e.z_index;
                        }
                    },
                }
            }
            i = i + 1;
        }
        proof {
            match best_id {
                None => {
                    assert forall|id: Id| !is_candidate(self@, p, id) by {
                        lemma_map_of_contains(s, id);
                        if self@.contains_key(id) {
                            let j = choose|j: int| 0 <= j < s.len() && s[j].id == id;
                            lemma_map_of_index(s, j);
                        }
                    }
                },
                Some(b) => {
                    let j = choose|j: int|
                        0 <= j < n && s[j].id == b && s[j].z_index == best_z && region_contains(
                            s[j].region,
                            fp,
                        );
                    lemma_map_of_index(s, j);
                    assert(is_candidate(self@, p, b));
                    assert forall|o: Id|
                        is_candidate(self@, p, o) && o != b implies beats(self@, b, o) by {
                        lemma_map_of_contains(s, o);
                        let k = choose|k: int| 0 <= k < s.len() && s[k].id == o;
                        lemma_map_of_index(s, k);
                    }
                },
            }
        }
        best_id
    }
}

} // verus!
