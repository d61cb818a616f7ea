//! The RPC remap table: which client and which original id stand behind each
//! wire id in flight, and when each of them expires.

use crate::route::DeviceRoute;
use std::collections::BTreeMap;
use std::collections::HashMap;
use std::collections::HashSet;
use vstd::prelude::*;
use vstd::std_specs::cmp::OrdSpec;
use vstd::std_specs::iter::IteratorSpec;

verus! {

/// What the proxy remembers of one request that it forwarded to the device.
#[derive(Debug, PartialEq, Eq)]
pub struct RpcMapEntry {
    /// The id the client chose.
    pub id: u16,
    /// The client that sent the request; 0 for the proxy's own requests.
    pub client: u64,
    /// The absolute route the request was sent to.
    pub route: DeviceRoute,
    /// The instant at which the request is given up.
    pub timeout: u64,
}

pub struct EntryView {
    pub id: u16,
    pub client: u64,
    pub route: Seq<u8>,
    pub deadline: u64,
}

impl View for RpcMapEntry {
    type V = EntryView;

    open spec fn view(&self) -> EntryView {
        EntryView { id: self.id, client: self.client, route: self.route@, deadline: self.timeout }
    }
}

/// The primary map and the deadline index hold the same wire ids, each under
/// the deadline stored with it, and the index has no empty bucket.
pub open spec fn consistent(entries: Map<u16, EntryView>, index: Map<u64, Set<u16>>) -> bool {
    &&& entries.dom().finite()
    &&& index.dom().finite()
    &&& forall|w: u16| #[trigger]
        entries.contains_key(w) ==> index.contains_key(entries[w].deadline)
            && index[entries[w].deadline].contains(w)
    &&& forall|d: u64, w: u16|
        index.contains_key(d) && #[trigger] index[d].contains(w) ==> entries.contains_key(w)
            && entries[w].deadline == d
    &&& forall|d: u64| #[trigger]
        index.contains_key(d) ==> index[d].finite() && index[d].len() > 0
}

/// The wire ids whose deadline is `until` or earlier.
pub open spec fn expired(entries: Map<u16, EntryView>, until: u64) -> Set<u16> {
    Set::new(|w: u16| entries.contains_key(w) && entries[w].deadline <= until)
}

/// `order` lists every wire id that expires by `until` once, earliest deadline first.
pub open spec fn is_expiry_order(entries: Map<u16, EntryView>, until: u64, order: Seq<u16>) -> bool {
    &&& order.no_duplicates()
    &&& forall|w: u16| order.contains(w) <==> expired(entries, until).contains(w)
    &&& forall|i: int, j: int|
        0 <= i < j < order.len() ==> entries[order[i]].deadline <= entries[order[j]].deadline
}

/// Wire ids in flight, indexed twice: by id, and by deadline.
pub struct RemapTable {
    rpc_map: HashMap<u16, RpcMapEntry>,
    rpc_timeouts: BTreeMap<u64, HashSet<u16>>,
}

impl RemapTable {
    /// The primary map: each wire id in flight with what is remembered of it.
    pub closed spec fn entries(&self) -> Map<u16, EntryView> {
        self.rpc_map@.map_values(|e: RpcMapEntry| e@)
    }

    /// The deadline index: for each deadline, the wire ids that expire then.
    pub closed spec fn index(&self) -> Map<u64, Set<u16>> {
        self.rpc_timeouts@.map_values(|ids: HashSet<u16>| ids@)
    }

    pub open spec fn wf(&self) -> bool {
        consistent(self.entries(), self.index())
    }

    pub fn new() -> (t: RemapTable)
        ensures
            t.wf(),
            t.entries() == Map::<u16, EntryView>::empty(),
            t.index() == Map::<u64, Set<u16>>::empty(),
    {
        broadcast use vstd::std_specs::hash::group_hash_axioms;

        let t = RemapTable { rpc_map: HashMap::new(), rpc_timeouts: BTreeMap::new() };
        assert(t.entries() =~= Map::<u16, EntryView>::empty());
        assert(t.index() =~= Map::<u64, Set<u16>>::empty());
        t
    }

    /// Number of wire ids in flight.
    pub fn len(&self) -> (n: usize)
        ensures
            n == self.entries().len(),
    {
        broadcast use vstd::std_specs::hash::group_hash_axioms;

        assert(self.entries().dom() =~= self.rpc_map@.dom());
        self.rpc_map.len()
    }

    pub fn is_empty(&self) -> (b: bool)
        requires
            self.wf(),
        ensures
            b == (self.entries().len() == 0),
            b == (self.entries() == Map::<u16, EntryView>::empty()),
    {
        broadcast use vstd::std_specs::hash::group_hash_axioms;

        assert(self.entries().dom() =~= self.rpc_map@.dom());
        let n = self.rpc_map.len();
        proof {
            if n == 0 {
                self.entries().dom().lemma_len0_is_empty();
                assert(self.entries() =~= Map::<u16, EntryView>::empty());
            }
        }
        n == 0
    }

    /// Whether `wire_id` is in flight.
    pub fn contains(&self, wire_id: u16) -> (b: bool)
        ensures
            b == self.entries().contains_key(wire_id),
    {
        broadcast use vstd::std_specs::hash::group_hash_axioms;

        self.rpc_map.contains_key(&wire_id)
    }

    /// What is remembered of `wire_id`, if it is in flight.
    pub fn get(&self, wire_id: u16) -> (r: Option<&RpcMapEntry>)
        ensures
            match r {
                Some(e) => self.entries().contains_key(wire_id) && e@ == self.entries()[wire_id],
                None => !self.entries().contains_key(wire_id),
            },
    {
        broadcast use vstd::std_specs::hash::group_hash_axioms;

        self.rpc_map.get(&wire_id)
    }

    /// Records `entry` under `wire_id`, in the primary map and under its
    /// deadline in the index. A wire id that is still in flight is never
    /// overwritten: the entry comes back and the table stays as it was.
    pub fn insert(&mut self, wire_id: u16, entry: RpcMapEntry) -> (r: Result<(), RpcMapEntry>)
        requires
            old(self).wf(),
        ensures
            final(self).wf(),
            match r {
                Ok(_) => !old(self).entries().contains_key(wire_id) && final(self).entries()
                    == old(self).entries().insert(wire_id, entry@) && final(self).index()
                    == index_with(old(self).index(), wire_id, entry.timeout),
                Err(e) => old(self).entries().contains_key(wire_id) && e == entry
                    && final(self).entries() == old(self).entries() && final(self).index() == old(
                    self,
                ).index(),
            },
    {
        broadcast use vstd::std_specs::hash::group_hash_axioms;
        broadcast use vstd::laws_cmp::group_laws_cmp;

        if self.rpc_map.contains_key(&wire_id) {
            return Err(entry);
        }
        let deadline = entry.timeout;
        let ghost e0 = self.entries();
        let ghost i0 = self.index();
        let ghost ev = entry@;
        self.rpc_map.insert(wire_id, entry);
        let mut ids = match self.rpc_timeouts.remove(&deadline) {
            Some(ids) => ids,
            None => HashSet::new(),
        };
        let ghost before = ids@;
        ids.insert(wire_id);
        self.rpc_timeouts.insert(deadline, ids);
        proof {
            assert(self.entries() =~= e0.insert(wire_id, ev));
            assert(before =~= if i0.contains_key(deadline) {
                i0[deadline]
            } else {
                Set::<u16>::empty()
            });
            assert(self.index() =~= i0.insert(deadline, before.insert(wire_id)));
            lemma_insert_consistent(e0, i0, wire_id, ev);
        }
        Ok(())
    }

    /// Forgets `wire_id`, in the primary map and in the index, and hands back
    /// what was remembered of it.
    pub fn remove(&mut self, wire_id: u16) -> (r: Option<RpcMapEntry>)
        requires
            old(self).wf(),
        ensures
            final(self).wf(),
            match r {
                Some(e) => old(self).entries().contains_key(wire_id) && e@ == old(
                    self,
                ).entries()[wire_id] && final(self).entries() == old(self).entries().remove(
                    wire_id,
                ) && final(self).index() == index_without(old(self).index(), wire_id, e.timeout),
                None => !old(self).entries().contains_key(wire_id) && final(self).entries() == old(
                    self,
                ).entries() && final(self).index() == old(self).index(),
            },
    {
        broadcast use vstd::std_specs::hash::group_hash_axioms;
        broadcast use vstd::laws_cmp::group_laws_cmp;

        let ghost e0 = self.entries();
        let ghost i0 = self.index();
        let entry = match self.rpc_map.remove(&wire_id) {
            None => {
                assert(self.entries() =~= e0);
                return None;
            },
            Some(e) => e,
        };
        let deadline = entry.timeout;
        assert(e0.contains_key(wire_id) && e0[wire_id] == entry@);
        assert(i0.contains_key(deadline) && i0[deadline].contains(wire_id));
        match self.rpc_timeouts.remove(&deadline) {
            Some(ids) => {
                let mut ids = ids;
                let ghost before = ids@;
                ids.remove(&wire_id);
                assert(ids@ =~= before.remove(wire_id));
                assert(before =~= i0[deadline]);
                if ids.len() != 0 {
                    self.rpc_timeouts.insert(deadline, ids);
                    assert(self.index() =~= i0.insert(deadline, i0[deadline].remove(wire_id)));
                } else {
                    assert(i0[deadline].remove(wire_id).len() == 0);
                    assert(self.index() =~= i0.remove(deadline));
                }
            },
            None => {},
        }
        proof {
            assert(self.entries() =~= e0.remove(wire_id));
            lemma_remove_consistent(e0, i0, wire_id);
        }
        Some(entry)
    }

    /// The earliest deadline in the table, with one of the wire ids that expire then.
    pub fn earliest(&self) -> (r: Option<(u64, u16)>)
        requires
            self.wf(),
        ensures
            r is None <==> self.entries().len() == 0,
            r matches Some((d, w)) ==> self.entries().contains_key(w) && self.entries()[w].deadline
                == d && forall|v: u16| #[trigger]
                self.entries().contains_key(v) ==> d <= self.entries()[v].deadline,
    {
        broadcast use vstd::std_specs::hash::group_hash_axioms;

        assert(self.index().dom() =~= self.rpc_timeouts@.dom());
        match first_deadline(&self.rpc_timeouts) {
            None => {
                proof {
                    if self.entries().len() != 0 {
                        let w = self.entries().dom().choose();
                        assert(self.entries().contains_key(w));
                        assert(self.index().contains_key(self.entries()[w].deadline));
                    }
                }
                None
            },
            Some(d) => {
                assert(self.index().contains_key(d));
                let found = match lookup_bucket(&self.rpc_timeouts, d) {
                    Some(ids) => any_member(ids),
                    None => None,
                };
                proof {
                    if let Some(w) = found {
                        assert(self.index()[d].contains(w));
                        assert forall|v: u16| #[trigger]
                            self.entries().contains_key(v) implies d <= self.entries()[v].deadline by {
                            assert(self.index().contains_key(self.entries()[v].deadline));
                        }
                    }
                }
                match found {
                    Some(w) => Some((d, w)),
                    None => None,
                }
            },
        }
    }

    /// The earliest deadline in the table.
    pub fn next_deadline(&self) -> (r: Option<u64>)
        requires
            self.wf(),
        ensures
            r is None <==> self.entries().len() == 0,
            r matches Some(d) ==> (exists|w: u16|
                self.entries().contains_key(w) && self.entries()[w].deadline == d) && forall|
                v: u16,
            | #[trigger] self.entries().contains_key(v) ==> d <= self.entries()[v].deadline,
    {
        match self.earliest() {
            Some((d, _w)) => Some(d),
            None => None,
        }
    }

    /// Takes out every wire id whose deadline is `until` or earlier, and
    /// hands them back with what was remembered of each, earliest deadline
    /// first. Ids with the same deadline come in no particular order.
    pub fn expire_until(&mut self, until: u64) -> (out: Vec<(u16, RpcMapEntry)>)
        requires
            old(self).wf(),
        ensures
            final(self).wf(),
            final(self).entries() == old(self).entries().remove_keys(
                expired(old(self).entries(), until),
            ),
            is_expiry_order(old(self).entries(), until, wire_ids(out@)),
            forall|i: int|
                0 <= i < out@.len() ==> (#[trigger] out@[i]).1@ == old(self).entries()[out@[i].0],
    {
        let ghost e0 = self.entries();
        let mut out: Vec<(u16, RpcMapEntry)> = Vec::new();
        let mut done = false;
        assert(self.entries() =~= e0.remove_keys(wire_ids(out@).to_set()));
        while !done
            invariant
                self.wf(),
                e0.dom().finite(),
                self.entries() == e0.remove_keys(wire_ids(out@).to_set()),
                wire_ids(out@).no_duplicates(),
                forall|i: int|
                    0 <= i < out@.len() ==> e0.contains_key((#[trigger] out@[i]).0) && out@[i].1@
                        == e0[out@[i].0] && e0[out@[i].0].deadline <= until,
                forall|i: int, j: int|
                    0 <= i < j < out@.len() ==> e0[(#[trigger] out@[i]).0].deadline <= e0[(
                    #[trigger] out@[j]).0].deadline,
                forall|i: int, w: u16|
                    0 <= i < out@.len() && #[trigger] self.entries().contains_key(w) ==> e0[(
                    #[trigger] out@[i]).0].deadline <= e0[w].deadline,
                done ==> forall|w: u16| #[trigger]
                    self.entries().contains_key(w) ==> self.entries()[w].deadline > until,
            decreases self.entries().len() + if done { 0nat } else { 1nat },
        {
            let ghost e1 = self.entries();
            let ghost ids1 = wire_ids(out@);
            match self.earliest() {
                None => {
                    done = true;
                },
                Some((d, w)) => {
                    if d > until {
                        done = true;
                    } else {
                        match self.remove(w) {
                            Some(e) => {
                                out.push((w, e));
                                proof {
                                    let ids2 = wire_ids(out@);
                                    assert(ids2 =~= ids1.push(w));
                                    assert(!ids1.contains(w));
                                    assert forall|x: u16| ids2.contains(x) <==> (ids1.contains(x)
                                        || x == w) by {
                                        if ids1.contains(x) {
                                            let i = choose|i: int|
                                                0 <= i < ids1.len() && ids1[i] == x;
                                            assert(ids2[i] == x);
                                        }
                                        if x == w {
                                            assert(ids2[ids1.len() as int] == w);
                                        }
                                        if ids2.contains(x) {
                                            let i = choose|i: int|
                                                0 <= i < ids2.len() && ids2[i] == x;
                                            if i < ids1.len() {
                                                assert(ids1[i] == x);
                                            }
                                        }
                                    }
                                    assert(ids2.to_set() =~= ids1.to_set().insert(w));
                                    assert(self.entries() =~= e0.remove_keys(ids2.to_set()));
                                    assert(e1.dom().remove(w) =~= self.entries().dom());
                                }
                            },
                            None => {
                                done = true;
                            },
                        }
                    }
                },
            }
        }
        proof {
            let ids = wire_ids(out@);
            assert forall|w: u16| ids.contains(w) <==> expired(e0, until).contains(w) by {
                if ids.contains(w) {
                    let i = choose|i: int| 0 <= i < ids.len() && ids[i] == w;
                    assert(out@[i].0 == w);
                }
                if expired(e0, until).contains(w) && !ids.contains(w) {
                    assert(self.entries().contains_key(w));
                }
            }
            assert(ids.to_set() =~= expired(e0, until));
            assert forall|i: int, j: int| 0 <= i < j < ids.len() implies e0[ids[i]].deadline
                <= e0[ids[j]].deadline by {
                assert(out@[i].0 == ids[i] && out@[j].0 == ids[j]);
            }
        }
        out
    }
}

/// The wire ids of a list of removed entries, in the same order.
pub open spec fn wire_ids(removed: Seq<(u16, RpcMapEntry)>) -> Seq<u16> {
    removed.map_values(|p: (u16, RpcMapEntry)| p.0)
}

/// The smallest key of `index`.
fn first_deadline(index: &BTreeMap<u64, HashSet<u16>>) -> (r: Option<u64>)
    ensures
        r is None <==> index@.dom().len() == 0,
        r matches Some(d) ==> index@.contains_key(d) && forall|j: u64|
            index@.contains_key(j) ==> d <= j,
{
    broadcast use vstd::laws_cmp::group_laws_cmp;

    proof {
        vstd::std_specs::btree::axiom_spec_keys_iter(index);
    }
    for k in it: index.keys()
        invariant
            it.seq() == index.keys().remaining(),
            it.seq().unref().to_set() == index@.dom(),
            it.seq().no_duplicates(),
            vstd::std_specs::btree::increasing_seq(it.seq()),
            it.index() == 0,
    {
        proof {
            let s = it.seq();
            vstd::std_specs::btree::axiom_increasing_seq_meaning::<&u64>(s);
            assert(s.unref()[0] == *k);
            assert(s.unref().to_set().contains(*k));
            assert forall|j: u64| index@.contains_key(j) implies *k <= j by {
                assert(s.unref().to_set().contains(j));
                let i = choose|i: int| 0 <= i < s.len() && s.unref()[i] == j;
                if i > 0 {
                    assert((&s[0]).cmp_spec(&&s[i]) is Less);
                }
            }
        }
        return Some(*k);
    }
    None
}

/// The bucket filed under `deadline`.
fn lookup_bucket(index: &BTreeMap<u64, HashSet<u16>>, deadline: u64) -> (r: Option<&HashSet<u16>>)
    ensures
        match r {
            Some(ids) => index@.contains_key(deadline) && ids@ == index@[deadline]@,
            None => !index@.contains_key(deadline),
        },
{
    broadcast use vstd::laws_cmp::group_laws_cmp;

    index.get(&deadline)
}

/// Some element of `ids`, unless it is empty.
fn any_member(ids: &HashSet<u16>) -> (r: Option<u16>)
    ensures
        r is None <==> ids@.len() == 0,
        r matches Some(w) ==> ids@.contains(w),
{
    proof {
        vstd::std_specs::hash::axiom_spec_hash_keys_iter(ids);
    }
    for w in it: ids.iter()
        invariant
            it.seq() == ids.iter().remaining(),
            it.seq().unref().to_set() == ids@,
            it.seq().len() == ids@.len(),
            it.index() == 0,
    {
        assert(it.seq().unref()[0] == *w);
        assert(it.seq().unref().to_set().contains(*w));
        return Some(*w);
    }
    None
}

/// The deadline index after `wire_id` was filed under `deadline`.
pub open spec fn index_with(index: Map<u64, Set<u16>>, wire_id: u16, deadline: u64) -> Map<
    u64,
    Set<u16>,
> {
    let before = if index.contains_key(deadline) {
        index[deadline]
    } else {
        Set::<u16>::empty()
    };
    index.insert(deadline, before.insert(wire_id))
}

/// The deadline index after `wire_id` was taken out of the bucket of
/// `deadline`; a bucket that it leaves empty goes too.
pub open spec fn index_without(index: Map<u64, Set<u16>>, wire_id: u16, deadline: u64) -> Map<
    u64,
    Set<u16>,
> {
    let rest = index[deadline].remove(wire_id);
    if rest.len() == 0 {
        index.remove(deadline)
    } else {
        index.insert(deadline, rest)
    }
}

proof fn lemma_insert_consistent(
    entries: Map<u16, EntryView>,
    index: Map<u64, Set<u16>>,
    wire_id: u16,
    entry: EntryView,
)
    requires
        consistent(entries, index),
        !entries.contains_key(wire_id),
    ensures
        consistent(entries.insert(wire_id, entry), index_with(index, wire_id, entry.deadline)),
{
    let e2 = entries.insert(wire_id, entry);
    let i2 = index_with(index, wire_id, entry.deadline);
    let d0 = entry.deadline;
    assert forall|w: u16| #[trigger] e2.contains_key(w) implies i2.contains_key(e2[w].deadline)
        && i2[e2[w].deadline].contains(w) by {
        if w != wire_id {
            assert(entries.contains_key(w));
        }
    }
    assert forall|d: u64, w: u16| i2.contains_key(d) && #[trigger] i2[d].contains(w) implies e2.contains_key(w)
        && e2[w].deadline == d by {
        if w != wire_id {
            if d == d0 {
                assert(index.contains_key(d0) && index[d0].contains(w));
            } else {
                assert(index[d].contains(w));
            }
        } else if d != d0 {
            assert(index[d].contains(w));
        }
    }
    assert forall|d: u64| #[trigger] i2.contains_key(d) implies i2[d].finite() && i2[d].len() > 0 by {
        if d != d0 {
            assert(index.contains_key(d));
        } else if index.contains_key(d0) {
            assert(index[d0].finite());
        }
    }
}

proof fn lemma_remove_consistent(entries: Map<u16, EntryView>, index: Map<u64, Set<u16>>, wire_id: u16)
    requires
        consistent(entries, index),
        entries.contains_key(wire_id),
    ensures
        consistent(
            entries.remove(wire_id),
            index_without(index, wire_id, entries[wire_id].deadline),
        ),
{
    let d0 = entries[wire_id].deadline;
    let e2 = entries.remove(wire_id);
    let i2 = index_without(index, wire_id, d0);
    let rest = index[d0].remove(wire_id);
    assert(index.contains_key(d0) && index[d0].contains(wire_id));
    assert(index[d0].finite());
    assert forall|w: u16| #[trigger] e2.contains_key(w) implies i2.contains_key(e2[w].deadline)
        && i2[e2[w].deadline].contains(w) by {
        assert(entries.contains_key(w));
        if entries[w].deadline == d0 {
            assert(rest.contains(w));
            if rest.len() == 0 {
                rest.lemma_len0_is_empty();
            }
        }
    }
    assert forall|d: u64, w: u16| i2.contains_key(d) && #[trigger] i2[d].contains(w) implies e2.contains_key(w)
        && e2[w].deadline == d by {
        assert(index[d].contains(w));
    }
    assert forall|d: u64| #[trigger] i2.contains_key(d) implies i2[d].finite() && i2[d].len() > 0 by {
        assert(index.contains_key(d));
    }
}

/// The sum of the sizes of the buckets of `index`.
pub open spec fn bucket_total(index: Map<u64, Set<u16>>) -> nat
    decreases index.dom().len(),
    when index.dom().finite()
{
    if index.dom().len() == 0 {
        0
    } else {
        let d = index.dom().choose();
        index[d].len() + bucket_total(index.remove(d))
    }
}

/// Every wire id that some bucket of `index` holds.
pub open spec fn bucket_union(index: Map<u64, Set<u16>>) -> Set<u16> {
    Set::new(|w: u16| exists|d: u64| index.contains_key(d) && #[trigger] index[d].contains(w))
}

proof fn lemma_total_is_union_len(index: Map<u64, Set<u16>>)
    requires
        index.dom().finite(),
        forall|d: u64| #[trigger] index.contains_key(d) ==> index[d].finite(),
        forall|d1: u64, d2: u64, w: u16|
            index.contains_key(d1) && index.contains_key(d2) && #[trigger] index[d1].contains(w)
                && #[trigger] index[d2].contains(w) ==> d1 == d2,
    ensures
        bucket_union(index).finite(),
        bucket_total(index) == bucket_union(index).len(),
    decreases index.dom().len(),
{
    if index.dom().len() == 0 {
        index.dom().lemma_len0_is_empty();
        assert(bucket_union(index) =~= Set::<u16>::empty());
    } else {
        let d = index.dom().choose();
        let rest = index.remove(d);
        assert(index.contains_key(d));
        assert forall|k: u64| #[trigger] rest.contains_key(k) implies rest[k].finite() by {
            assert(index.contains_key(k));
        }
        lemma_total_is_union_len(rest);
        let others = bucket_union(rest);
        assert forall|w: u16| bucket_union(index).contains(w) <==> (index[d] + others).contains(
            w,
        ) by {
            if bucket_union(index).contains(w) {
                let k = choose|k: u64| index.contains_key(k) && #[trigger] index[k].contains(w);
                if k != d {
                    assert(rest.contains_key(k) && rest[k].contains(w));
                }
            }
            if others.contains(w) {
                let k = choose|k: u64| rest.contains_key(k) && #[trigger] rest[k].contains(w);
                assert(index.contains_key(k) && index[k].contains(w));
            }
        }
        assert(bucket_union(index) =~= index[d] + others);
        assert forall|w: u16| !(index[d].contains(w) && others.contains(w)) by {
            if index[d].contains(w) && others.contains(w) {
                let k = choose|k: u64| rest.contains_key(k) && #[trigger] rest[k].contains(w);
                assert(index.contains_key(k) && index[k].contains(w));
            }
        }
        assert(index[d].disjoint(others));
        vstd::set_lib::lemma_set_disjoint_lens(index[d], others);
    }
}

/// A wire id is in the primary map with deadline `d` exactly when the
/// deadline index holds it in the bucket of `d`.
pub proof fn lemma_index_matches_primary(
    entries: Map<u16, EntryView>,
    index: Map<u64, Set<u16>>,
    w: u16,
    d: u64,
)
    requires
        consistent(entries, index),
    ensures
        (entries.contains_key(w) && entries[w].deadline == d) <==> (index.contains_key(d)
            && index[d].contains(w)),
{
    if entries.contains_key(w) && entries[w].deadline == d {
        assert(index[entries[w].deadline].contains(w));
    }
    if index.contains_key(d) && index[d].contains(w) {
        assert(entries.contains_key(w));
    }
}

/// The primary map holds as many wire ids as all buckets of the deadline index together.
pub proof fn lemma_size_is_bucket_total(entries: Map<u16, EntryView>, index: Map<u64, Set<u16>>)
    requires
        consistent(entries, index),
    ensures
        entries.len() == bucket_total(index),
{
    assert forall|d1: u64, d2: u64, w: u16|
        index.contains_key(d1) && index.contains_key(d2) && #[trigger] index[d1].contains(w)
            && #[trigger] index[d2].contains(w) implies d1 == d2 by {
        assert(entries[w].deadline == d1);
        assert(entries[w].deadline == d2);
    }
    lemma_total_is_union_len(index);
    assert forall|w: u16| entries.dom().contains(w) <==> bucket_union(index).contains(w) by {
        if entries.contains_key(w) {
            assert(index[entries[w].deadline].contains(w));
        }
        if bucket_union(index).contains(w) {
            let k = choose|k: u64| index.contains_key(k) && #[trigger] index[k].contains(w);
            assert(entries.contains_key(w));
        }
    }
    assert(entries.dom() =~= bucket_union(index));
}

/// The deadline index is a function of the primary map: two indexes that
/// are consistent with the same entries are equal.
pub proof fn lemma_index_is_determined(
    entries: Map<u16, EntryView>,
    first: Map<u64, Set<u16>>,
    second: Map<u64, Set<u16>>,
)
    requires
        consistent(entries, first),
        consistent(entries, second),
    ensures
        first == second,
{
    lemma_index_included(entries, first, second);
    lemma_index_included(entries, second, first);
    assert(first.dom() =~= second.dom());
    assert forall|d: u64| first.contains_key(d) implies first[d] =~= second[d] by {}
    assert(first =~~= second);
}

proof fn lemma_index_included(
    entries: Map<u16, EntryView>,
    first: Map<u64, Set<u16>>,
    second: Map<u64, Set<u16>>,
)
    requires
        consistent(entries, first),
        consistent(entries, second),
    ensures
        forall|d: u64| #[trigger] first.contains_key(d) ==> second.contains_key(d),
        forall|d: u64, w: u16|
            first.contains_key(d) && #[trigger] first[d].contains(w) ==> second[d].contains(w),
{
    assert forall|d: u64, w: u16| first.contains_key(d) && #[trigger] first[d].contains(
        w,
    ) implies second.contains_key(d) && second[d].contains(w) by {
        assert(entries.contains_key(w) && entries[w].deadline == d);
        assert(second[entries[w].deadline].contains(w));
    }
    assert forall|d: u64| #[trigger] first.contains_key(d) implies second.contains_key(d) by {
        assert(first[d].len() > 0);
        let w = first[d].choose();
        assert(first[d].contains(w));
    }
}

} // verus!
