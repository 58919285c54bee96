use vstd::prelude::*;

use crate::stopwatch::Stopwatch;

verus! {

#[verifier::external_type_specification]
#[verifier::external_body]
#[verifier::reject_recursive_types(K)]
#[verifier::reject_recursive_types(V)]
#[verifier::reject_recursive_types(S)]
pub struct ExIndexMap<K, V, S>(indexmap::IndexMap<K, V, S>);

/// The entries of an identifier-keyed stopwatch map, in the map's order.
pub uninterp spec fn entries(m: indexmap::IndexMap<u8, Stopwatch>) -> Seq<(u8, Stopwatch)>;

/// Relies on indexmap::IndexMap::new: the new map has no entries.
#[verifier::external_body]
fn imap_new() -> (m: indexmap::IndexMap<u8, Stopwatch>)
    ensures
        entries(m).len() == 0,
{
    indexmap::IndexMap::new()
}

/// Relies on indexmap::IndexMap::insert: a new key-value pair is inserted
/// last in order; an equivalent key retains its place in the order and only
/// its value is updated.
#[verifier::external_body]
fn imap_insert(m: &mut indexmap::IndexMap<u8, Stopwatch>, k: u8, v: Stopwatch)
    ensures
        (forall|i: int| 0 <= i < entries(*old(m)).len() ==> entries(*old(m))[i].0 != k)
            ==> entries(*final(m)) == entries(*old(m)).push((k, v)),
        (exists|i: int| 0 <= i < entries(*old(m)).len() && entries(*old(m))[i].0 == k) ==> (exists|
            i: int,
        |
            0 <= i < entries(*old(m)).len() && entries(*old(m))[i].0 == k && entries(*final(m))
                == entries(*old(m)).update(i, (k, v))),
{
    m.insert(k, v);
}

/// Relies on indexmap::IndexMap::shift_remove: the keyed entry is removed
/// and the entries that followed it shift down, keeping their relative
/// order; an absent key leaves the map unchanged and returns `None`.
#[verifier::external_body]
fn imap_shift_remove(m: &mut indexmap::IndexMap<u8, Stopwatch>, k: u8) -> (r: Option<Stopwatch>)
    ensures
        (forall|i: int| 0 <= i < entries(*old(m)).len() ==> entries(*old(m))[i].0 != k) ==> (entries(
            *final(m),
        ) == entries(*old(m)) && r is None),
        (exists|i: int| 0 <= i < entries(*old(m)).len() && entries(*old(m))[i].0 == k) ==> (exists|
            i: int,
        |
            0 <= i < entries(*old(m)).len() && entries(*old(m))[i].0 == k && r == Some(
                entries(*old(m))[i].1,
            ) && entries(*final(m)) == entries(*old(m)).remove(i)),
{
    m.shift_remove(&k)
}

/// Relies on indexmap::IndexMap::get: the value stored under the key, if
/// present; handed out as a copy.
#[verifier::external_body]
fn imap_get(m: &indexmap::IndexMap<u8, Stopwatch>, k: u8) -> (r: Option<Stopwatch>)
    ensures
        (r is None) <==> (forall|i: int| 0 <= i < entries(*m).len() ==> entries(*m)[i].0 != k),
        r matches Some(v) ==> exists|i: int|
            0 <= i < entries(*m).len() && entries(*m)[i] == (k, v),
{
    m.get(&k).copied()
}

/// Relies on indexmap::IndexMap::iter: the key-value pairs in the map's
/// order; each pair is handed out as a copy.
#[verifier::external_body]
fn imap_entries_vec(m: &indexmap::IndexMap<u8, Stopwatch>) -> (r: Vec<(u8, Stopwatch)>)
    ensures
        r@ == entries(*m),
{
    m.iter().map(|(k, v)| (*k, *v)).collect()
}

/// Relies on indexmap::IndexMap::last: the last key-value pair in the map's
/// order, if any; handed out as a copy.
#[verifier::external_body]
fn imap_last(m: &indexmap::IndexMap<u8, Stopwatch>) -> (r: Option<(u8, Stopwatch)>)
    ensures
        entries(*m).len() == 0 ==> r is None,
        entries(*m).len() > 0 ==> r == Some(entries(*m).last()),
{
    m.last().map(|(k, v)| (*k, *v))
}

/// Relies on indexmap::IndexMap::len: the number of entries.
#[verifier::external_body]
fn imap_len(m: &indexmap::IndexMap<u8, Stopwatch>) -> (r: usize)
    ensures
        r == entries(*m).len(),
{
    m.len()
}

/// Identifiers strictly increase along the entry order.
pub open spec fn ids_increasing(s: Seq<(u8, Stopwatch)>) -> bool {
    forall|i: int, j: int| 0 <= i < j < s.len() ==> s[i].0 < s[j].0
}

/// Every entry's stopwatch is well formed and carries its key as its
/// identifier.
pub open spec fn entries_wf(s: Seq<(u8, Stopwatch)>) -> bool {
    forall|i: int| 0 <= i < s.len() ==> (s[i].1.wf() && s[i].1.id == s[i].0)
}

/// With strictly increasing identifiers, an identifier names at most one
/// position.
proof fn lemma_key_position_unique(s: Seq<(u8, Stopwatch)>, i: int, j: int)
    requires
        ids_increasing(s),
        0 <= i < s.len(),
        0 <= j < s.len(),
        s[i].0 == s[j].0,
    ensures
        i == j,
{
    if i < j {
        assert(s[i].0 < s[j].0);
    } else if j < i {
        assert(s[j].0 < s[i].0);
    }
}

/// An insertion-ordered mapping from identifier to stopwatch. It assigns
/// identifiers as one more than the greatest identifier present, or zero
/// when empty, so the entry order is also ascending identifier order.
pub struct StopwatchCollection {
    map: indexmap::IndexMap<u8, Stopwatch>,
}

impl View for StopwatchCollection {
    type V = Seq<(u8, Stopwatch)>;

    closed spec fn view(&self) -> Seq<(u8, Stopwatch)> {
        entries(self.map)
    }
}

impl StopwatchCollection {
    /// Identifiers strictly increase along the order, and each entry's
    /// stopwatch is well formed and carries its key as its identifier.
    pub open spec fn wf(self) -> bool {
        ids_increasing(self@) && entries_wf(self@)
    }

    /// The identifier the next added stopwatch gets: one more than the last
    /// (hence greatest) identifier, or zero when the collection is empty.
    pub open spec fn spec_next_id(self) -> int {
        if self@.len() == 0 {
            0
        } else {
            self@.last().0 + 1
        }
    }

    /// Whether the next identifier still fits in an identifier's range.
    pub open spec fn spec_can_add(self) -> bool {
        self.spec_next_id() <= u8::MAX
    }

    /// Create an empty collection.
    pub fn new() -> (c: Self)
        ensures
            c@.len() == 0,
            c.wf(),
    {
        StopwatchCollection { map: imap_new() }
    }

    /// The number of stopwatches held.
    pub fn len(&self) -> (r: usize)
        ensures
            r == self@.len(),
    {
        imap_len(&self.map)
    }

    /// Whether another stopwatch can be added: the next identifier fits.
    pub fn can_add(&self) -> (r: bool)
        requires
            self.wf(),
        ensures
            r == self.spec_can_add(),
    {
        match imap_last(&self.map) {
            None => true,
            Some((k, _)) => k < u8::MAX,
        }
    }

    /// Add a fresh stopwatch under the next identifier and return that
    /// identifier: one more than the greatest identifier present, zero when
    /// the collection is empty. The new entry goes last, so identifiers stay
    /// strictly increasing along the order.
    pub fn add_new(&mut self) -> (id: u8)
        requires
            old(self).wf(),
            old(self).spec_can_add(),
        ensures
            final(self).wf(),
            id == old(self).spec_next_id(),
            final(self)@ == old(self)@.push((id, Stopwatch::spec_new(id))),
    {
        let id: u8 = match imap_last(&self.map) {
            None => 0,
            Some((k, _)) => k + 1,
        };
        proof {
            let s = old(self)@;
            assert forall|i: int| 0 <= i < s.len() implies s[i].0 != id by {
                if i < s.len() - 1 {
                    assert(s[i].0 < s[s.len() - 1].0);
                }
            }
        }
        let w = Stopwatch::new(id);
        imap_insert(&mut self.map, id, w);
        proof {
            let s = old(self)@;
            let t = self@;
            assert(t == s.push((id, Stopwatch::spec_new(id))));
            assert forall|i: int, j: int| 0 <= i < j < t.len() implies t[i].0 < t[j].0 by {
                if j < s.len() {
                    assert(s[i].0 < s[j].0);
                } else {
                    if i < s.len() - 1 {
                        assert(s[i].0 < s[s.len() - 1].0);
                    }
                }
            }
            assert forall|i: int| 0 <= i < t.len() implies (t[i].1.wf() && t[i].1.id == t[i].0) by {
                if i < s.len() {
                    assert(s[i].1.wf() && s[i].1.id == s[i].0);
                }
            }
        }
        id
    }

    /// Add a fresh stopwatch if the next identifier fits, returning the
    /// identifier; `None`, with the collection unchanged, when it does not.
    pub fn try_add_new(&mut self) -> (r: Option<u8>)
        requires
            old(self).wf(),
        ensures
            final(self).wf(),
            old(self).spec_can_add() ==> (r matches Some(id) && id == old(self).spec_next_id()
                && final(self)@ == old(self)@.push((id, Stopwatch::spec_new(id)))),
            !old(self).spec_can_add() ==> (r is None && final(self)@ == old(self)@),
    {
        if self.can_add() {
            Some(self.add_new())
        } else {
            None
        }
    }

    /// Remove the stopwatch with the given identifier, keeping the order of
    /// the remaining entries; a no-op when the identifier is unknown.
    pub fn remove(&mut self, id: u8)
        requires
            old(self).wf(),
        ensures
            final(self).wf(),
            (forall|i: int| 0 <= i < old(self)@.len() ==> old(self)@[i].0 != id) ==> final(self)@
                == old(self)@,
            (exists|i: int| 0 <= i < old(self)@.len() && old(self)@[i].0 == id) ==> (exists|i: int|
                0 <= i < old(self)@.len() && old(self)@[i].0 == id && final(self)@ == old(
                    self,
                )@.remove(i)),
    {
        imap_shift_remove(&mut self.map, id);
        proof {
            let s = old(self)@;
            let t = self@;
            if exists|i: int| 0 <= i < s.len() && s[i].0 == id {
                let i = choose|i: int| 0 <= i < s.len() && s[i].0 == id && t == s.remove(i);
                assert(t.len() == s.len() - 1);
                assert forall|p: int| 0 <= p < t.len() implies t[p] == (if p < i {
                    s[p]
                } else {
                    s[p + 1]
                }) by {}
                assert forall|p: int, q: int| 0 <= p < q < t.len() implies t[p].0 < t[q].0 by {
                    let sp: int = if p < i {
                        p
                    } else {
                        p + 1
                    };
                    let sq: int = if q < i {
                        q
                    } else {
                        q + 1
                    };
                    assert(s[sp].0 < s[sq].0);
                }
                assert forall|p: int| 0 <= p < t.len() implies (t[p].1.wf() && t[p].1.id
                    == t[p].0) by {
                    let sp: int = if p < i {
                        p
                    } else {
                        p + 1
                    };
                    assert(s[sp].1.wf() && s[sp].1.id == s[sp].0);
                }
            }
        }
    }

    /// The stopwatch stored under the identifier, as a copy; `None` when the
    /// identifier is unknown.
    pub fn get(&self, id: u8) -> (r: Option<Stopwatch>)
        requires
            self.wf(),
        ensures
            (r is None) <==> (forall|i: int| 0 <= i < self@.len() ==> self@[i].0 != id),
            r matches Some(w) ==> exists|i: int| 0 <= i < self@.len() && self@[i] == (id, w),
            r matches Some(w) ==> (w.wf() && w.id == id),
    {
        let r = imap_get(&self.map, id);
        proof {
            match r {
                Some(w) => {
                    let i = choose|i: int| 0 <= i < self@.len() && self@[i] == (id, w);
                    assert(self@[i].1.wf() && self@[i].1.id == self@[i].0);
                },
                None => {},
            }
        }
        r
    }

    /// The (identifier, stopwatch) entries in order, as a fresh vector; the
    /// collection is neither consumed nor changed.
    pub fn iterate(&self) -> (r: Vec<(u8, Stopwatch)>)
        ensures
            r@ == self@,
    {
        imap_entries_vec(&self.map)
    }

    /// Start the stopwatch with the given identifier, reading the wall
    /// clock; a no-op when the identifier is unknown.
    pub fn start(&mut self, id: u8)
        requires
            old(self).wf(),
        ensures
            final(self).wf(),
            (forall|i: int| 0 <= i < old(self)@.len() ==> old(self)@[i].0 != id) ==> final(self)@
                == old(self)@,
            (exists|i: int| 0 <= i < old(self)@.len() && old(self)@[i].0 == id) ==> (exists|
                i: int,
                now: u64,
            |
                0 <= i < old(self)@.len() && old(self)@[i].0 == id && final(self)@ == old(
                    self,
                )@.update(i, (id, old(self)@[i].1.spec_start_at(now)))),
    {
        match self.get(id) {
            None => {},
            Some(w0) => {
                let ghost s = self@;
                let ghost i0 = choose|i: int| 0 <= i < s.len() && s[i] == (id, w0);
                let mut w = w0;
                w.start();
                let ghost now = choose|n: u64| w == w0.spec_start_at(n);
                imap_insert(&mut self.map, id, w);
                proof {
                    let t = self@;
                    assert(s[i0].0 == id);
                    let i1 = choose|i: int|
                        0 <= i < s.len() && s[i].0 == id && t == s.update(i, (id, w));
                    lemma_key_position_unique(s, i0, i1);
                    assert(t == s.update(i0, (id, w)));
                    assert(t[i0] == (id, w));
                    assert forall|p: int, q: int| 0 <= p < q < t.len() implies t[p].0 < t[q].0 by {
                        assert(s[p].0 < s[q].0);
                    }
                    assert forall|p: int| 0 <= p < t.len() implies (t[p].1.wf() && t[p].1.id
                        == t[p].0) by {
                        if p != i0 {
                            assert(s[p].1.wf() && s[p].1.id == s[p].0);
                        }
                    }
                    assert(0 <= i0 < s.len() && s[i0].0 == id && t == s.update(
                        i0,
                        (id, s[i0].1.spec_start_at(now)),
                    ));
                }
            },
        }
    }

    /// Pause the stopwatch with the given identifier, reading the wall
    /// clock; a no-op when the identifier is unknown.
    pub fn pause(&mut self, id: u8)
        requires
            old(self).wf(),
        ensures
            final(self).wf(),
            (forall|i: int| 0 <= i < old(self)@.len() ==> old(self)@[i].0 != id) ==> final(self)@
                == old(self)@,
            (exists|i: int| 0 <= i < old(self)@.len() && old(self)@[i].0 == id) ==> (exists|
                i: int,
                now: u64,
            |
                0 <= i < old(self)@.len() && old(self)@[i].0 == id && final(self)@ == old(
                    self,
                )@.update(i, (id, old(self)@[i].1.spec_pause_at(now)))),
    {
        match self.get(id) {
            None => {},
            Some(w0) => {
                let ghost s = self@;
                let ghost i0 = choose|i: int| 0 <= i < s.len() && s[i] == (id, w0);
                let mut w = w0;
                w.pause();
                let ghost now = choose|n: u64| w == w0.spec_pause_at(n);
                imap_insert(&mut self.map, id, w);
                proof {
                    let t = self@;
                    assert(s[i0].0 == id);
                    let i1 = choose|i: int|
                        0 <= i < s.len() && s[i].0 == id && t == s.update(i, (id, w));
                    lemma_key_position_unique(s, i0, i1);
                    assert(t == s.update(i0, (id, w)));
                    assert(t[i0] == (id, w));
                    assert forall|p: int, q: int| 0 <= p < q < t.len() implies t[p].0 < t[q].0 by {
                        assert(s[p].0 < s[q].0);
                    }
                    assert forall|p: int| 0 <= p < t.len() implies (t[p].1.wf() && t[p].1.id
                        == t[p].0) by {
                        if p != i0 {
                            assert(s[p].1.wf() && s[p].1.id == s[p].0);
                        }
                    }
                    assert(0 <= i0 < s.len() && s[i0].0 == id && t == s.update(
                        i0,
                        (id, s[i0].1.spec_pause_at(now)),
                    ));
                }
            },
        }
    }
}

/// A present identifier is never handed out again: the next identifier is
/// strictly greater than every identifier in the collection.
pub proof fn lemma_next_id_fresh(c: StopwatchCollection)
    requires
        c.wf(),
    ensures
        forall|i: int| 0 <= i < c@.len() ==> c@[i].0 < c.spec_next_id(),
{
    assert forall|i: int| 0 <= i < c@.len() implies c@[i].0 < c.spec_next_id() by {
        if i < c@.len() - 1 {
            assert(c@[i].0 < c@[c@.len() - 1].0);
        }
    }
}

/// An emptied collection starts over: whenever no entries are left, the next
/// identifier is zero, however many were added and removed before.
pub proof fn lemma_empty_next_id_zero(c: StopwatchCollection)
    requires
        c@.len() == 0,
    ensures
        c.spec_next_id() == 0,
{
}

/// Iteration order is non-decreasing by identifier: the entries `iterate`
/// hands out are strictly increasing by identifier, whatever additions and
/// removals produced the collection.
pub proof fn lemma_iteration_order(c: StopwatchCollection)
    requires
        c.wf(),
    ensures
        forall|i: int, j: int| 0 <= i < j < c@.len() ==> c@[i].0 < c@[j].0,
{
}

} // verus!
