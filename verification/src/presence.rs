//! The presence registry: one entry per active identity, with its
//! last-activity time and current room.  A pure state container — the
//! caller publishes whatever synthetic events a mutation calls for.

use vstd::prelude::*;

verus! {

/// One live entry: an identity seen at `last_seen` (unix seconds), last
/// active in `room`.
#[derive(Debug)]
pub struct PresenceEntry {
    pub identity: String,
    pub last_seen: i64,
    pub room: String,
}

/// The mathematical content of an entry, minus the identity it is keyed by.
pub ghost struct PresenceData {
    pub last_seen: int,
    pub room: Seq<char>,
}

impl Clone for PresenceEntry {
    fn clone(&self) -> (r: PresenceEntry)
        ensures
            r == *self,
    {
        PresenceEntry {
            identity: self.identity.clone(),
            last_seen: self.last_seen,
            room: self.room.clone(),
        }
    }
}

/// The data half of an entry's model.
pub open spec fn pd_of(e: PresenceEntry) -> PresenceData {
    PresenceData { last_seen: e.last_seen as int, room: e.room@ }
}

/// Whether an entry with this data is inactive at `now`: strictly more than
/// `threshold` seconds have passed since its last activity.
pub open spec fn expired_at(d: PresenceData, now: int, threshold: int) -> bool {
    now - d.last_seen > threshold
}

/// The registry after a sweep at `now`: exactly the entries that were not
/// expired, unchanged.
pub open spec fn active_after(
    m: Map<Seq<char>, PresenceData>,
    now: int,
    threshold: int,
) -> Map<Seq<char>, PresenceData> {
    Map::new(
        |id: Seq<char>| m.dom().contains(id) && !expired_at(m[id], now, threshold),
        |id: Seq<char>| m[id],
    )
}

/// The views of a sequence of identity strings, in order.
pub open spec fn names_of(ss: Seq<String>) -> Seq<Seq<char>> {
    Seq::new(ss.len(), |i: int| ss[i]@)
}

spec fn map_of(s: Seq<PresenceEntry>) -> Map<Seq<char>, PresenceData>
    decreases s.len(),
{
    if s.len() == 0 {
        Map::empty()
    } else {
        map_of(s.drop_last()).insert(s.last().identity@, pd_of(s.last()))
    }
}

spec fn uniq(s: Seq<PresenceEntry>) -> bool {
    forall|i: int, j: int| 0 <= i < j < s.len() ==> s[i].identity@ != s[j].identity@
}

spec fn has_id(s: Seq<PresenceEntry>, id: Seq<char>) -> bool {
    exists|i: int| 0 <= i < s.len() && s[i].identity@ == id
}

proof fn lemma_dom(s: Seq<PresenceEntry>)
    ensures
        forall|id: Seq<char>| #[trigger] map_of(s).dom().contains(id) <==> has_id(s, id),
    decreases s.len(),
{
    if s.len() > 0 {
        let t = s.drop_last();
        lemma_dom(t);
        assert forall|id: Seq<char>| #[trigger] map_of(s).dom().contains(id) <==> has_id(s, id) by {
            if map_of(s).dom().contains(id) {
                if id == s.last().identity@ {
                    assert(0 <= s.len() - 1 < s.len() && s[s.len() - 1].identity@ == id);
                } else {
                    assert(map_of(t).dom().contains(id));
                    assert(has_id(t, id));
                    let i = choose|i: int| 0 <= i < t.len() && t[i].identity@ == id;
                    assert(0 <= i < s.len() && s[i].identity@ == id);
                }
                assert(has_id(s, id));
            }
            if has_id(s, id) {
                let i = choose|i: int| 0 <= i < s.len() && s[i].identity@ == id;
                if i < s.len() - 1 {
                    assert(0 <= i < t.len() && t[i].identity@ == id);
                    assert(has_id(t, id));
                    assert(map_of(t).dom().contains(id));
                } else {
                    assert(id == s.last().identity@);
                }
                assert(map_of(s).dom().contains(id));
            }
        }
    }
}

proof fn lemma_map_of_remove(s: Seq<PresenceEntry>, i: int)
    requires
        uniq(s),
        0 <= i < s.len(),
    ensures
        map_of(s.remove(i)) =~= map_of(s).remove(s[i].identity@),
    decreases s.len(),
{
    let t = s.drop_last();
    lemma_dom(t);
    if i == s.len() - 1 {
        assert(s.remove(i) =~= t);
        assert(!has_id(t, s[i].identity@));
        assert(map_of(t).remove(s[i].identity@) =~= map_of(t));
    } else {
        lemma_map_of_remove(t, i);
        assert(s.remove(i).drop_last() =~= t.remove(i));
        assert(s.remove(i).last() == s.last());
        assert(map_of(s.remove(i)) == map_of(t.remove(i)).insert(s.last().identity@, pd_of(s.last())));
        assert(s[i].identity@ != s.last().identity@);
        assert(map_of(t).remove(s[i].identity@).insert(s.last().identity@, pd_of(s.last())) =~= map_of(
            s,
        ).remove(s[i].identity@));
    }
}

spec fn swept(s: Seq<PresenceEntry>, now: int, threshold: int) -> Seq<PresenceEntry>
    decreases s.len(),
{
    if s.len() == 0 {
        Seq::empty()
    } else {
        let t = swept(s.drop_last(), now, threshold);
        if expired_at(pd_of(s.last()), now, threshold) {
            t
        } else {
            t.push(s.last())
        }
    }
}

spec fn evicted(s: Seq<PresenceEntry>, now: int, threshold: int) -> Seq<Seq<char>>
    decreases s.len(),
{
    if s.len() == 0 {
        Seq::empty()
    } else {
        let t = evicted(s.drop_last(), now, threshold);
        if expired_at(pd_of(s.last()), now, threshold) {
            t.push(s.last().identity@)
        } else {
            t
        }
    }
}

proof fn lemma_swept(s: Seq<PresenceEntry>, now: int, threshold: int)
    requires
        uniq(s),
    ensures
        uniq(swept(s, now, threshold)),
        map_of(swept(s, now, threshold)) =~= active_after(map_of(s), now, threshold),
        forall|id: Seq<char>|
            #[trigger] evicted(s, now, threshold).contains(id) <==> (map_of(s).dom().contains(id)
                && expired_at(map_of(s)[id], now, threshold)),
        forall|i: int, j: int|
            0 <= i < j < evicted(s, now, threshold).len() ==> evicted(s, now, threshold)[i]
                != evicted(s, now, threshold)[j],
    decreases s.len(),
{
    if s.len() > 0 {
        let t = s.drop_last();
        let last = s.last();
        lemma_swept(t, now, threshold);
        lemma_dom(t);
        lemma_dom(swept(t, now, threshold));
        assert(!has_id(t, last.identity@));
        let mt = map_of(t);
        let ms = map_of(s);
        let st = swept(t, now, threshold);
        let et = evicted(t, now, threshold);
        if expired_at(pd_of(last), now, threshold) {
            assert(map_of(swept(s, now, threshold)) =~= active_after(ms, now, threshold));
            assert forall|id: Seq<char>| #[trigger]
                evicted(s, now, threshold).contains(id) <==> (ms.dom().contains(id) && expired_at(
                    ms[id],
                    now,
                    threshold,
                )) by {
                if evicted(s, now, threshold).contains(id) {
                    let k = choose|k: int|
                        0 <= k < evicted(s, now, threshold).len() && evicted(s, now, threshold)[k]
                            == id;
                    if k < et.len() {
                        assert(et[k] == id);
                        assert(et.contains(id));
                    }
                }
                if ms.dom().contains(id) && expired_at(ms[id], now, threshold) {
                    if id == last.identity@ {
                        assert(evicted(s, now, threshold)[et.len() as int] == id);
                    } else {
                        assert(et.contains(id));
                        let k = choose|k: int| 0 <= k < et.len() && et[k] == id;
                        assert(evicted(s, now, threshold)[k] == id);
                    }
                }
            }
            assert forall|i: int, j: int|
                0 <= i < j < evicted(s, now, threshold).len() implies evicted(s, now, threshold)[i]
                != evicted(s, now, threshold)[j] by {
                if j < et.len() {
                } else {
                    // the new last element is not an identity of `t`
                    assert(et[i] == evicted(s, now, threshold)[i]);
                    if et.contains(last.identity@) {
                        assert(mt.dom().contains(last.identity@));
                        assert(false);
                    }
                    assert(!et.contains(last.identity@));
                    if evicted(s, now, threshold)[i] == last.identity@ {
                        assert(et.contains(last.identity@));
                    }
                }
            }
        } else {
            assert(swept(s, now, threshold) == st.push(last));
            // the pushed identity is fresh in `st`
            if has_id(st, last.identity@) {
                assert(map_of(st).dom().contains(last.identity@));
                assert(mt.dom().contains(last.identity@));
                assert(false);
            }
            assert forall|i: int, j: int|
                0 <= i < j < st.push(last).len() implies st.push(last)[i].identity@ != st.push(
                last,
            )[j].identity@ by {
                if j == st.len() {
                    if st.push(last)[i].identity@ == last.identity@ {
                        assert(0 <= i < st.len() && st[i].identity@ == last.identity@);
                        assert(has_id(st, last.identity@));
                    }
                }
            }
            assert(st.push(last).drop_last() =~= st);
            assert(map_of(st.push(last)) == map_of(st).insert(last.identity@, pd_of(last)));
            assert(map_of(swept(s, now, threshold)) =~= active_after(ms, now, threshold));
            assert forall|id: Seq<char>| #[trigger]
                evicted(s, now, threshold).contains(id) <==> (ms.dom().contains(id) && expired_at(
                    ms[id],
                    now,
                    threshold,
                )) by {
                if ms.dom().contains(id) && expired_at(ms[id], now, threshold) {
                    assert(id != last.identity@);
                    assert(et.contains(id));
                }
            }
        }
    }
}

/// Tracks one entry per active identity.  Invariant: identities are unique.
/// Its view is the map from each identity to its last-seen time and room.
#[derive(Debug)]
pub struct PresenceRegistry {
    entries: Vec<PresenceEntry>,
}

impl View for PresenceRegistry {
    type V = Map<Seq<char>, PresenceData>;

    closed spec fn view(&self) -> Map<Seq<char>, PresenceData> {
        map_of(self.entries@)
    }
}

impl PresenceRegistry {
    /// Identities are pairwise distinct; every operation preserves this.
    pub closed spec fn inv(&self) -> bool {
        uniq(self.entries@)
    }

    /// An empty registry.
    pub fn new() -> (r: PresenceRegistry)
        ensures
            r.inv(),
            r@ == Map::<Seq<char>, PresenceData>::empty(),
    {
        PresenceRegistry { entries: Vec::new() }
    }

    fn find_index(&self, identity: &String) -> (r: Option<usize>)
        ensures
            match r {
                Some(i) => i < self.entries@.len() && self.entries@[i as int].identity@
                    == identity@,
                None => !has_id(self.entries@, identity@),
            },
    {
        let n = self.entries.len();
        let mut i: usize = 0;
        while i < n
            invariant
                n == self.entries@.len(),
                i <= n,
                forall|j: int| 0 <= j < i ==> self.entries@[j].identity@ != identity@,
            decreases n - i,
        {
            if self.entries[i].identity == *identity {
                return Some(i);
            }
            i = i + 1;
        }
        None
    }

    /// Whether the registry holds an entry for `identity`.
    pub fn contains(&self, identity: &String) -> (r: bool)
        ensures
            r == self@.dom().contains(identity@),
    {
        proof {
            lemma_dom(self.entries@);
        }
        self.find_index(identity).is_some()
    }

    /// Records activity: updates `last_seen` and the current room, creating
    /// the entry if the identity was previously unseen.  Returns whether this
    /// was the first record for `identity`.  Never fails.
    pub fn touch(&mut self, identity: &String, room: String, now: i64) -> (is_new: bool)
        requires
            old(self).inv(),
        ensures
            final(self).inv(),
            final(self)@ == old(self)@.insert(
                identity@,
                (PresenceData { last_seen: now as int, room: room@ }),
            ),
            is_new == !old(self)@.dom().contains(identity@),
    {
        proof {
            lemma_dom(self.entries@);
        }
        let entry = PresenceEntry { identity: identity.clone(), last_seen: now, room: room };
        let ghost s0 = self.entries@;
        match self.find_index(identity) {
            Some(i) => {
                let _ = self.entries.remove(i);
                proof {
                    lemma_map_of_remove(s0, i as int);
                    assert forall|p: int, q: int|
                        0 <= p < q < self.entries@.len() implies self.entries@[p].identity@
                        != self.entries@[q].identity@ by {
                        if q < i {
                        } else if p < i {
                            assert(self.entries@[q] == s0[q + 1]);
                        } else {
                            assert(self.entries@[p] == s0[p + 1]);
                            assert(self.entries@[q] == s0[q + 1]);
                        }
                    }
                    if has_id(self.entries@, identity@) {
                        let k = choose|k: int|
                            0 <= k < self.entries@.len() && self.entries@[k].identity@ == identity@;
                        if k < i {
                            assert(s0[k].identity@ == identity@);
                        } else {
                            assert(self.entries@[k] == s0[k + 1]);
                        }
                        assert(false);
                    }
                }
                let ghost s1 = self.entries@;
                self.entries.push(entry);
                proof {
                    assert(self.entries@.drop_last() =~= s1);
                    assert(map_of(self.entries@) =~= map_of(s0).insert(
                        identity@,
                        (PresenceData { last_seen: now as int, room: room@ }),
                    ));
                    assert forall|p: int, q: int|
                        0 <= p < q < self.entries@.len() implies self.entries@[p].identity@
                        != self.entries@[q].identity@ by {
                        if q == self.entries@.len() - 1 {
                            assert(0 <= p < s1.len() && self.entries@[p] == s1[p]);
                        }
                    }
                }
                false
            },
            None => {
                self.entries.push(entry);
                proof {
                    assert(self.entries@.drop_last() =~= s0);
                    assert(map_of(self.entries@) =~= map_of(s0).insert(
                        identity@,
                        (PresenceData { last_seen: now as int, room: room@ }),
                    ));
                    assert forall|p: int, q: int|
                        0 <= p < q < self.entries@.len() implies self.entries@[p].identity@
                        != self.entries@[q].identity@ by {
                        if q == self.entries@.len() - 1 {
                            assert(0 <= p < s0.len() && self.entries@[p] == s0[p]);
                            assert(has_id(s0, self.entries@[q].identity@) == has_id(s0, identity@));
                        }
                    }
                }
                true
            },
        }
    }

    /// Explicit removal.  Returns whether an entry existed.
    pub fn remove(&mut self, identity: &String) -> (existed: bool)
        requires
            old(self).inv(),
        ensures
            final(self).inv(),
            final(self)@ == old(self)@.remove(identity@),
            existed == old(self)@.dom().contains(identity@),
    {
        proof {
            lemma_dom(self.entries@);
        }
        let ghost s0 = self.entries@;
        match self.find_index(identity) {
            Some(i) => {
                let _ = self.entries.remove(i);
                proof {
                    lemma_map_of_remove(s0, i as int);
                    assert forall|p: int, q: int|
                        0 <= p < q < self.entries@.len() implies self.entries@[p].identity@
                        != self.entries@[q].identity@ by {
                        if q < i {
                        } else if p < i {
                            assert(self.entries@[q] == s0[q + 1]);
                        } else {
                            assert(self.entries@[p] == s0[p + 1]);
                            assert(self.entries@[q] == s0[q + 1]);
                        }
                    }
                }
                true
            },
            None => {
                proof {
                    assert(self@ =~= old(self)@.remove(identity@));
                }
                false
            },
        }
    }

    /// Removes and returns every identity inactive beyond `threshold` at
    /// `now`: exactly those whose entry satisfies [`expired_at`].  The
    /// surviving entries are unchanged.  The decision and the removal happen
    /// in one step, so an intervening activity record can never be clobbered
    /// by a stale eviction choice.
    pub fn sweep_inactive(&mut self, now: i64, threshold: i64) -> (out: Vec<String>)
        requires
            old(self).inv(),
        ensures
            final(self).inv(),
            final(self)@ == active_after(old(self)@, now as int, threshold as int),
            forall|id: Seq<char>|
                #[trigger] names_of(out@).contains(id) <==> (old(self)@.dom().contains(id)
                    && expired_at(old(self)@[id], now as int, threshold as int)),
            forall|i: int, j: int| 0 <= i < j < out@.len() ==> out@[i]@ != out@[j]@,
            old(self)@.dom().finite(),
            out@.len() <= old(self)@.dom().len(),
    {
        let ghost s0 = self.entries@;
        let n = self.entries.len();
        let mut kept: Vec<PresenceEntry> = Vec::new();
        let mut out: Vec<String> = Vec::new();
        let mut i: usize = 0;
        while i < n
            invariant
                n == self.entries@.len(),
                self.entries@ == s0,
                i <= n,
                kept@ == swept(s0.take(i as int), now as int, threshold as int),
                names_of(out@) =~= evicted(s0.take(i as int), now as int, threshold as int),
            decreases n - i,
        {
            let ghost pre = s0.take(i as int);
            let ghost post = s0.take(i as int + 1);
            proof {
                assert(post.drop_last() =~= pre);
                assert(post.last() == s0[i as int]);
            }
            let e = &self.entries[i];
            if (now as i128) - (e.last_seen as i128) > (threshold as i128) {
                out.push(e.identity.clone());
                proof {
                    assert(names_of(out@) =~= evicted(post, now as int, threshold as int));
                }
            } else {
                kept.push(e.clone());
            }
            i = i + 1;
        }
        proof {
            assert(s0.take(n as int) =~= s0);
            lemma_swept(s0, now as int, threshold as int);
            lemma_len(s0);
            lemma_evicted_len(s0, now as int, threshold as int);
        }
        self.entries = kept;
        proof {
            assert forall|id: Seq<char>| #[trigger]
                names_of(out@).contains(id) <==> (map_of(s0).dom().contains(id) && expired_at(
                    map_of(s0)[id],
                    now as int,
                    threshold as int,
                )) by {
                if names_of(out@).contains(id) {
                    let k = choose|k: int| 0 <= k < names_of(out@).len() && names_of(out@)[k] == id;
                    assert(evicted(s0, now as int, threshold as int)[k] == id);
                    assert(evicted(s0, now as int, threshold as int).contains(id));
                }
                if evicted(s0, now as int, threshold as int).contains(id) {
                    let k = choose|k: int|
                        0 <= k < evicted(s0, now as int, threshold as int).len() && evicted(
                            s0,
                            now as int,
                            threshold as int,
                        )[k] == id;
                    assert(names_of(out@)[k] == id);
                    assert(names_of(out@).contains(id));
                }
            }
            assert forall|i2: int, j2: int| 0 <= i2 < j2 < out@.len() implies out@[i2]@
                != out@[j2]@ by {
                assert(names_of(out@)[i2] == out@[i2]@);
                assert(names_of(out@)[j2] == out@[j2]@);
            }
        }
        out
    }

    /// The number of live entries.
    pub fn len(&self) -> (n: usize)
        requires
            self.inv(),
        ensures
            n == self@.dom().len(),
    {
        proof {
            lemma_len(self.entries@);
        }
        self.entries.len()
    }
}

proof fn lemma_evicted_len(s: Seq<PresenceEntry>, now: int, threshold: int)
    ensures
        evicted(s, now, threshold).len() <= s.len(),
    decreases s.len(),
{
    if s.len() > 0 {
        lemma_evicted_len(s.drop_last(), now, threshold);
    }
}

proof fn lemma_len(s: Seq<PresenceEntry>)
    requires
        uniq(s),
    ensures
        map_of(s).dom().finite(),
        map_of(s).dom().len() == s.len(),
    decreases s.len(),
{
    if s.len() > 0 {
        let t = s.drop_last();
        lemma_len(t);
        lemma_dom(t);
        assert(!has_id(t, s.last().identity@));
        assert(!map_of(t).dom().contains(s.last().identity@));
        assert(map_of(s).dom() =~= map_of(t).dom().insert(s.last().identity@));
    }
}

/// Recording activity for an identity and then sweeping at a time within the
/// threshold never evicts that identity, and leaves its entry as the
/// activity record wrote it.
pub proof fn lemma_touch_then_sweep_keeps(
    m: Map<Seq<char>, PresenceData>,
    identity: Seq<char>,
    room: Seq<char>,
    t1: int,
    now: int,
    threshold: int,
)
    requires
        now - t1 <= threshold,
    ensures
        active_after(
            m.insert(identity, (PresenceData { last_seen: t1, room: room })),
            now,
            threshold,
        ).dom().contains(identity),
        active_after(m.insert(identity, (PresenceData { last_seen: t1, room: room })), now, threshold)[
            identity] == (PresenceData { last_seen: t1, room: room }),
{
    let touched = m.insert(identity, (PresenceData { last_seen: t1, room: room }));
    assert(touched.dom().contains(identity));
    assert(!expired_at(touched[identity], now, threshold));
}

} // verus!
