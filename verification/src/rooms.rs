//! The room registry: the set of known room names, with idempotent-checked
//! creation and listing.

use vstd::prelude::*;
use crate::presence::names_of;

verus! {

spec fn set_of(s: Seq<String>) -> Set<Seq<char>>
    decreases s.len(),
{
    if s.len() == 0 {
        Set::empty()
    } else {
        set_of(s.drop_last()).insert(s.last()@)
    }
}

spec fn uniq_names(s: Seq<String>) -> bool {
    forall|i: int, j: int| 0 <= i < j < s.len() ==> s[i]@ != s[j]@
}

spec fn has_name(s: Seq<String>, n: Seq<char>) -> bool {
    exists|i: int| 0 <= i < s.len() && s[i]@ == n
}

proof fn lemma_set_of(s: Seq<String>)
    ensures
        forall|n: Seq<char>| #[trigger] set_of(s).contains(n) <==> has_name(s, n),
    decreases s.len(),
{
    if s.len() > 0 {
        let t = s.drop_last();
        lemma_set_of(t);
        assert forall|n: Seq<char>| #[trigger] set_of(s).contains(n) <==> has_name(s, n) by {
            if set_of(s).contains(n) {
                if n == s.last()@ {
                    assert(0 <= s.len() - 1 < s.len() && s[s.len() - 1]@ == n);
                } else {
                    assert(set_of(t).contains(n));
                    assert(has_name(t, n));
                    let i = choose|i: int| 0 <= i < t.len() && t[i]@ == n;
                    assert(0 <= i < s.len() && s[i]@ == n);
                }
                assert(has_name(s, n));
            }
            if has_name(s, n) {
                let i = choose|i: int| 0 <= i < s.len() && s[i]@ == n;
                if i < s.len() - 1 {
                    assert(0 <= i < t.len() && t[i]@ == n);
                    assert(has_name(t, n));
                    assert(set_of(t).contains(n));
                } else {
                    assert(n == s.last()@);
                }
                assert(set_of(s).contains(n));
            }
        }
    }
}

/// The set of known room names.  Invariant: names are unique; creating an
/// already-present name is rejected, not merged.  Its view is the set of
/// name views.
#[derive(Debug)]
pub struct RoomRegistry {
    names: Vec<String>,
}

impl View for RoomRegistry {
    type V = Set<Seq<char>>;

    closed spec fn view(&self) -> Set<Seq<char>> {
        set_of(self.names@)
    }
}

impl RoomRegistry {
    /// Names are pairwise distinct; every operation preserves this.
    pub closed spec fn inv(&self) -> bool {
        uniq_names(self.names@)
    }

    /// An empty registry.
    pub fn new() -> (r: RoomRegistry)
        ensures
            r.inv(),
            r@ == Set::<Seq<char>>::empty(),
    {
        RoomRegistry { names: Vec::new() }
    }

    fn find(&self, name: &String) -> (r: bool)
        ensures
            r == has_name(self.names@, name@),
    {
        let n = self.names.len();
        let mut i: usize = 0;
        while i < n
            invariant
                n == self.names@.len(),
                i <= n,
                forall|j: int| 0 <= j < i ==> self.names@[j]@ != name@,
            decreases n - i,
        {
            if self.names[i] == *name {
                return true;
            }
            i = i + 1;
        }
        false
    }

    /// Whether `name` is a known room.
    pub fn contains(&self, name: &String) -> (r: bool)
        ensures
            r == self@.contains(name@),
    {
        proof {
            lemma_set_of(self.names@);
        }
        self.find(name)
    }

    /// Adds `name` if absent.  Returns whether it was absent and is now
    /// present; a name already present is left alone and reported as a
    /// conflict by the caller.
    pub fn create(&mut self, name: &String) -> (created: bool)
        requires
            old(self).inv(),
        ensures
            final(self).inv(),
            created == !old(self)@.contains(name@),
            final(self)@ == old(self)@.insert(name@),
    {
        proof {
            lemma_set_of(self.names@);
        }
        let ghost s0 = self.names@;
        if self.find(name) {
            proof {
                assert(self@ =~= old(self)@.insert(name@));
            }
            false
        } else {
            self.names.push(name.clone());
            proof {
                assert(self.names@.drop_last() =~= s0);
                assert(self@ =~= old(self)@.insert(name@));
                assert forall|p: int, q: int| 0 <= p < q < self.names@.len() implies self.names@[p]@
                    != self.names@[q]@ by {
                    if q == self.names@.len() - 1 {
                        assert(0 <= p < s0.len() && self.names@[p] == s0[p]);
                        if self.names@[p]@ == name@ {
                            assert(has_name(s0, name@));
                        }
                    }
                }
            }
            true
        }
    }

    /// A snapshot of all known room names: each known name exactly once, in
    /// the registry's own deterministic order (the caller may sort it).
    pub fn list(&self) -> (r: Vec<String>)
        requires
            self.inv(),
        ensures
            forall|n: Seq<char>| #[trigger] names_of(r@).contains(n) <==> self@.contains(n),
            forall|i: int, j: int| 0 <= i < j < r@.len() ==> r@[i]@ != r@[j]@,
    {
        proof {
            lemma_set_of(self.names@);
        }
        let n = self.names.len();
        let mut r: Vec<String> = Vec::new();
        let mut i: usize = 0;
        while i < n
            invariant
                n == self.names@.len(),
                i <= n,
                r@.len() == i,
                forall|j: int| 0 <= j < i ==> r@[j]@ == self.names@[j]@,
            decreases n - i,
        {
            r.push(self.names[i].clone());
            i = i + 1;
        }
        proof {
            assert forall|n2: Seq<char>| #[trigger]
                names_of(r@).contains(n2) <==> self@.contains(n2) by {
                if names_of(r@).contains(n2) {
                    let k = choose|k: int| 0 <= k < names_of(r@).len() && names_of(r@)[k] == n2;
                    assert(self.names@[k]@ == n2);
                    assert(has_name(self.names@, n2));
                }
                if self@.contains(n2) {
                    let k = choose|k: int| 0 <= k < self.names@.len() && self.names@[k]@ == n2;
                    assert(names_of(r@)[k] == n2);
                    assert(names_of(r@).contains(n2));
                }
            }
        }
        r
    }
}

} // verus!
