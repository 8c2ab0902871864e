//! The tombstone set: ids of notes soft-deleted since the last full
//! rebuild. Search results are filtered against it, so deleted notes
//! disappear immediately even while their embeddings remain in the
//! vector index.

use vstd::prelude::*;

verus! {

/// Some element of `s` reads `id`.
pub open spec fn set_has(s: Seq<String>, id: Seq<char>) -> bool {
    exists|i: int| 0 <= i < s.len() && #[trigger] s[i]@ == id
}

/// No two elements of `s` read the same.
pub open spec fn elems_unique(s: Seq<String>) -> bool {
    forall|i: int, j: int| 0 <= i < j < s.len() ==> #[trigger] s[i]@ != #[trigger] s[j]@
}

/// Set of tombstoned note ids.
pub struct TombstoneSet {
    ids: Vec<String>,
}

impl View for TombstoneSet {
    type V = Seq<String>;

    closed spec fn view(&self) -> Seq<String> {
        self.ids@
    }
}

impl TombstoneSet {
    /// Well-formed: each id occurs at most once.
    pub open spec fn wf(&self) -> bool {
        elems_unique(self@)
    }

    pub fn new() -> (r: Self)
        ensures
            r@ == Seq::<String>::empty(),
            r.wf(),
    {
        TombstoneSet { ids: Vec::new() }
    }

    pub fn len(&self) -> (n: usize)
        ensures
            n == self@.len(),
    {
        self.ids.len()
    }

    /// Whether `id` is tombstoned.
    pub fn contains(&self, id: &str) -> (r: bool)
        ensures
            r == set_has(self@, id@),
    {
        let n = self.ids.len();
        for i in 0..n
            invariant
                n == self@.len(),
                forall|j: int| 0 <= j < i ==> #[trigger] self@[j]@ != id@,
        {
            if crate::text::str_eq(self.ids[i].as_str(), id) {
                return true;
            }
        }
        false
    }

    /// Tombstone `id`; every other id keeps its membership.
    pub fn insert(&mut self, id: &str)
        requires
            old(self).wf(),
        ensures
            final(self).wf(),
            set_has(final(self)@, id@),
            forall|id2: Seq<char>| #[trigger] set_has(final(self)@, id2) <==> (set_has(
                old(self)@,
                id2,
            ) || id2 == id@),
    {
        if self.contains(id) {
            proof {
                assert forall|id2: Seq<char>| #[trigger] set_has(self@, id2) <==> (set_has(
                    old(self)@,
                    id2,
                ) || id2 == id@) by {}
            }
            return ;
        }
        let ghost mid = self@;
        let owned = id.to_owned();
        self.ids.push(owned);
        proof {
            assert(self@[mid.len() as int]@ == id@);
            assert(set_has(self@, id@));
            assert forall|id2: Seq<char>| #[trigger] set_has(self@, id2) <==> (set_has(mid, id2)
                || id2 == id@) by {
                if set_has(self@, id2) {
                    let k = choose|k: int| 0 <= k < self@.len() && self@[k]@ == id2;
                    if k < mid.len() {
                        assert(mid[k]@ == id2);
                    }
                }
                if set_has(mid, id2) {
                    let k = choose|k: int| 0 <= k < mid.len() && mid[k]@ == id2;
                    assert(self@[k]@ == id2);
                }
                if id2 == id@ {
                    assert(self@[mid.len() as int]@ == id2);
                }
            }
            assert(elems_unique(self@)) by {
                assert forall|a: int, b: int| 0 <= a < b < self@.len() implies self@[a]@
                    != self@[b]@ by {
                    if b == mid.len() {
                        assert(!set_has(mid, id@));
                        assert(mid[a]@ == self@[a]@);
                    }
                }
            }
        }
    }

    /// Clear the tombstone for `id` (a note reappearing among changed
    /// notes is live again); every other id keeps its membership.
    pub fn remove(&mut self, id: &str)
        requires
            old(self).wf(),
        ensures
            final(self).wf(),
            !set_has(final(self)@, id@),
            forall|id2: Seq<char>| #[trigger] set_has(final(self)@, id2) <==> (set_has(
                old(self)@,
                id2,
            ) && id2 != id@),
    {
        let n = self.ids.len();
        for i in 0..n
            invariant
                self.wf(),
                self@ == old(self)@,
                n == self@.len(),
                forall|j: int| 0 <= j < i ==> #[trigger] self@[j]@ != id@,
        {
            if crate::text::str_eq(self.ids[i].as_str(), id) {
                self.ids.remove(i);
                proof {
                    let s = old(self)@;
                    let t = self@;
                    assert(t == s.remove(i as int));
                    assert forall|id2: Seq<char>| #[trigger] set_has(t, id2) <==> (set_has(s, id2)
                        && id2 != id@) by {
                        if set_has(t, id2) {
                            let a = choose|a: int| 0 <= a < t.len() && t[a]@ == id2;
                            if a < i {
                                assert(s[a]@ == id2);
                            } else {
                                assert(s[a + 1]@ == id2);
                            }
                        }
                        if set_has(s, id2) && id2 != id@ {
                            let a = choose|a: int| 0 <= a < s.len() && s[a]@ == id2;
                            assert(s[i as int]@ == id@);
                            assert(a != i);
                            if a < i {
                                assert(t[a]@ == id2);
                            } else {
                                assert(t[a - 1]@ == id2);
                            }
                        }
                    }
                    assert(elems_unique(t)) by {
                        assert forall|a: int, b: int| 0 <= a < b < t.len() implies t[a]@
                            != t[b]@ by {
                            if b < i {
                            } else if a < i {
                                assert(t[b] == s[b + 1]);
                            } else {
                                assert(t[a] == s[a + 1]);
                                assert(t[b] == s[b + 1]);
                            }
                        }
                    }
                }
                return ;
            }
        }
        proof {
            assert forall|id2: Seq<char>| #[trigger] set_has(self@, id2) implies (set_has(
                old(self)@,
                id2,
            ) && id2 != id@) by {
                let a = choose|a: int| 0 <= a < self@.len() && self@[a]@ == id2;
            }
        }
    }

    /// Drop every tombstone (done when a full rebuild installs a fresh
    /// index).
    pub fn clear(&mut self)
        ensures
            final(self)@ == Seq::<String>::empty(),
            final(self).wf(),
            forall|id2: Seq<char>| !set_has(final(self)@, id2),
    {
        self.ids.clear();
    }
}

} // verus!
