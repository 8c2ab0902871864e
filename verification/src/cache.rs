//! The in-memory metadata cache: one entry per note currently believed
//! live, addressed by note id.

use vstd::prelude::*;
use crate::types::NoteMetadata;

verus! {

/// Some entry of `s` carries the id `id`.
pub open spec fn has_id(s: Seq<NoteMetadata>, id: Seq<char>) -> bool {
    exists|i: int| 0 <= i < s.len() && #[trigger] s[i].id@ == id
}

/// No two entries of `s` share an id.
pub open spec fn ids_unique(s: Seq<NoteMetadata>) -> bool {
    forall|i: int, j: int| 0 <= i < j < s.len() ==> #[trigger] s[i].id@ != #[trigger] s[j].id@
}

/// In-memory note metadata cache. Its keys are exactly the set of notes
/// believed live; a tombstoned id is removed from it.
pub struct NoteCache {
    entries: Vec<NoteMetadata>,
}

impl View for NoteCache {
    type V = Seq<NoteMetadata>;

    closed spec fn view(&self) -> Seq<NoteMetadata> {
        self.entries@
    }
}

impl NoteCache {
    /// Well-formed: ids are unique, so an id determines its entry.
    pub open spec fn wf(&self) -> bool {
        ids_unique(self@)
    }

    pub fn new() -> (r: Self)
        ensures
            r@ == Seq::<NoteMetadata>::empty(),
            r.wf(),
    {
        NoteCache { entries: Vec::new() }
    }

    pub fn len(&self) -> (n: usize)
        ensures
            n == self@.len(),
    {
        self.entries.len()
    }

    /// Whether an entry with this id is present.
    pub fn contains_id(&self, id: &str) -> (r: bool)
        ensures
            r == has_id(self@, id@),
    {
        let n = self.entries.len();
        for i in 0..n
            invariant
                n == self@.len(),
                forall|j: int| 0 <= j < i ==> #[trigger] self@[j].id@ != id@,
        {
            if crate::text::str_eq(self.entries[i].id.as_str(), id) {
                return true;
            }
        }
        false
    }

    /// The entry carrying `id`, if any.
    pub fn get(&self, id: &str) -> (r: Option<NoteMetadata>)
        ensures
            r is Some <==> has_id(self@, id@),
            r is Some ==> self@.contains(r->0) && r->0.id@ == id@,
    {
        let n = self.entries.len();
        for i in 0..n
            invariant
                n == self@.len(),
                forall|j: int| 0 <= j < i ==> #[trigger] self@[j].id@ != id@,
        {
            if crate::text::str_eq(self.entries[i].id.as_str(), id) {
                return Some(self.entries[i].clone());
            }
        }
        None
    }

    /// Remove the entry carrying `id`, if present; every other entry is
    /// kept.
    pub fn remove_id(&mut self, id: &str)
        requires
            old(self).wf(),
        ensures
            final(self).wf(),
            !has_id(final(self)@, id@),
            forall|x: NoteMetadata| #[trigger] final(self)@.contains(x) <==> (old(self)@.contains(
                x,
            ) && x.id@ != id@),
    {
        let n = self.entries.len();
        for i in 0..n
            invariant
                self.wf(),
                self@ == old(self)@,
                n == self@.len(),
                forall|j: int| 0 <= j < i ==> #[trigger] self@[j].id@ != id@,
        {
            if crate::text::str_eq(self.entries[i].id.as_str(), id) {
                self.entries.remove(i);
                proof {
                    let s = old(self)@;
                    let t = self@;
                    assert(t == s.remove(i as int));
                    assert forall|x: NoteMetadata| t.contains(x) implies (s.contains(x) && x.id@
                        != id@) by {
                        let k = choose|k: int| 0 <= k < t.len() && t[k] == x;
                        if k < i {
                            assert(s[k] == x);
                        } else {
                            assert(s[k + 1] == x);
                        }
                    }
                    assert forall|x: NoteMetadata| s.contains(x) && x.id@ != id@ implies t.contains(
                        x,
                    ) by {
                        let k = choose|k: int| 0 <= k < s.len() && s[k] == x;
                        if k < i {
                            assert(t[k] == x);
                        } else {
                            assert(k != i);
                            assert(t[k - 1] == x);
                        }
                    }
                    assert(!has_id(t, id@)) by {
                        if has_id(t, id@) {
                            let a = choose|a: int| 0 <= a < t.len() && t[a].id@ == id@;
                            if a < i {
                                assert(s[a].id@ == id@);
                                assert(s[i as int].id@ == id@);
                            } else {
                                assert(s[a + 1].id@ == id@);
                                assert(s[i as int].id@ == id@);
                            }
                        }
                    }
                    assert(ids_unique(t)) by {
                        assert forall|a: int, b: int| 0 <= a < b < t.len() implies t[a].id@
                            != t[b].id@ by {
                            if b < i {
                            } else if a < i {
                                assert(t[b] == s[b + 1]);
                            } else {
                                assert(t[a] == s[a + 1]);
                                assert(t[b] == s[b + 1]);
                            }
                        }
                    }
                }
                return ;
            }
        }
        proof {
            assert(forall|j: int| 0 <= j < self@.len() ==> #[trigger] self@[j].id@ != id@);
            assert forall|x: NoteMetadata| self@.contains(x) implies x.id@ != id@ by {
                let k = choose|k: int| 0 <= k < self@.len() && self@[k] == x;
            }
        }
    }

    /// Insert or replace: afterwards `m` is the entry for its id; entries
    /// under every other id are untouched.
    pub fn upsert(&mut self, m: NoteMetadata)
        requires
            old(self).wf(),
        ensures
            final(self).wf(),
            final(self)@.contains(m),
            forall|x: NoteMetadata| #[trigger] final(self)@.contains(x) <==> (x == m || (old(
                self,
            )@.contains(x) && x.id@ != m.id@)),
            has_id(final(self)@, m.id@),
    {
        self.remove_id(m.id.as_str());
        let ghost mid = self@;
        let ghost mv = m;
        self.entries.push(m);
        proof {
            assert(self@ == mid.push(mv));
            assert(self@[mid.len() as int] == mv);
            assert(has_id(self@, mv.id@));
            assert forall|x: NoteMetadata| #[trigger] self@.contains(x) <==> (x == mv || (old(
                self,
            )@.contains(x) && x.id@ != mv.id@)) by {
                assert(mid.contains(x) <==> (old(self)@.contains(x) && x.id@ != mv.id@));
                if self@.contains(x) {
                    let k = choose|k: int| 0 <= k < self@.len() && self@[k] == x;
                    if k < mid.len() {
                        assert(mid[k] == x);
                        assert(mid.contains(x));
                    }
                }
                if x == mv {
                    assert(self@.contains(x));
                } else if old(self)@.contains(x) && x.id@ != mv.id@ {
                    let k = choose|k: int| 0 <= k < mid.len() && mid[k] == x;
                    assert(self@[k] == x);
                    assert(self@.contains(x));
                }
            }
            assert(ids_unique(self@)) by {
                assert forall|a: int, b: int| 0 <= a < b < self@.len() implies self@[a].id@
                    != self@[b].id@ by {
                    if b == mid.len() {
                        assert(mid.contains(mid[a]));
                        assert(!has_id(mid, mv.id@));
                    }
                }
            }
        }
    }

    /// Drop every entry.
    pub fn clear(&mut self)
        ensures
            final(self)@ == Seq::<NoteMetadata>::empty(),
            final(self).wf(),
    {
        self.entries.clear();
    }
}

} // verus!
