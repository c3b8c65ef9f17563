//! The index of live windows: for each identity, the handles of its windows.
use vstd::prelude::*;

use crate::history::{contains_handle, lemma_without, no_dups, remove_handle, without};
use crate::identity::{ConId, IdentityView};

verus! {

/// The index after a window with identity `k` and handle `h` appears: `h`
/// joins the handles of `k`. A window without identity is never indexed.
pub open spec fn add_window(m: Map<IdentityView, Seq<i64>>, k: IdentityView, h: i64) -> Map<
    IdentityView,
    Seq<i64>,
> {
    if k is Unknown {
        m
    } else if m.contains_key(k) {
        if m[k].contains(h) {
            m
        } else {
            m.insert(k, m[k].push(h))
        }
    } else {
        m.insert(k, seq![h])
    }
}

/// The index after the window with identity `k` and handle `h` closes: `h`
/// leaves the handles of `k`, and `k` leaves the index when none is left.
pub open spec fn remove_window(m: Map<IdentityView, Seq<i64>>, k: IdentityView, h: i64) -> Map<
    IdentityView,
    Seq<i64>,
> {
    if m.contains_key(k) {
        let rest = without(m[k], h);
        if rest.len() == 0 {
            m.remove(k)
        } else {
            m.insert(k, rest)
        }
    } else {
        m
    }
}

/// `h` is indexed under `k`.
pub open spec fn indexed(m: Map<IdentityView, Seq<i64>>, k: IdentityView, h: i64) -> bool {
    m.contains_key(k) && m[k].contains(h)
}

/// Which windows an index holds after a window appears.
pub proof fn lemma_add_window_indexed(m: Map<IdentityView, Seq<i64>>, k: IdentityView, h: i64)
    ensures
        forall|k2: IdentityView, h2: i64| #[trigger]
            indexed(add_window(m, k, h), k2, h2) <==> indexed(m, k2, h2) || (k2 == k && h2 == h
                && !(k is Unknown)),
{
    if !(k is Unknown) && m.contains_key(k) && !m[k].contains(h) {
        assert(m[k].push(h)[m[k].len() as int] == h);
        assert forall|h2: i64| m[k].push(h).contains(h2) <==> (m[k].contains(h2) || h2 == h) by {
            if m[k].contains(h2) {
                let i = choose|i: int| 0 <= i < m[k].len() && m[k][i] == h2;
                assert(m[k].push(h)[i] == h2);
            }
            if m[k].push(h).contains(h2) && h2 != h {
                let i = choose|i: int| 0 <= i < m[k].len() + 1 && m[k].push(h)[i] == h2;
                assert(m[k][i] == h2);
            }
        }
    }
    if !(k is Unknown) && !m.contains_key(k) {
        assert(seq![h][0] == h);
        assert forall|h2: i64| seq![h].contains(h2) implies h2 == h by {
            let i = choose|i: int| 0 <= i < 1 && seq![h][i] == h2;
        }
    }
}

/// Which windows an index holds after a window closes.
pub proof fn lemma_remove_window_indexed(m: Map<IdentityView, Seq<i64>>, k: IdentityView, h: i64)
    ensures
        forall|k2: IdentityView, h2: i64| #[trigger]
            indexed(remove_window(m, k, h), k2, h2) <==> indexed(m, k2, h2) && !(k2 == k && h2 == h),
{
    if m.contains_key(k) {
        lemma_without(m[k], h);
        let rest = without(m[k], h);
        if rest.len() == 0 {
            assert forall|h2: i64| m[k].contains(h2) implies h2 == h by {
                if h2 != h {
                    assert(rest.contains(h2));
                }
            }
        }
    }
}

/// The shape that every index has: known identities only, each with a
/// non-empty list of distinct handles.
pub open spec fn index_ok(m: Map<IdentityView, Seq<i64>>) -> bool {
    forall|k: IdentityView| #[trigger]
        m.contains_key(k) ==> !(k is Unknown) && m[k].len() > 0 && no_dups(m[k])
}

/// The entries `e` hold, without repetition, exactly the identities of `m`,
/// each with its handles.
closed spec fn entries_ok(e: Seq<(ConId, Vec<i64>)>, m: Map<IdentityView, Seq<i64>>) -> bool {
    &&& keys_unique(e)
    &&& forall|i: int| 0 <= i < e.len() ==> m.contains_key(#[trigger] e[i].0@) && m[e[i].0@] == e[i].1@
    &&& forall|k: IdentityView| #[trigger]
        m.contains_key(k) ==> exists|i: int| 0 <= i < e.len() && e[i].0@ == k
    &&& index_ok(m)
}

closed spec fn keys_unique(e: Seq<(ConId, Vec<i64>)>) -> bool {
    forall|i: int, j: int| 0 <= i < j < e.len() ==> e[i].0@ != e[j].0@
}

/// The live windows grouped by identity.
pub struct WindowIndex {
    entries: Vec<(ConId, Vec<i64>)>,
    model: Ghost<Map<IdentityView, Seq<i64>>>,
}

impl View for WindowIndex {
    type V = Map<IdentityView, Seq<i64>>;

    closed spec fn view(&self) -> Map<IdentityView, Seq<i64>> {
        self.model@
    }
}

impl WindowIndex {
    #[verifier::type_invariant]
    closed spec fn inv(self) -> bool {
        entries_ok(self.entries@, self.model@)
    }

    /// An empty index.
    pub fn new() -> (r: WindowIndex)
        ensures
            r@ == Map::<IdentityView, Seq<i64>>::empty(),
    {
        WindowIndex { entries: Vec::new(), model: Ghost(Map::empty()) }
    }

    /// The position of the entry of `id`, if it has one.
    fn find(&self, id: &ConId) -> (r: Option<usize>)
        ensures
            match r {
                Some(i) => i < self.entries@.len() && self.entries@[i as int].0@ == id@
                    && self@.contains_key(id@),
                None => !self@.contains_key(id@),
            },
    {
        proof {
            use_type_invariant(self);
        }
        let mut i: usize = 0;
        while i < self.entries.len()
            invariant
                0 <= i <= self.entries@.len(),
                forall|j: int| 0 <= j < i ==> self.entries@[j].0@ != id@,
            decreases self.entries@.len() - i,
        {
            if self.entries[i].0 == *id {
                proof {
                    use_type_invariant(self);
                    assert(self.model@.contains_key(self.entries@[i as int].0@));
                }
                return Some(i);
            }
            i = i + 1;
        }
        None
    }

    /// The handles indexed under `id`, if any.
    pub fn get(&self, id: &ConId) -> (r: Option<&Vec<i64>>)
        ensures
            match r {
                Some(v) => self@.contains_key(id@) && v@ == self@[id@],
                None => !self@.contains_key(id@),
            },
            index_ok(self@),
    {
        proof {
            use_type_invariant(self);
        }
        match self.find(id) {
            Some(i) => Some(&self.entries[i].1),
            None => None,
        }
    }

    /// Records a window with identity `id` and handle `h`.
    pub fn insert(&mut self, id: ConId, h: i64)
        ensures
            final(self)@ == add_window(old(self)@, id@, h),
    {
        proof {
            use_type_invariant(&*self);
        }
        if let ConId::Unknown = id {
            return;
        }
        let found = self.find(&id);
        let mut taken = WindowIndex::new();
        std::mem::swap(self, &mut taken);
        let WindowIndex { mut entries, model } = taken;
        let ghost m = model@;
        let ghost e = entries@;
        match found {
            Some(f) => {
                let present = contains_handle(&entries[f].1, h);
                if !present {
                    entries[f].1.push(h);
                    proof {
                        let hs = e[f as int].1@;
                        assert(no_dups(hs.push(h))) by {
                            assert forall|a: int, b: int| 0 <= a < b < hs.len() + 1 implies hs.push(
                                h,
                            )[a] != hs.push(h)[b] by {
                                if b == hs.len() {
                                    assert(hs.contains(hs[a]));
                                }
                            }
                        }
                    }
                }
            },
            None => {
                let mut hs: Vec<i64> = Vec::new();
                hs.push(h);
                entries.push((id, hs));
            },
        }
        let ghost m2 = add_window(m, id@, h);
        proof {
            let e2 = entries@;
            assert forall|k: IdentityView| #[trigger] m2.contains_key(k) implies exists|i: int|
                0 <= i < e2.len() && e2[i].0@ == k by {
                if k != id@ {
                    let i = choose|i: int| 0 <= i < e.len() && e[i].0@ == k;
                    assert(e2[i].0@ == k);
                } else {
                    match found {
                        Some(f) => assert(e2[f as int].0@ == k),
                        None => assert(e2[e.len() as int].0@ == k),
                    }
                }
            }
            assert(no_dups(seq![h]));
        }
        proof {
            let e2 = entries@;
            assert(index_ok(m2));
            assert(forall|i: int| 0 <= i < e2.len() ==> m2.contains_key(#[trigger] e2[i].0@) && m2[e2[i].0@]
            == e2[i].1@);
            assert(keys_unique(e2));
        }
        *self = WindowIndex { entries, model: Ghost(m2) };
    }

    /// Forgets the window with identity `id` and handle `h`.
    pub fn remove(&mut self, id: &ConId, h: i64)
        ensures
            final(self)@ == remove_window(old(self)@, id@, h),
    {
        proof {
            use_type_invariant(&*self);
        }
        let f = match self.find(id) {
            Some(f) => f,
            None => {
                return ;
            },
        };
        let mut taken = WindowIndex::new();
        std::mem::swap(self, &mut taken);
        let WindowIndex { mut entries, model } = taken;
        let ghost m = model@;
        let ghost e = entries@;
        proof {
            lemma_without(e[f as int].1@, h);
        }
        remove_handle(&mut entries[f].1, h);
        let ghost m2 = remove_window(m, id@, h);
        if entries[f].1.len() == 0 {
            entries.remove(f);
            proof {
                let e2 = entries@;
                assert forall|i: int| 0 <= i < e2.len() implies (i < f ==> e2[i] == e[i]) && (i >= f
                    ==> e2[i] == e[i + 1]) by {}
                assert forall|k: IdentityView| #[trigger] m2.contains_key(k) implies exists|i: int|
                    0 <= i < e2.len() && e2[i].0@ == k by {
                    let i = choose|i: int| 0 <= i < e.len() && e[i].0@ == k;
                    if i < f {
                        assert(e2[i].0@ == k);
                    } else {
                        assert(e2[i - 1].0@ == k);
                    }
                }
                assert forall|a: int, b: int| 0 <= a < b < e2.len() implies e2[a].0@ != e2[b].0@ by {
                    let a1 = if a < f { a } else { a + 1 };
                    let b1 = if b < f { b } else { b + 1 };
                    assert(e2[a] == e[a1] && e2[b] == e[b1]);
                }
            }
        } else {
            proof {
                let e2 = entries@;
                assert forall|k: IdentityView| #[trigger] m2.contains_key(k) implies exists|i: int|
                    0 <= i < e2.len() && e2[i].0@ == k by {
                    let i = choose|i: int| 0 <= i < e.len() && e[i].0@ == k;
                    assert(e2[i].0@ == k);
                }
            }
        }
        proof {
            let e2 = entries@;
            assert(index_ok(m2));
            assert(forall|i: int| 0 <= i < e2.len() ==> m2.contains_key(#[trigger] e2[i].0@) && m2[e2[i].0@]
            == e2[i].1@);
            assert(keys_unique(e2));
        }
        *self = WindowIndex { entries, model: Ghost(m2) };
    }
}

} // verus!
