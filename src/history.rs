//! The recency list: the handles of the most recently focused windows,
//! oldest first, without repetition and at most [`LEN`] long.
use vstd::prelude::*;

verus! {

/// The capacity of the recency list.
pub const LEN: usize = 32;

/// No handle occurs twice in `s`.
pub open spec fn no_dups(s: Seq<i64>) -> bool {
    forall|i: int, j: int| 0 <= i < j < s.len() ==> s[i] != s[j]
}

/// A well-formed recency list: no repetition, at most [`LEN`] entries.
pub open spec fn history_ok(s: Seq<i64>) -> bool {
    no_dups(s) && s.len() <= LEN
}

/// `s` with every occurrence of `h` taken out, the rest in order.
pub open spec fn without(s: Seq<i64>, h: i64) -> Seq<i64> {
    s.filter(|x: i64| x != h)
}

/// The recency list after `h` is focused: `h` moves to the tail, and the
/// head is evicted when the list outgrows its capacity.
pub open spec fn after_focus(s: Seq<i64>, h: i64) -> Seq<i64> {
    let t = without(s, h).push(h);
    if t.len() > LEN {
        t.drop_first()
    } else {
        t
    }
}

/// The handle focused before the current one: the second entry from the
/// tail, if there is one.
pub open spec fn last_of(s: Seq<i64>) -> Option<i64> {
    if s.len() >= 2 {
        Some(s[s.len() - 2])
    } else {
        None
    }
}

/// The handle focused now: the tail, if there is one.
pub open spec fn now_of(s: Seq<i64>) -> Option<i64> {
    if s.len() >= 1 {
        Some(s.last())
    } else {
        None
    }
}

/// What taking a handle out of a sequence does to its elements and length.
pub proof fn lemma_without(s: Seq<i64>, h: i64)
    ensures
        without(s, h).len() <= s.len(),
        forall|x: i64| #[trigger] without(s, h).contains(x) <==> (s.contains(x) && x != h),
        no_dups(s) ==> no_dups(without(s, h)),
        !s.contains(h) ==> without(s, h) == s,
        no_dups(s) && s.contains(h) ==> without(s, h).len() + 1 == s.len(),
    decreases s.len(),
{
    reveal(Seq::filter);
    if s.len() > 0 {
        let init = s.drop_last();
        lemma_without(init, h);
        assert(s =~= init.push(s.last()));
        assert forall|x: i64| #[trigger] without(s, h).contains(x) <==> (s.contains(x) && x != h) by {
            if s.contains(x) && x != h {
                let i = choose|i: int| 0 <= i < s.len() && s[i] == x;
                if i < s.len() - 1 {
                    assert(init[i] == x);
                    assert(init.contains(x));
                }
            }
            if without(s, h).contains(x) {
                if without(init, h).contains(x) {
                    let i = choose|i: int| 0 <= i < init.len() && init[i] == x;
                    assert(s[i] == x);
                }
            }
        }
        if no_dups(s) {
            assert(no_dups(init));
            assert(!init.contains(s.last()));
            if s.last() != h {
                let w = without(init, h);
                let ws = without(s, h);
                assert(ws =~= w.push(s.last()));
                assert(!w.contains(s.last()));
                assert forall|i: int, j: int| 0 <= i < j < ws.len() implies ws[i] != ws[j] by {
                    if j == w.len() {
                        assert(w.contains(ws[i]));
                    }
                }
            }
        }
        if !s.contains(h) {
            assert forall|i: int| 0 <= i < init.len() implies init[i] != h by {
                assert(s[i] == init[i]);
            }
            assert(!init.contains(h));
        }
        if no_dups(s) && s.contains(h) && s.last() != h {
            let i = choose|i: int| 0 <= i < s.len() && s[i] == h;
            assert(init[i] == h);
        }
    }
}

/// In a list without repetition, taking out the handle at position `j` is
/// removing that position.
pub proof fn lemma_without_at(s: Seq<i64>, j: int)
    requires
        no_dups(s),
        0 <= j < s.len(),
    ensures
        without(s, s[j]) == s.remove(j),
    decreases s.len(),
{
    reveal(Seq::filter);
    let h = s[j];
    let init = s.drop_last();
    assert(no_dups(init));
    if j == s.len() - 1 {
        assert forall|i: int| 0 <= i < init.len() implies init[i] != h by {
            assert(s[i] == init[i]);
        }
        lemma_without(init, h);
        assert(init =~= s.remove(j));
    } else {
        assert(init[j] == h);
        lemma_without_at(init, j);
        assert(s.last() != h);
        assert(init.remove(j).push(s.last()) =~= s.remove(j));
    }
}

/// Focusing keeps a recency list well formed.
pub proof fn lemma_after_focus_ok(s: Seq<i64>, h: i64)
    requires
        history_ok(s),
    ensures
        history_ok(after_focus(s, h)),
        now_of(after_focus(s, h)) == Some(h),
        last_of(after_focus(s, h)) == now_of(without(s, h)),
{
    lemma_without(s, h);
    let w = without(s, h);
    let t = w.push(h);
    assert(!w.contains(h));
    assert forall|i: int, j: int| 0 <= i < j < t.len() implies t[i] != t[j] by {
        if j == t.len() - 1 {
            assert(w.contains(t[i]));
        }
    }
}

/// Taking a handle out keeps a recency list well formed.
pub proof fn lemma_without_ok(s: Seq<i64>, h: i64)
    requires
        history_ok(s),
    ensures
        history_ok(without(s, h)),
{
    lemma_without(s, h);
}

/// Whether `h` occurs in `v`.
pub fn contains_handle(v: &Vec<i64>, h: i64) -> (r: bool)
    ensures
        r == v@.contains(h),
{
    let mut i: usize = 0;
    while i < v.len()
        invariant
            0 <= i <= v@.len(),
            forall|j: int| 0 <= j < i ==> v@[j] != h,
        decreases v@.len() - i,
    {
        if v[i] == h {
            return true;
        }
        i = i + 1;
    }
    false
}

/// Takes every occurrence of `h` out of `v`, keeping the rest in order.
pub fn remove_handle(v: &mut Vec<i64>, h: i64)
    ensures
        final(v)@ == without(old(v)@, h),
{
    let mut kept: Vec<i64> = Vec::new();
    let mut i: usize = 0;
    while i < v.len()
        invariant
            0 <= i <= v.len(),
            kept@ == without(v@.take(i as int), h),
        decreases v.len() - i,
    {
        proof {
            reveal(Seq::filter);
            assert(v@.take(i + 1).drop_last() =~= v@.take(i as int));
        }
        if v[i] != h {
            kept.push(v[i]);
        }
        i = i + 1;
    }
    proof {
        assert(v@.take(v@.len() as int) =~= v@);
    }
    std::mem::swap(v, &mut kept);
}

/// Records a focus of `h` in the recency list `v`.
pub fn record_focus(v: &mut Vec<i64>, h: i64)
    ensures
        final(v)@ == after_focus(old(v)@, h),
{
    remove_handle(v, h);
    v.push(h);
    if v.len() > LEN {
        v.remove(0);
        proof {
            assert(final(v)@ =~= after_focus(old(v)@, h));
        }
    }
}

/// The recency list of focused windows.
pub struct Recency {
    list: Vec<i64>,
}

impl View for Recency {
    type V = Seq<i64>;

    closed spec fn view(&self) -> Seq<i64> {
        self.list@
    }
}

impl Recency {
    #[verifier::type_invariant]
    closed spec fn inv(self) -> bool {
        history_ok(self.list@)
    }

    /// An empty recency list.
    pub fn new() -> (r: Recency)
        ensures
            r@ == Seq::<i64>::empty(),
    {
        Recency { list: Vec::with_capacity(LEN) }
    }

    /// Every recency list is well formed.
    pub fn well_formed(&self)
        ensures
            history_ok(self@),
    {
        proof {
            use_type_invariant(self);
        }
    }

    /// Records that the window `h` got the focus.
    pub fn focus(&mut self, h: i64)
        ensures
            final(self)@ == after_focus(old(self)@, h),
    {
        proof {
            use_type_invariant(&*self);
            lemma_after_focus_ok(self@, h);
        }
        let mut taken = Recency::new();
        std::mem::swap(self, &mut taken);
        let Recency { mut list } = taken;
        record_focus(&mut list, h);
        *self = Recency { list };
    }

    /// Forgets the window `h`, if the list holds it.
    pub fn close(&mut self, h: i64)
        ensures
            final(self)@ == without(old(self)@, h),
    {
        proof {
            use_type_invariant(&*self);
            lemma_without_ok(self@, h);
        }
        let mut taken = Recency::new();
        std::mem::swap(self, &mut taken);
        let Recency { mut list } = taken;
        remove_handle(&mut list, h);
        *self = Recency { list };
    }

    /// The handle focused now, if any.
    pub fn now_on(&self) -> (r: Option<i64>)
        ensures
            r == now_of(self@),
    {
        let n = self.list.len();
        if n >= 1 {
            Some(self.list[n - 1])
        } else {
            None
        }
    }

    /// The handle focused before the current one, if any.
    pub fn last(&self) -> (r: Option<i64>)
        ensures
            r == last_of(self@),
    {
        let n = self.list.len();
        if n >= 2 {
            Some(self.list[n - 2])
        } else {
            None
        }
    }

    /// The handles, oldest first.
    pub fn as_vec(&self) -> (r: &Vec<i64>)
        ensures
            r@ == self@,
    {
        &self.list
    }
}

} // verus!
