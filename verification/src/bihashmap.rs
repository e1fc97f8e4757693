//! A bidirectional unique mapping between two key spaces.
//!
//! The position index of the signaller is one of these: block identifier on
//! one side, train identifier on the other. Both directions are kept in
//! lockstep behind one update API — a pair is only ever inserted or removed
//! whole, so removing by either key clears both sides.
//!
//! The pairs are held in one sequence, which is what the contracts speak of;
//! lookups by either key scan it. Callers that keep the sequence consistent
//! (no key repeated on either side, see [`BiHashMap::consistent`]) get
//! map-like behaviour in both directions.

use vstd::prelude::*;
use vstd::std_specs::cmp::PartialEqSpec;

verus! {

/// A bidirectional mapping from `A`-keys to `B`-keys and back.
#[derive(Debug)]
pub struct BiHashMap<A, B> {
    pairs: Vec<(A, B)>,
}

impl<A: PartialEq + Copy, B: PartialEq + Copy> View for BiHashMap<A, B> {
    type V = Seq<(A, B)>;

    closed spec fn view(&self) -> Seq<(A, B)> {
        self.pairs@
    }
}

impl<A: PartialEq + Copy, B: PartialEq + Copy> BiHashMap<A, B> {
    /// No key appears twice on either side: each `A`-key and each `B`-key
    /// belongs to at most one pair.
    pub open spec fn consistent(s: Seq<(A, B)>) -> bool {
        forall|i: int, j: int|
            0 <= i < j < s.len() ==> !(#[trigger] s[i]).0.eq_spec(&(#[trigger] s[j]).0) && !s[i].1.eq_spec(
                &s[j].1,
            )
    }

    /// The pairs of `s` that are keyed neither by `a` nor by `b`, in order.
    pub open spec fn drop_keys(s: Seq<(A, B)>, a: A, b: B) -> Seq<(A, B)>
        decreases s.len(),
    {
        if s.len() == 0 {
            Seq::empty()
        } else {
            let init = Self::drop_keys(s.drop_last(), a, b);
            if s.last().0.eq_spec(&a) || s.last().1.eq_spec(&b) {
                init
            } else {
                init.push(s.last())
            }
        }
    }

    /// An empty index.
    pub fn new() -> (r: Self)
        ensures
            r@ == Seq::<(A, B)>::empty(),
    {
        BiHashMap { pairs: Vec::new() }
    }

    /// Records the pair `(a, b)`. The caller keeps the index consistent by
    /// pairing every insert with the removal of any stale entry first.
    pub fn insert(&mut self, a: A, b: B)
        ensures
            final(self)@ == old(self)@.push((a, b)),
    {
        self.pairs.push((a, b));
    }

    /// Removes every pair keyed by `a` on the first side and every pair
    /// keyed by `b` on the second — removal by either key clears both sides
    /// of a pair whole.
    pub fn remove(&mut self, a: &A, b: &B)
        ensures
            A::obeys_eq_spec() && B::obeys_eq_spec() ==> final(self)@ == Self::drop_keys(
                old(self)@,
                *a,
                *b,
            ),
    {
        let mut kept: Vec<(A, B)> = Vec::new();
        let n = self.pairs.len();
        let mut i: usize = 0;
        while i < n
            invariant
                i <= n,
                n == self.pairs.len(),
                self.pairs@ == old(self)@,
                A::obeys_eq_spec() && B::obeys_eq_spec() ==> kept@ == Self::drop_keys(
                    old(self)@.take(i as int),
                    *a,
                    *b,
                ),
            decreases n - i,
        {
            let p = self.pairs[i];
            let hit_a = p.0 == *a;
            let hit_b = p.1 == *b;
            if !(hit_a || hit_b) {
                kept.push(p);
            }
            proof {
                let s = old(self)@;
                assert(s.take(i + 1).drop_last() =~= s.take(i as int));
                assert(s.take(i + 1).last() == s[i as int]);
            }
            i = i + 1;
        }
        proof {
            assert(old(self)@.take(n as int) =~= old(self)@);
        }
        self.pairs = kept;
    }

    /// Looks up by both keys at once: the `B`-key paired with `a`, and the
    /// `A`-key paired with `b`, each `None` when no pair carries that key.
    pub fn get(&self, a: &A, b: &B) -> (r: (Option<B>, Option<A>))
        ensures
            A::obeys_eq_spec() ==> match r.0 {
                Some(bv) => exists|i: int|
                    0 <= i < self@.len() && (#[trigger] self@[i]).0.eq_spec(a) && self@[i].1 == bv,
                None => forall|i: int| 0 <= i < self@.len() ==> !(#[trigger] self@[i]).0.eq_spec(a),
            },
            B::obeys_eq_spec() ==> match r.1 {
                Some(av) => exists|i: int|
                    0 <= i < self@.len() && (#[trigger] self@[i]).1.eq_spec(b) && self@[i].0 == av,
                None => forall|i: int| 0 <= i < self@.len() ==> !(#[trigger] self@[i]).1.eq_spec(b),
            },
    {
        let mut by_a: Option<B> = None;
        let mut by_b: Option<A> = None;
        let ghost mut wa: int = 0;
        let ghost mut wb: int = 0;
        let n = self.pairs.len();
        let mut i: usize = 0;
        while i < n
            invariant
                i <= n,
                n == self.pairs.len(),
                A::obeys_eq_spec() ==> match by_a {
                    Some(bv) => 0 <= wa < i && self@[wa].0.eq_spec(a) && self@[wa].1 == bv,
                    None => forall|k: int| 0 <= k < i ==> !(#[trigger] self@[k]).0.eq_spec(a),
                },
                B::obeys_eq_spec() ==> match by_b {
                    Some(av) => 0 <= wb < i && self@[wb].1.eq_spec(b) && self@[wb].0 == av,
                    None => forall|k: int| 0 <= k < i ==> !(#[trigger] self@[k]).1.eq_spec(b),
                },
            decreases n - i,
        {
            let p = self.pairs[i];
            if by_a.is_none() && p.0 == *a {
                by_a = Some(p.1);
                proof {
                    wa = i as int;
                }
            }
            if by_b.is_none() && p.1 == *b {
                by_b = Some(p.0);
                proof {
                    wb = i as int;
                }
            }
            i = i + 1;
        }
        proof {
            if A::obeys_eq_spec() && by_a is Some {
                assert((#[trigger] self@[wa]).0.eq_spec(a));
            }
            if B::obeys_eq_spec() && by_b is Some {
                assert((#[trigger] self@[wb]).1.eq_spec(b));
            }
        }
        (by_a, by_b)
    }
}

} // verus!
