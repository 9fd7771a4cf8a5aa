//! The shared model of every discarding adaptor: walk the input front to
//! back, keep or drop each element, never reorder.

use vstd::prelude::*;

verus! {

/// Walk `s` from the front; each element either contributes `step`'s output
/// or is dropped. The whole filter / filter-map / unwrap family of adaptors
/// produces exactly such a sequence.
pub open spec fn sift<A, B>(s: Seq<A>, step: spec_fn(A) -> Option<B>) -> Seq<B>
    decreases s.len(),
{
    if s.len() == 0 {
        Seq::empty()
    } else {
        match step(s[0]) {
            Some(b) => seq![b] + sift(s.drop_first(), step),
            None => sift(s.drop_first(), step),
        }
    }
}

/// A head the step keeps becomes the front of the output; the rest of the
/// output comes from the rest of the input.
pub proof fn lemma_sift_emit<A, B>(s: Seq<A>, step: spec_fn(A) -> Option<B>, b: B)
    requires
        s.len() > 0,
        step(s[0]) == Some(b),
    ensures
        sift(s, step).len() > 0,
        sift(s, step)[0] == b,
        sift(s, step).drop_first() == sift(s.drop_first(), step),
{
    assert(sift(s, step).drop_first() =~= sift(s.drop_first(), step));
}

/// A head the step drops contributes nothing.
pub proof fn lemma_sift_skip<A, B>(s: Seq<A>, step: spec_fn(A) -> Option<B>)
    requires
        s.len() > 0,
        step(s[0]) is None,
    ensures
        sift(s, step) == sift(s.drop_first(), step),
{
}

/// Steps that agree on every element sift every sequence alike.
pub proof fn lemma_sift_congruence<A, B>(
    s: Seq<A>,
    step1: spec_fn(A) -> Option<B>,
    step2: spec_fn(A) -> Option<B>,
)
    requires
        forall|a: A| #[trigger] step1(a) == step2(a),
    ensures
        sift(s, step1) == sift(s, step2),
    decreases s.len(),
{
    if s.len() > 0 {
        lemma_sift_congruence(s.drop_first(), step1, step2);
    }
}

/// Sifting never creates elements.
pub proof fn lemma_sift_len<A, B>(s: Seq<A>, step: spec_fn(A) -> Option<B>)
    ensures
        sift(s, step).len() <= s.len(),
    decreases s.len(),
{
    if s.len() > 0 {
        lemma_sift_len(s.drop_first(), step);
    }
}

/// Sifting a concatenation sifts each part in place.
pub proof fn lemma_sift_distributes<A, B>(a: Seq<A>, b: Seq<A>, step: spec_fn(A) -> Option<B>)
    ensures
        sift(a + b, step) == sift(a, step) + sift(b, step),
    decreases a.len(),
{
    if a.len() == 0 {
        assert(a + b =~= b);
        assert(sift(a, step) + sift(b, step) =~= sift(b, step));
    } else {
        assert((a + b).drop_first() =~= a.drop_first() + b);
        lemma_sift_distributes(a.drop_first(), b, step);
        match step(a[0]) {
            Some(x) => {
                assert(sift(a + b, step) =~= sift(a, step) + sift(b, step));
            },
            None => {},
        }
    }
}

/// Sifting is exactly `Seq::filter_map`: the step's outputs, in input order.
pub proof fn lemma_sift_is_filter_map<A, B>(s: Seq<A>, step: spec_fn(A) -> Option<B>)
    ensures
        sift(s, step) == s.filter_map(step),
    decreases s.len(),
{
    if s.len() == 0 {
        assert(sift(s, step) =~= s.filter_map(step));
    } else {
        let init = s.drop_last();
        let last = s.last();
        lemma_sift_is_filter_map(init, step);
        lemma_sift_distributes(init, seq![last], step);
        assert(init + seq![last] =~= s);
        assert(seq![last].drop_first() =~= Seq::<A>::empty());
        assert(sift(Seq::<A>::empty(), step) =~= Seq::<B>::empty());
        assert(sift(seq![last], step) =~= match step(last) {
            Some(b) => seq![b],
            None => Seq::<B>::empty(),
        });
        assert(s.filter_map(step) =~= sift(s, step));
    }
}

/// Every element the sift emits is the step's output on some input element.
pub proof fn lemma_sift_provenance<A, B>(s: Seq<A>, step: spec_fn(A) -> Option<B>)
    ensures
        forall|j: int|
            0 <= j < sift(s, step).len() ==> exists|a: A|
                s.contains(a) && step(a) == Some(#[trigger] sift(s, step)[j]),
    decreases s.len(),
{
    if s.len() > 0 {
        let rest = s.drop_first();
        lemma_sift_provenance(rest, step);
        assert forall|j: int| 0 <= j < sift(s, step).len() implies exists|a: A|
            s.contains(a) && step(a) == Some(#[trigger] sift(s, step)[j]) by {
            match step(s[0]) {
                Some(b) => {
                    if j == 0 {
                        assert(s.contains(s[0]) && step(s[0]) == Some(sift(s, step)[0]));
                    } else {
                        assert(sift(s, step)[j] == sift(rest, step)[j - 1]);
                        let a = choose|a: A|
                            rest.contains(a) && step(a) == Some(sift(rest, step)[j - 1]);
                        let i = choose|i: int| 0 <= i < rest.len() && rest[i] == a;
                        assert(s[i + 1] == a);
                        assert(s.contains(a));
                    }
                },
                None => {
                    let a = choose|a: A| rest.contains(a) && step(a) == Some(sift(rest, step)[j]);
                    let i = choose|i: int| 0 <= i < rest.len() && rest[i] == a;
                    assert(s[i + 1] == a);
                    assert(s.contains(a));
                },
            }
        }
    }
}

/// Sifting with a keep-or-drop step that never rewrites a kept element is
/// exactly `Seq::filter`: the survivors, in input order.
pub proof fn lemma_sift_is_filter<A>(
    s: Seq<A>,
    step: spec_fn(A) -> Option<A>,
    keep: spec_fn(A) -> bool,
)
    requires
        forall|a: A| #[trigger] step(a) == if keep(a) {
            Some(a)
        } else {
            None::<A>
        },
    ensures
        sift(s, step) == s.filter(keep),
    decreases s.len(),
{
    reveal(Seq::filter);
    if s.len() == 0 {
        assert(sift(s, step) =~= s.filter(keep));
    } else {
        let init = s.drop_last();
        let last = s.last();
        lemma_sift_is_filter(init, step, keep);
        lemma_sift_distributes(init, seq![last], step);
        assert(init + seq![last] =~= s);
        assert(init.push(last) =~= s);
        Seq::<A>::lemma_filter_push(init, last, keep);
        assert(seq![last].drop_first() =~= Seq::<A>::empty());
        assert(sift(Seq::<A>::empty(), step) =~= Seq::<A>::empty());
        assert(sift(seq![last], step) =~= if keep(last) {
            seq![last]
        } else {
            Seq::<A>::empty()
        });
        assert(s.filter(keep) =~= sift(s, step));
    }
}

} // verus!
