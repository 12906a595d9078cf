//! Facts about sequences that the contracts of the stores rest on.

use vstd::prelude::*;

verus! {

/// Reading the elements of two sequences laid end to end gives what reading
/// each gives, laid end to end.
pub proof fn lemma_filter_map_concat<A, B>(a: Seq<A>, b: Seq<A>, f: spec_fn(A) -> Option<B>)
    ensures
        (a + b).filter_map(f) == a.filter_map(f) + b.filter_map(f),
    decreases b.len(),
{
    if b.len() == 0 {
        assert(a + b =~= a);
        assert(a.filter_map(f) + b.filter_map(f) =~= a.filter_map(f));
    } else {
        lemma_filter_map_concat(a, b.drop_last(), f);
        assert((a + b).drop_last() =~= a + b.drop_last());
        assert((a + b).last() == b.last());
        match f(b.last()) {
            Some(read) => {
                assert(a.filter_map(f) + (b.drop_last().filter_map(f) + seq![read]) =~= (
                a.filter_map(f) + b.drop_last().filter_map(f)) + seq![read]);
            },
            None => {},
        }
    }
}

/// Where every element of a sequence can be read, reading the sequence gives
/// one value for each element, in the same place.
pub proof fn lemma_filter_map_total<A, B>(s: Seq<A>, f: spec_fn(A) -> Option<B>)
    requires
        forall|i: int| 0 <= i < s.len() ==> f(#[trigger] s[i]) is Some,
    ensures
        s.filter_map(f).len() == s.len(),
        forall|i: int| 0 <= i < s.len() ==> Some(#[trigger] s.filter_map(f)[i]) == f(s[i]),
    decreases s.len(),
{
    if s.len() > 0 {
        let rest = s.drop_last();
        assert forall|i: int| 0 <= i < rest.len() implies f(#[trigger] rest[i]) is Some by {
            assert(rest[i] == s[i]);
        }
        lemma_filter_map_total(rest, f);
        assert(f(s.last()) is Some) by {
            assert(s.last() == s[s.len() - 1]);
        }
        assert forall|i: int| 0 <= i < s.len() implies Some(#[trigger] s.filter_map(f)[i]) == f(
            s[i],
        ) by {
            if i < rest.len() {
                assert(rest[i] == s[i]);
            }
        }
    }
}

/// Reading a sequence of one element gives that element's reading, or nothing.
pub proof fn lemma_filter_map_one<A, B>(a: A, f: spec_fn(A) -> Option<B>)
    ensures
        seq![a].filter_map(f) == match f(a) {
            Some(read) => seq![read],
            None => Seq::<B>::empty(),
        },
{
    Seq::<A>::lemma_filter_map_singleton(a, f);
}

} // verus!
