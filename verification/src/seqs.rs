//! Small sequence-scanning vocabulary shared by the whole crate.
//!
//! Reads over the store are phrased as "the first element satisfying a
//! predicate" ([`first_of`]) or "the ids of every element satisfying a
//! predicate, in order" ([`selected_ids`]); deletes are phrased as "the
//! elements that survive a predicate, in order" ([`kept`]).
use vstd::prelude::*;

verus! {

/// The first element of `s` at or after position `i` that satisfies `p`.
pub open spec fn first_of_from<A>(s: Seq<A>, p: spec_fn(A) -> bool, i: int) -> Option<A>
    decreases s.len() - i,
{
    if i < 0 || i >= s.len() {
        None
    } else if p(s[i]) {
        Some(s[i])
    } else {
        first_of_from(s, p, i + 1)
    }
}

/// The first element of `s` that satisfies `p`.
pub open spec fn first_of<A>(s: Seq<A>, p: spec_fn(A) -> bool) -> Option<A> {
    first_of_from(s, p, 0)
}

/// The ids `f` projects out of the elements of `s` satisfying `p`, from
/// position `i` on, in sequence order.
pub open spec fn selected_ids_from<A>(
    s: Seq<A>,
    p: spec_fn(A) -> bool,
    f: spec_fn(A) -> u64,
    i: int,
) -> Seq<u64>
    decreases s.len() - i,
{
    if i < 0 || i >= s.len() {
        Seq::empty()
    } else if p(s[i]) {
        seq![f(s[i])] + selected_ids_from(s, p, f, i + 1)
    } else {
        selected_ids_from(s, p, f, i + 1)
    }
}

/// The ids `f` projects out of the elements of `s` satisfying `p`, in order.
pub open spec fn selected_ids<A>(s: Seq<A>, p: spec_fn(A) -> bool, f: spec_fn(A) -> u64) -> Seq<
    u64,
> {
    selected_ids_from(s, p, f, 0)
}

/// The elements among the first `j` of `s` that satisfy `p`, in order.
pub open spec fn kept_upto<A>(s: Seq<A>, p: spec_fn(A) -> bool, j: int) -> Seq<A>
    decreases j,
{
    if j <= 0 || j > s.len() {
        Seq::empty()
    } else if p(s[j - 1]) {
        kept_upto(s, p, j - 1).push(s[j - 1])
    } else {
        kept_upto(s, p, j - 1)
    }
}

/// The elements of `s` that satisfy `p`, in order.
pub open spec fn kept<A>(s: Seq<A>, p: spec_fn(A) -> bool) -> Seq<A> {
    kept_upto(s, p, s.len() as int)
}

/// A scan's result is `Some` exactly when some element satisfies the
/// predicate.
pub proof fn lemma_first_of_exists<A>(s: Seq<A>, p: spec_fn(A) -> bool, i: int)
    requires
        0 <= i <= s.len(),
    ensures
        first_of_from(s, p, i) is Some <==> exists|k: int| i <= k < s.len() && p(#[trigger] s[k]),
    decreases s.len() - i,
{
    if i < s.len() && !p(s[i]) {
        lemma_first_of_exists(s, p, i + 1);
    }
}

/// What a successful scan returns: an element of `s` that satisfies `p`.
pub proof fn lemma_first_of_is_hit<A>(s: Seq<A>, p: spec_fn(A) -> bool, i: int)
    requires
        0 <= i <= s.len(),
        first_of_from(s, p, i) is Some,
    ensures
        p(first_of_from(s, p, i)->Some_0),
        exists|k: int|
            i <= k < s.len() && s[k] == first_of_from(s, p, i)->Some_0 && p(#[trigger] s[k]),
    decreases s.len() - i,
{
    if i < s.len() && !p(s[i]) {
        lemma_first_of_is_hit(s, p, i + 1);
    }
}

/// Every survivor of a filter among the first `j` elements is an element
/// of the original sequence.
pub proof fn lemma_kept_upto_subset<A>(s: Seq<A>, p: spec_fn(A) -> bool, j: int)
    requires
        j <= s.len(),
    ensures
        forall|i: int|
            0 <= i < kept_upto(s, p, j).len() ==> s.contains(#[trigger] kept_upto(s, p, j)[i]),
    decreases j,
{
    if j > 0 {
        lemma_kept_upto_subset(s, p, j - 1);
        assert forall|i: int| 0 <= i < kept_upto(s, p, j).len() implies s.contains(
            #[trigger] kept_upto(s, p, j)[i],
        ) by {
            if p(s[j - 1]) && i == kept_upto(s, p, j).len() - 1 {
                assert(kept_upto(s, p, j)[i] == s[j - 1]);
                assert(s.contains(s[j - 1]));
            } else {
                assert(kept_upto(s, p, j)[i] == kept_upto(s, p, j - 1)[i]);
            }
        }
    }
}

/// Every survivor of a filter is an element of the original sequence.
pub proof fn lemma_kept_subset<A>(s: Seq<A>, p: spec_fn(A) -> bool)
    ensures
        forall|i: int| 0 <= i < kept(s, p).len() ==> s.contains(#[trigger] kept(s, p)[i]),
{
    lemma_kept_upto_subset(s, p, s.len() as int);
}

/// The id list of a scan is empty exactly when the first hit is absent, and
/// otherwise starts with the first hit's id.
pub proof fn lemma_selected_ids_head<A>(s: Seq<A>, p: spec_fn(A) -> bool, f: spec_fn(A) -> u64, i: int)
    requires
        0 <= i <= s.len(),
    ensures
        (match first_of_from(s, p, i) {
            None => selected_ids_from(s, p, f, i).len() == 0,
            Some(x) => selected_ids_from(s, p, f, i).len() > 0 && selected_ids_from(s, p, f, i)[0]
                == f(x),
        }),
    decreases s.len() - i,
{
    if i < s.len() {
        lemma_selected_ids_head(s, p, f, i + 1);
        if p(s[i]) {
            assert(selected_ids_from(s, p, f, i) == seq![f(s[i])] + selected_ids_from(
                s,
                p,
                f,
                i + 1,
            ));
        }
    }
}

} // verus!
