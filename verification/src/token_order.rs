//! Sets of tokens as ascending sequences.
use vstd::prelude::*;
use vstd::seq_lib::lemma_sorted_unique;

verus! {

/// The order of tokens.
pub open spec fn token_leq() -> spec_fn(usize, usize) -> bool {
    |left: usize, right: usize| left <= right
}

/// The members of a set of tokens, the smallest first.
pub open spec fn in_token_order(tokens: Set<usize>) -> Seq<usize> {
    tokens.to_sorted_seq(token_leq())
}

/// Whether every token of the sequence is smaller than those that follow it.
pub open spec fn ascends(tokens: Seq<usize>) -> bool {
    forall|i: int, j: int| 0 <= i < j < tokens.len() ==> tokens[i] < tokens[j]
}

proof fn lemma_set_as_seq(tokens: Set<usize>)
    requires
        tokens.finite(),
    ensures
        tokens.to_seq().to_set() == tokens,
        tokens.to_seq().no_duplicates(),
{
    tokens.lemma_to_seq_to_set_id();
    lemma_set_as_seq_len(tokens);
    tokens.to_seq().lemma_no_dup_set_cardinality();
}

proof fn lemma_set_as_seq_len(tokens: Set<usize>)
    requires
        tokens.finite(),
    ensures
        tokens.to_seq().len() == tokens.len(),
    decreases tokens.len(),
{
    if tokens.len() > 0 {
        lemma_set_as_seq_len(tokens.remove(tokens.choose()));
    }
}

/// Two sequences without duplicates that have the same members are equal as multisets.
proof fn lemma_same_multiset(left: Seq<usize>, right: Seq<usize>)
    requires
        left.no_duplicates(),
        right.no_duplicates(),
        left.to_set() == right.to_set(),
    ensures
        left.to_multiset() == right.to_multiset(),
{
    broadcast use vstd::seq_lib::group_to_multiset_ensures;

    left.lemma_multiset_has_no_duplicates();
    right.lemma_multiset_has_no_duplicates();
    assert forall|token: usize|
        left.to_multiset().count(token) == right.to_multiset().count(token) by {
        assert(left.to_set().contains(token) == left.contains(token));
        assert(right.to_set().contains(token) == right.contains(token));
    }
    assert(left.to_multiset() =~= right.to_multiset());
}

/// The sequence that [`in_token_order`] gives ascends and has the members of the set.
pub proof fn lemma_in_token_order(tokens: Set<usize>)
    requires
        tokens.finite(),
    ensures
        ascends(in_token_order(tokens)),
        in_token_order(tokens).to_set() == tokens,
        in_token_order(tokens).len() == tokens.len(),
{
    broadcast use vstd::seq_lib::group_to_multiset_ensures;

    let unordered = tokens.to_seq();
    let ordered = in_token_order(tokens);
    lemma_set_as_seq(tokens);
    lemma_set_as_seq_len(tokens);
    unordered.lemma_sort_by_ensures(token_leq());
    unordered.lemma_multiset_has_no_duplicates();
    ordered.lemma_multiset_has_no_duplicates_conv();
    assert forall|token: usize| ordered.to_set().contains(token) == tokens.contains(token) by {
        assert(unordered.to_set().contains(token) == unordered.contains(token));
        assert(unordered.contains(token) == ordered.contains(token)) by {
            assert(unordered.contains(token) <==> unordered.to_multiset().count(token) > 0);
            assert(ordered.contains(token) <==> ordered.to_multiset().count(token) > 0);
        }
    }
    assert(ordered.to_set() =~= tokens);
    ordered.unique_seq_to_set();
    assert forall|i: int, j: int| 0 <= i < j < ordered.len() implies ordered[i] < ordered[j] by {
        assert(token_leq()(ordered[i], ordered[j]));
    }
}

/// An ascending sequence that has the members of the set is the one that [`in_token_order`] gives.
pub proof fn lemma_in_token_order_unique(tokens: Set<usize>, listed: Seq<usize>)
    requires
        tokens.finite(),
        ascends(listed),
        listed.to_set() == tokens,
    ensures
        listed == in_token_order(tokens),
{
    lemma_in_token_order(tokens);
    let ordered = in_token_order(tokens);
    lemma_same_multiset(listed, ordered);
    lemma_sorted_unique(listed, ordered, token_leq());
}

} // verus!
