//! The inventory ledger: a sequence of prefix buckets, none of them empty.
use vstd::prelude::*;

use crate::types::{ContractError, RemainingToken};

verus! {

/// Number of items left over all buckets.
pub open spec fn total_count(s: Seq<RemainingToken>) -> int
    decreases s.len(),
{
    if s.len() == 0 {
        0
    } else {
        total_count(s.drop_last()) + s.last().count
    }
}

/// Every bucket of the ledger holds at least one item.
pub open spec fn no_empty_buckets(s: Seq<RemainingToken>) -> bool {
    forall|i: int| 0 <= i < s.len() ==> s[i].count > 0
}

/// Some bucket of `s` has prefix `p`.
pub open spec fn has_prefix(s: Seq<RemainingToken>, p: Seq<char>) -> bool {
    exists|i: int| 0 <= i < s.len() && s[i].prefix@ == p
}

/// `i` is the first bucket of `s` with prefix `p`.
pub open spec fn is_first_prefix(s: Seq<RemainingToken>, p: Seq<char>, i: int) -> bool {
    &&& 0 <= i < s.len()
    &&& s[i].prefix@ == p
    &&& forall|j: int| 0 <= j < i ==> s[j].prefix@ != p
}

/// The ledger after taking one item out of bucket `i`; an emptied bucket is removed.
pub open spec fn decremented_at(s: Seq<RemainingToken>, i: int) -> Seq<RemainingToken> {
    if s[i].count <= 1 {
        s.remove(i)
    } else {
        s.update(i, RemainingToken { prefix: s[i].prefix, count: (s[i].count - 1) as u64 })
    }
}

pub proof fn lemma_total_count_update(s: Seq<RemainingToken>, i: int, x: RemainingToken)
    requires
        0 <= i < s.len(),
    ensures
        total_count(s.update(i, x)) == total_count(s) - s[i].count + x.count,
    decreases s.len(),
{
    if i == s.len() - 1 {
        assert(s.update(i, x).drop_last() =~= s.drop_last());
    } else {
        lemma_total_count_update(s.drop_last(), i, x);
        assert(s.update(i, x).drop_last() =~= s.drop_last().update(i, x));
    }
}

pub proof fn lemma_total_count_remove(s: Seq<RemainingToken>, i: int)
    requires
        0 <= i < s.len(),
    ensures
        total_count(s.remove(i)) == total_count(s) - s[i].count,
    decreases s.len(),
{
    if i == s.len() - 1 {
        assert(s.remove(i) =~= s.drop_last());
    } else {
        lemma_total_count_remove(s.drop_last(), i);
        assert(s.remove(i).drop_last() =~= s.drop_last().remove(i));
    }
}

/// Taking an item out of a ledger without empty buckets leaves one item less
/// and still no empty bucket.
pub proof fn lemma_decremented_at(s: Seq<RemainingToken>, i: int)
    requires
        no_empty_buckets(s),
        0 <= i < s.len(),
    ensures
        total_count(decremented_at(s, i)) + 1 == total_count(s),
        no_empty_buckets(decremented_at(s, i)),
{
    if s[i].count <= 1 {
        lemma_total_count_remove(s, i);
        assert forall|k: int| 0 <= k < s.remove(i).len() implies s.remove(i)[k].count > 0 by {
            if k < i {
                assert(s.remove(i)[k] == s[k]);
            } else {
                assert(s.remove(i)[k] == s[k + 1]);
            }
        }
    } else {
        lemma_total_count_update(
            s,
            i,
            RemainingToken { prefix: s[i].prefix, count: (s[i].count - 1) as u64 },
        );
    }
}

/// Number of buckets left.
pub fn total_remaining_buckets(tokens: &Vec<RemainingToken>) -> (r: usize)
    ensures
        r == tokens@.len(),
{
    tokens.len()
}

/// The bucket at `index`.
pub fn pick_bucket(tokens: &Vec<RemainingToken>, index: usize) -> (r: Result<
    RemainingToken,
    ContractError,
>)
    ensures
        index < tokens@.len() ==> r == Ok::<RemainingToken, ContractError>(tokens@[index as int]),
        index >= tokens@.len() ==> r == Err::<RemainingToken, ContractError>(
            ContractError::IndexOutOfRange,
        ),
{
    if index < tokens.len() {
        Ok(tokens[index].duplicate())
    } else {
        Err(ContractError::IndexOutOfRange)
    }
}

/// Position of the first bucket whose prefix is `prefix`.
pub fn find_prefix(tokens: &Vec<RemainingToken>, prefix: &String) -> (r: Option<usize>)
    ensures
        r is None <==> !has_prefix(tokens@, prefix@),
        r matches Some(i) ==> is_first_prefix(tokens@, prefix@, i as int),
{
    let mut i: usize = 0;
    while i < tokens.len()
        invariant
            i <= tokens@.len(),
            forall|j: int| 0 <= j < i ==> tokens@[j].prefix@ != prefix@,
        decreases tokens@.len() - i,
    {
        if tokens[i].prefix == *prefix {
            return Some(i);
        }
        i = i + 1;
    }
    None
}

/// Takes one item out of the first bucket with prefix `search_token_id`, and
/// removes that bucket once it is empty. Fails, leaving the ledger as it was,
/// where no bucket has that prefix.
pub fn decrease_count(tokens: &mut Vec<RemainingToken>, search_token_id: &String) -> (r: Result<
    (),
    ContractError,
>)
    requires
        no_empty_buckets(old(tokens)@),
    ensures
        r is Err <==> !has_prefix(old(tokens)@, search_token_id@),
        r is Err ==> r == Err::<(), ContractError>(ContractError::PrefixNotFound),
        r is Err ==> final(tokens)@ == old(tokens)@,
        r is Ok ==> exists|i: int|
            is_first_prefix(old(tokens)@, search_token_id@, i)
                && final(tokens)@ == decremented_at(old(tokens)@, i),
        r is Ok ==> total_count(final(tokens)@) + 1 == total_count(old(tokens)@),
        no_empty_buckets(final(tokens)@),
{
    match find_prefix(tokens, search_token_id) {
        None => Err(ContractError::PrefixNotFound),
        Some(index) => {
            let ghost s = tokens@;
            let current = tokens[index].count - 1;
            if current == 0 {
                tokens.remove(index);
            } else {
                tokens[index].count = current;
            }
            proof {
                lemma_decremented_at(s, index as int);
                assert(tokens@ =~= decremented_at(s, index as int));
            }
            Ok(())
        },
    }
}

} // verus!
