//! The whitelist registry: per-address, per-round mint allowances.
use vstd::prelude::*;

use crate::types::{ContractError, Whitelist};

verus! {

/// `w` is the entry of `addr` in `round`.
pub open spec fn key_matches(w: Whitelist, addr: Seq<char>, round: u64) -> bool {
    w.addr@ == addr && w.round == round
}

/// No two entries share an address and a round.
pub open spec fn keys_unique(s: Seq<Whitelist>) -> bool {
    forall|i: int, j: int|
        0 <= i < s.len() && 0 <= j < s.len() && i != j && #[trigger] key_matches(
            s[i],
            s[j].addr@,
            s[j].round,
        ) ==> false
}

/// The entry of `addr` in `round`, where there is one.
pub open spec fn lookup(s: Seq<Whitelist>, addr: Seq<char>, round: u64) -> Option<Whitelist> {
    if exists|i: int| 0 <= i < s.len() && key_matches(s[i], addr, round) {
        Some(s[choose|i: int| 0 <= i < s.len() && key_matches(s[i], addr, round)])
    } else {
        None
    }
}

/// The entry looked up under `round` allows a mint while the configured round
/// is `config_round`.
pub open spec fn entry_eligible(
    s: Seq<Whitelist>,
    addr: Seq<char>,
    round: u64,
    config_round: u64,
) -> bool {
    match lookup(s, addr, round) {
        Some(w) => w.count > 0 && w.round == config_round,
        None => false,
    }
}

pub proof fn lemma_lookup_at(s: Seq<Whitelist>, addr: Seq<char>, round: u64, i: int)
    requires
        keys_unique(s),
        0 <= i < s.len(),
        key_matches(s[i], addr, round),
    ensures
        lookup(s, addr, round) == Some(s[i]),
{
    let c = choose|c: int| 0 <= c < s.len() && key_matches(s[c], addr, round);
    assert(key_matches(s[c], s[i].addr@, s[i].round));
}

/// A whitelist entry grants eligibility only while the configured round is the
/// round it is stored under; under any other configured round the same entry,
/// still in place, grants none.
pub proof fn lemma_round_isolation(s: Seq<Whitelist>, addr: Seq<char>, round: u64, config_round: u64)
    requires
        keys_unique(s),
    ensures
        entry_eligible(s, addr, round, round) <==> (lookup(s, addr, round) matches Some(w)
            && w.count > 0),
        config_round != round ==> !entry_eligible(s, addr, round, config_round),
{
    if lookup(s, addr, round) is Some {
        let c = choose|c: int| 0 <= c < s.len() && key_matches(s[c], addr, round);
        assert(lookup(s, addr, round) == Some(s[c]));
    }
}

/// Position of the entry of `addr` in `round`.
pub fn find_entry(list: &Vec<Whitelist>, addr: &String, round: u64) -> (r: Option<usize>)
    requires
        keys_unique(list@),
    ensures
        r is None ==> lookup(list@, addr@, round) is None,
        r matches Some(i) ==> i < list@.len() && key_matches(list@[i as int], addr@, round)
            && lookup(list@, addr@, round) == Some(list@[i as int]),
{
    let mut i: usize = 0;
    while i < list.len()
        invariant
            i <= list@.len(),
            keys_unique(list@),
            forall|j: int| 0 <= j < i ==> !key_matches(list@[j], addr@, round),
        decreases list@.len() - i,
    {
        if list[i].round == round && list[i].addr == *addr {
            proof {
                lemma_lookup_at(list@, addr@, round, i as int);
            }
            return Some(i);
        }
        i = i + 1;
    }
    None
}

/// Whether the entry of `address` in `round` still allows a mint under the
/// configured round `config_round`: it exists, its count is positive and its
/// round is the configured one. A missing entry gives `false`.
pub fn is_valid_whitelist(list: &Vec<Whitelist>, address: &String, round: u64, config_round: u64) -> (r:
    bool)
    requires
        keys_unique(list@),
    ensures
        r == entry_eligible(list@, address@, round, config_round),
{
    match find_entry(list, address, round) {
        Some(i) => list[i].count > 0 && list[i].round == config_round,
        None => false,
    }
}

/// The entry of `addr` in `round`.
pub fn query_whitelist_address(list: &Vec<Whitelist>, addr: &String, round: u64) -> (r: Option<
    Whitelist,
>)
    requires
        keys_unique(list@),
    ensures
        r == lookup(list@, addr@, round),
{
    match find_entry(list, addr, round) {
        Some(i) => Some(list[i].duplicate()),
        None => None,
    }
}

/// Replaces the entry of `addr` in `round`, or adds it.
pub fn upsert(list: &mut Vec<Whitelist>, addr: &String, round: u64, count: u64)
    requires
        keys_unique(old(list)@),
    ensures
        keys_unique(final(list)@),
        forall|a: Seq<char>, k: u64|
            #![trigger lookup(final(list)@, a, k)]
            lookup(final(list)@, a, k) == if a == addr@ && k == round {
                Some(Whitelist { addr: *addr, round, count })
            } else {
                lookup(old(list)@, a, k)
            },
{
    let ghost s = list@;
    let entry = Whitelist { addr: addr.clone(), round, count };
    match find_entry(list, addr, round) {
        Some(i) => {
            list.set(i, entry);
            proof {
                let t = list@;
                assert(t =~= s.update(i as int, entry));
                assert forall|x: int, y: int|
                    0 <= x < t.len() && 0 <= y < t.len() && x != y && #[trigger] key_matches(
                        t[x],
                        t[y].addr@,
                        t[y].round,
                    ) implies false by {
                    if x != i && y != i {
                        assert(key_matches(s[x], s[y].addr@, s[y].round));
                    } else if x == i {
                        assert(key_matches(s[y], s[x].addr@, s[x].round));
                    } else {
                        assert(key_matches(s[x], s[y].addr@, s[y].round));
                    }
                }
                assert forall|a: Seq<char>, k: u64|
                    #![trigger lookup(t, a, k)]
                    lookup(t, a, k) == if a == addr@ && k == round {
                        Some(entry)
                    } else {
                        lookup(s, a, k)
                    } by {
                    if a == addr@ && k == round {
                        lemma_lookup_at(t, a, k, i as int);
                    } else if exists|j: int| 0 <= j < t.len() && key_matches(t[j], a, k) {
                        let j = choose|j: int| 0 <= j < t.len() && key_matches(t[j], a, k);
                        lemma_lookup_at(t, a, k, j);
                        lemma_lookup_at(s, a, k, j);
                    } else {
                        assert forall|j: int| 0 <= j < s.len() implies !key_matches(s[j], a, k) by {
                            if j != i {
                                assert(t[j] == s[j]);
                            }
                        }
                    }
                }
            }
        },
        None => {
            list.push(entry);
            proof {
                let t = list@;
                assert(t =~= s.push(entry));
                assert forall|x: int, y: int|
                    0 <= x < t.len() && 0 <= y < t.len() && x != y && #[trigger] key_matches(
                        t[x],
                        t[y].addr@,
                        t[y].round,
                    ) implies false by {
                    if x == s.len() {
                        assert(key_matches(s[y], addr@, round));
                    } else if y == s.len() {
                        assert(key_matches(s[x], addr@, round));
                    } else {
                        assert(key_matches(s[x], s[y].addr@, s[y].round));
                    }
                }
                assert forall|a: Seq<char>, k: u64|
                    #![trigger lookup(t, a, k)]
                    lookup(t, a, k) == if a == addr@ && k == round {
                        Some(entry)
                    } else {
                        lookup(s, a, k)
                    } by {
                    if a == addr@ && k == round {
                        lemma_lookup_at(t, a, k, s.len() as int);
                    } else if exists|j: int| 0 <= j < t.len() && key_matches(t[j], a, k) {
                        let j = choose|j: int| 0 <= j < t.len() && key_matches(t[j], a, k);
                        lemma_lookup_at(t, a, k, j);
                        lemma_lookup_at(s, a, k, j);
                    } else {
                        assert forall|j: int| 0 <= j < s.len() implies !key_matches(s[j], a, k) by {
                            assert(t[j] == s[j]);
                        }
                    }
                }
            }
        },
    }
}

/// Removes the entry of `addr` in `round`; fails where there is none.
pub fn delist(list: &mut Vec<Whitelist>, addr: &String, round: u64) -> (r: Result<(), ContractError>)
    requires
        keys_unique(old(list)@),
    ensures
        keys_unique(final(list)@),
        r is Err <==> lookup(old(list)@, addr@, round) is None,
        r is Err ==> r == Err::<(), ContractError>(ContractError::AddressNotFound),
        r is Err ==> final(list)@ == old(list)@,
        r is Ok ==> forall|a: Seq<char>, k: u64|
            #![trigger lookup(final(list)@, a, k)]
            lookup(final(list)@, a, k) == if a == addr@ && k == round {
                None
            } else {
                lookup(old(list)@, a, k)
            },
{
    let ghost s = list@;
    match find_entry(list, addr, round) {
        None => Err(ContractError::AddressNotFound),
        Some(i) => {
            list.remove(i);
            proof {
                let t = list@;
                assert(t =~= s.remove(i as int));
                assert forall|x: int, y: int|
                    0 <= x < t.len() && 0 <= y < t.len() && x != y && #[trigger] key_matches(
                        t[x],
                        t[y].addr@,
                        t[y].round,
                    ) implies false by {
                    let x1 = if x < i { x } else { x + 1 };
                    let y1 = if y < i { y } else { y + 1 };
                    assert(key_matches(s[x1], s[y1].addr@, s[y1].round));
                }
                assert forall|a: Seq<char>, k: u64|
                    #![trigger lookup(t, a, k)]
                    lookup(t, a, k) == if a == addr@ && k == round {
                        None
                    } else {
                        lookup(s, a, k)
                    } by {
                    if exists|j: int| 0 <= j < t.len() && key_matches(t[j], a, k) {
                        let j = choose|j: int| 0 <= j < t.len() && key_matches(t[j], a, k);
                        let j1 = if j < i { j } else { j + 1 };
                        assert(t[j] == s[j1]);
                        lemma_lookup_at(t, a, k, j);
                        lemma_lookup_at(s, a, k, j1);
                        if a == addr@ && k == round {
                            assert(key_matches(s[j1], s[i as int].addr@, s[i as int].round));
                        }
                    } else if !(a == addr@ && k == round) {
                        assert forall|j: int| 0 <= j < s.len() implies !key_matches(s[j], a, k) by {
                            if j < i {
                                assert(t[j] == s[j]);
                            } else if j > i {
                                assert(t[j - 1] == s[j]);
                            }
                        }
                    }
                }
            }
            Ok(())
        },
    }
}

/// Takes one mint off the allowance of `addr` in `round`. Fails with
/// `AddressNotFound` where there is no entry, and with `NotWhitelisted` where
/// the allowance is already spent: the count never goes below zero.
pub fn decrease_whitelist_count(list: &mut Vec<Whitelist>, addr: &String, round: u64) -> (r: Result<
    (),
    ContractError,
>)
    requires
        keys_unique(old(list)@),
    ensures
        keys_unique(final(list)@),
        lookup(old(list)@, addr@, round) is None ==> r == Err::<(), ContractError>(
            ContractError::AddressNotFound,
        ),
        lookup(old(list)@, addr@, round) matches Some(w) && w.count == 0 ==> r == Err::<
            (),
            ContractError,
        >(ContractError::NotWhitelisted),
        r is Err ==> final(list)@ == old(list)@,
        r is Ok <==> (lookup(old(list)@, addr@, round) matches Some(w) && w.count > 0),
        r is Ok ==> forall|a: Seq<char>, k: u64|
            #![trigger lookup(final(list)@, a, k)]
            lookup(final(list)@, a, k) == if a == addr@ && k == round {
                Some(
                    Whitelist {
                        addr: *addr,
                        round,
                        count: (lookup(old(list)@, addr@, round)->Some_0.count - 1) as u64,
                    },
                )
            } else {
                lookup(old(list)@, a, k)
            },
{
    match find_entry(list, addr, round) {
        None => Err(ContractError::AddressNotFound),
        Some(i) => {
            if list[i].count == 0 {
                Err(ContractError::NotWhitelisted)
            } else {
                let count = list[i].count - 1;
                upsert(list, addr, round, count);
                Ok(())
            }
        },
    }
}

} // verus!
