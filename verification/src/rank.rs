//! The draw by rank, an alternative to the weighted draw.
//!
//! Contributors are ranked by recorded amount, the largest first, and
//! among equal amounts in ledger order. Of `n` contributors the first in
//! rank holds `n` tickets, the second half as many, and so on, halving and
//! rounding down, but nobody holds fewer than one. The seed picks one
//! ticket. The chances follow the rank alone, whatever the amounts behind
//! it: where chances are meant to follow the amounts, use
//! [`select_winner`](crate::selection::select_winner).

use std::collections::VecDeque;
use vstd::prelude::*;
use crate::address::Address;
use crate::error::ErrorCode;
use crate::ledger::{ledger_of, Contributor, Stake};

verus! {

/// `n` halved `k` times, rounding down each time.
pub open spec fn halved(n: nat, k: nat) -> nat
    decreases k,
{
    if k == 0 {
        n
    } else {
        halved(n, (k - 1) as nat) / 2
    }
}

/// The tickets of the contributor at rank `k` among `n`.
pub open spec fn chances(n: nat, k: nat) -> nat {
    if halved(n, k) > 0 {
        halved(n, k)
    } else {
        1
    }
}

/// Entry `i` ranks before entry `j`: it records more, or as much and
/// stands earlier in the ledger.
pub open spec fn outranks(ledger: Seq<Stake>, i: int, j: int) -> bool {
    ledger[i].amount > ledger[j].amount || (ledger[i].amount == ledger[j].amount && i < j)
}

/// Where an entry of `amount` joins a ranking of earlier entries: behind
/// the last one that records as much or more.
pub open spec fn slot(ledger: Seq<Stake>, order: Seq<int>, amount: nat) -> int
    decreases order.len(),
{
    if order.len() == 0 || ledger[order.last()].amount >= amount {
        order.len() as int
    } else {
        slot(ledger, order.drop_last(), amount)
    }
}

/// The first `n` entries of the ledger in rank order, as indices into the
/// ledger: each entry in turn joins the ranking of those before it.
pub open spec fn ranking_of(ledger: Seq<Stake>, n: int) -> Seq<int>
    decreases n,
{
    if n <= 0 {
        Seq::empty()
    } else {
        let earlier = ranking_of(ledger, n - 1);
        earlier.insert(slot(ledger, earlier, ledger[n - 1].amount), n - 1)
    }
}

/// The ledger's entries in rank order, as indices into the ledger.
pub open spec fn ranking(ledger: Seq<Stake>) -> Seq<int> {
    ranking_of(ledger, ledger.len() as int)
}

/// The tickets of the first `k` ranks, rank by rank, each ticket bearing
/// its holder's address.
pub open spec fn tickets_through(ledger: Seq<Stake>, k: int) -> Seq<Address>
    decreases k,
{
    if k <= 0 {
        Seq::empty()
    } else {
        let holder = ledger[ranking(ledger)[k - 1]].address;
        tickets_through(ledger, k - 1) + Seq::new(
            chances(ledger.len(), (k - 1) as nat),
            |t: int| holder,
        )
    }
}

/// All tickets of a draw by rank.
pub open spec fn tickets(ledger: Seq<Stake>) -> Seq<Address> {
    tickets_through(ledger, ledger.len() as int)
}

/// What a draw by rank with `seed` gives: no winner without entries, else
/// the holder of the ticket that the seed picks.
pub open spec fn rank_selection(ledger: Seq<Stake>, seed: u64) -> Result<Address, ErrorCode> {
    if ledger.len() == 0 {
        Err(ErrorCode::NoContributors)
    } else {
        Ok(tickets(ledger)[(seed as int) % (tickets(ledger).len() as int)])
    }
}

/// A stored ranking as a sequence of mathematical indices.
pub open spec fn indices(order: Seq<usize>) -> Seq<int> {
    order.map_values(|i: usize| i as int)
}

/// The slot lies within the ranking; every entry from the slot on
/// records less than `amount`, and the entry just before the slot does
/// not.
pub proof fn lemma_slot(ledger: Seq<Stake>, order: Seq<int>, amount: nat)
    ensures
        0 <= slot(ledger, order, amount) <= order.len(),
        forall|k: int|
            slot(ledger, order, amount) <= k < order.len() ==> ledger[#[trigger] order[k]].amount
                < amount,
        slot(ledger, order, amount) > 0 ==> ledger[order[slot(ledger, order, amount)
            - 1]].amount >= amount,
    decreases order.len(),
{
    if !(order.len() == 0 || ledger[order.last()].amount >= amount) {
        lemma_slot(ledger, order.drop_last(), amount);
        let s = slot(ledger, order.drop_last(), amount);
        assert forall|k: int| s <= k < order.len() implies ledger[#[trigger] order[k]].amount
            < amount by {
            if k < order.len() - 1 {
                assert(order.drop_last()[k] == order[k]);
            }
        }
        if s > 0 {
            assert(order.drop_last()[s - 1] == order[s - 1]);
        }
    }
}

/// The ranking of the first `n` entries names each of them once, and
/// every entry in it ranks before all that follow it: the amounts
/// descend, and equal amounts keep their ledger order.
pub proof fn lemma_ranking_of(ledger: Seq<Stake>, n: int)
    requires
        0 <= n <= ledger.len(),
    ensures
        ranking_of(ledger, n).len() == n,
        forall|k: int| 0 <= k < n ==> 0 <= #[trigger] ranking_of(ledger, n)[k] < n,
        forall|a: int, b: int|
            0 <= a < b < n ==> outranks(
                ledger,
                #[trigger] ranking_of(ledger, n)[a],
                #[trigger] ranking_of(ledger, n)[b],
            ),
    decreases n,
{
    if n > 0 {
        lemma_ranking_of(ledger, n - 1);
        let earlier = ranking_of(ledger, n - 1);
        let amount = ledger[n - 1].amount;
        lemma_slot(ledger, earlier, amount);
        let s = slot(ledger, earlier, amount);
        let r = ranking_of(ledger, n);
        assert(r == earlier.insert(s, n - 1));
        assert forall|a: int, b: int| 0 <= a < b < n implies outranks(
            ledger,
            #[trigger] r[a],
            #[trigger] r[b],
        ) by {
            if b < s {
                assert(r[a] == earlier[a] && r[b] == earlier[b]);
            } else if b == s {
                assert(r[a] == earlier[a]);
                if a < s - 1 {
                    assert(outranks(ledger, earlier[a], earlier[s - 1]));
                }
            } else if a < s {
                assert(r[a] == earlier[a] && r[b] == earlier[b - 1]);
            } else if a == s {
                assert(r[b] == earlier[b - 1]);
            } else {
                assert(r[a] == earlier[a - 1] && r[b] == earlier[b - 1]);
            }
        }
    }
}

/// Every rank holds at least one ticket.
pub proof fn lemma_tickets_len(ledger: Seq<Stake>, k: int)
    requires
        0 <= k,
    ensures
        tickets_through(ledger, k).len() >= k,
    decreases k,
{
    if k > 0 {
        lemma_tickets_len(ledger, k - 1);
    }
}

/// Ranks the stored contributors: returns their indices, the largest
/// amount first, equal amounts in ledger order.
pub fn rank_contributors(contributors: &Vec<Contributor>) -> (order: Vec<usize>)
    ensures
        indices(order@) == ranking(ledger_of(contributors@)),
{
    let ghost ledger = ledger_of(contributors@);
    let n = contributors.len();
    let mut order: Vec<usize> = Vec::new();
    let mut i: usize = 0;
    assert(indices(order@) =~= ranking_of(ledger, 0));
    while i < n
        invariant
            i <= n,
            n == contributors@.len(),
            ledger == ledger_of(contributors@),
            indices(order@) == ranking_of(ledger, i as int),
        decreases n - i,
    {
        let amount = contributors[i].amount;
        let ghost earlier = ranking_of(ledger, i as int);
        proof {
            lemma_ranking_of(ledger, i as int);
            assert(earlier.subrange(0, earlier.len() as int) =~= earlier);
        }
        let mut s: usize = order.len();
        while s > 0 && contributors[order[s - 1]].amount < amount
            invariant
                s <= order@.len(),
                order@.len() == i,
                i < n,
                n == contributors@.len(),
                ledger == ledger_of(contributors@),
                indices(order@) == earlier,
                forall|k: int| 0 <= k < i ==> 0 <= #[trigger] earlier[k] < i,
                slot(ledger, earlier, amount as nat) == slot(
                    ledger,
                    earlier.subrange(0, s as int),
                    amount as nat,
                ),
            decreases s,
        {
            proof {
                let head = earlier.subrange(0, s as int);
                assert(head.last() == earlier[s - 1]);
                assert(head.drop_last() =~= earlier.subrange(0, s - 1));
            }
            s -= 1;
        }
        proof {
            let head = earlier.subrange(0, s as int);
            if s > 0 {
                assert(head.last() == earlier[s - 1]);
            }
            assert(slot(ledger, earlier, amount as nat) == s);
            assert(ledger[i as int].amount == amount);
        }
        order.insert(s, i);
        assert(indices(order@) =~= earlier.insert(s as int, i as int));
        i += 1;
    }
    order
}

/// Picks the winner of a draw by rank with `seed`: the ticket at `seed`
/// modulo the number of tickets, counted through the ranks in order.
///
/// The result depends on the ledger and the seed alone. There is no
/// winner on a ledger without entries (`NoContributors`).
pub fn select_winner_by_rank(contributors: &Vec<Contributor>, seed: u64) -> (result: Result<
    Address,
    ErrorCode,
>)
    ensures
        result == rank_selection(ledger_of(contributors@), seed),
{
    let ghost ledger = ledger_of(contributors@);
    let n = contributors.len();
    if n == 0 {
        return Err(ErrorCode::NoContributors);
    }
    let order = rank_contributors(contributors);
    proof {
        lemma_ranking_of(ledger, n as int);
    }
    let mut drum: VecDeque<Address> = VecDeque::new();
    let mut weight: u64 = n as u64;
    let mut k: usize = 0;
    assert(drum@ =~= tickets_through(ledger, 0));
    while k < n
        invariant
            k <= n,
            n == contributors@.len(),
            ledger == ledger_of(contributors@),
            indices(order@) == ranking(ledger),
            order@.len() == n,
            forall|j: int| 0 <= j < n ==> 0 <= #[trigger] ranking(ledger)[j] < n,
            weight == halved(n as nat, k as nat),
            drum@ == tickets_through(ledger, k as int),
        decreases n - k,
    {
        let count: u64 = if weight > 0 {
            weight
        } else {
            1
        };
        assert(indices(order@)[k as int] == order@[k as int]);
        let holder = contributors[order[k]].address;
        assert(holder == ledger[ranking(ledger)[k as int]].address);
        let ghost before = drum@;
        let mut t: u64 = 0;
        while t < count
            invariant
                t <= count,
                drum@ == before + Seq::new(t as nat, |j: int| holder),
            decreases count - t,
        {
            drum.push_back(holder);
            t += 1;
            assert(drum@ =~= before + Seq::new(t as nat, |j: int| holder));
        }
        weight = weight / 2;
        k += 1;
    }
    proof {
        lemma_tickets_len(ledger, n as int);
    }
    let len = drum.len();
    let pick = (seed % (len as u64)) as usize;
    Ok(drum[pick])
}

} // verus!
