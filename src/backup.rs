//! Which backups of the state to prune before a new one is written, so that
//! at most five stay, the newest.

use vstd::prelude::*;
use vstd::set_lib::{lemma_int_range, lemma_len_subset, set_int_range};

verus! {

/// The most backups kept, the new one included.
pub const MAX_BACKUPS: usize = 5;

/// A file's modification time `a` is no later than `b`; each is seconds and
/// nanoseconds since the epoch.
pub open spec fn no_later(a: (u64, u32), b: (u64, u32)) -> bool {
    a.0 < b.0 || (a.0 == b.0 && a.1 <= b.1)
}

/// How many of `n` backups go before a new one is added: enough that one
/// fewer than the most stay.
pub open spec fn prune_count(n: nat) -> nat {
    if n >= MAX_BACKUPS {
        (n - (MAX_BACKUPS - 1)) as nat
    } else {
        0
    }
}

/// The number of backups after `cycles` backups, each pruning first, from none.
pub open spec fn backups_after(cycles: nat) -> nat
    decreases cycles,
{
    if cycles == 0 {
        0
    } else {
        let before = backups_after((cycles - 1) as nat);
        (before - prune_count(before) + 1) as nat
    }
}

/// The positions, oldest first, of the backups to remove, given each one's
/// modification time: the oldest ones, so that four stay. Every backup
/// removed is no later than every backup kept.
pub fn backups_to_prune(modified: &Vec<(u64, u32)>) -> (r: Vec<usize>)
    ensures
        r@.len() == prune_count(modified@.len()),
        forall|t: int| 0 <= t < r@.len() ==> #[trigger] r@[t] < modified@.len(),
        forall|t: int, u: int| 0 <= t < u < r@.len() ==> r@[t] != r@[u],
        forall|t: int, u: int|
            0 <= t < u < r@.len() ==> no_later(modified@[r@[t] as int], modified@[r@[u] as int]),
        forall|t: int, q: int|
            0 <= t < r@.len() && 0 <= q < modified@.len() && !r@.contains(q as usize) ==> no_later(
                #[trigger] modified@[r@[t] as int],
                #[trigger] modified@[q],
            ),
{
    let n = modified.len();
    let count: usize = if n >= MAX_BACKUPS {
        n - (MAX_BACKUPS - 1)
    } else {
        0
    };
    let mut taken: Vec<bool> = Vec::new();
    let mut i: usize = 0;
    while i < n
        invariant
            i <= n,
            n == modified@.len(),
            taken@.len() == i,
            forall|p: int| 0 <= p < i ==> !taken@[p],
        decreases n - i,
    {
        taken.push(false);
        i = i + 1;
    }
    let mut out: Vec<usize> = Vec::new();
    while out.len() < count
        invariant
            n == modified@.len(),
            count <= n,
            count == prune_count(n as nat),
            taken@.len() == n,
            out@.len() <= count,
            forall|t: int| 0 <= t < out@.len() ==> #[trigger] out@[t] < n && taken@[out@[t] as int],
            forall|p: int| 0 <= p < n && #[trigger] taken@[p] ==> out@.contains(p as usize),
            forall|t: int, u: int| 0 <= t < u < out@.len() ==> out@[t] != out@[u],
            forall|t: int, u: int|
                0 <= t < u < out@.len() ==> no_later(modified@[out@[t] as int], modified@[out@[u] as int]),
            forall|t: int, q: int|
                0 <= t < out@.len() && 0 <= q < n && !taken@[q] ==> no_later(
                    #[trigger] modified@[out@[t] as int],
                    #[trigger] modified@[q],
                ),
        decreases count - out@.len(),
    {
        proof {
            lemma_some_left(taken@, out@);
        }
        let mut best: usize = 0;
        let mut found = false;
        let mut j: usize = 0;
        while j < n
            invariant
                n == modified@.len(),
                taken@.len() == n,
                j <= n,
                found ==> best < j && !taken@[best as int] && forall|q: int|
                    0 <= q < j && !taken@[q] ==> no_later(modified@[best as int], #[trigger] modified@[q]),
                !found ==> forall|q: int| 0 <= q < j ==> taken@[q],
            decreases n - j,
        {
            if !taken[j] {
                if !found {
                    best = j;
                    found = true;
                } else {
                    let (s, ns) = modified[j];
                    let (bs, bns) = modified[best];
                    if s < bs || (s == bs && ns < bns) {
                        best = j;
                    }
                }
            }
            j = j + 1;
        }
        proof {
            if !found {
                let p = choose|p: int| 0 <= p < taken@.len() && !taken@[p];
                assert(taken@[p]);
            }
        }
        let ghost old_taken = taken@;
        let ghost old_out = out@;
        out.push(best);
        taken.set(best, true);
        proof {
            assert forall|p: int| 0 <= p < n && #[trigger] taken@[p] implies out@.contains(p as usize) by {
                if p == best as int {
                    assert(out@[out@.len() - 1] == best);
                } else {
                    assert(old_taken[p]);
                    let t = choose|t: int| 0 <= t < old_out.len() && old_out[t] == p as usize;
                    assert(out@[t] == p as usize);
                }
            }
        }
    }
    proof {
        assert forall|t: int, q: int|
            0 <= t < out@.len() && 0 <= q < n && !out@.contains(q as usize) implies no_later(
                #[trigger] modified@[out@[t] as int],
                #[trigger] modified@[q],
            ) by {
            if taken@[q] {
                assert(out@.contains(q as usize));
            }
        }
    }
    out
}

/// Where fewer positions are marked than there are, one is unmarked.
proof fn lemma_some_left(taken: Seq<bool>, marked: Seq<usize>)
    requires
        marked.len() < taken.len(),
        taken.len() <= usize::MAX,
        forall|p: int| 0 <= p < taken.len() && #[trigger] taken[p] ==> marked.contains(p as usize),
    ensures
        exists|p: int| 0 <= p < taken.len() && !taken[p],
{
    if forall|p: int| 0 <= p < taken.len() ==> taken[p] {
        let n = taken.len() as int;
        let idx = marked.map_values(|x: usize| x as int);
        lemma_int_range(0, n);
        assert forall|p: int| set_int_range(0, n).contains(p) implies idx.to_set().contains(p) by {
            assert(taken[p]);
            assert(marked.contains(p as usize));
            let t = choose|t: int| 0 <= t < marked.len() && marked[t] == p as usize;
            assert(idx[t] == p);
        }
        idx.lemma_cardinality_of_set();
        lemma_len_subset(set_int_range(0, n), idx.to_set());
    }
}

/// With each backup pruning before it writes, the number of backups after
/// `cycles` of them is `cycles`, up to five: after more than five cycles,
/// exactly five.
pub proof fn lemma_backup_retention(cycles: nat)
    ensures
        backups_after(cycles) == if cycles < MAX_BACKUPS {
            cycles
        } else {
            MAX_BACKUPS as nat
        },
    decreases cycles,
{
    if cycles > 0 {
        lemma_backup_retention((cycles - 1) as nat);
    }
}

} // verus!
