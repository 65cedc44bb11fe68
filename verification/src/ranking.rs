//! Choosing the `k` smallest of a list of keys, in a fixed order.
//!
//! Both the history of samples and the search for the nearest documents come
//! down to this: every entry has a key, and what is wanted are the positions
//! of the `k` entries with the smallest keys, smallest first, entries with
//! equal keys in the order in which they stand. [`is_selection`] says so
//! without saying how, [`lemma_selection_unique`] shows that it leaves no
//! choice, and [`select_smallest`] computes it.

use vstd::prelude::*;

verus! {

/// Position `i` comes before position `j`: its key is smaller, or the keys are
/// equal and it stands earlier.
pub open spec fn precedes(keys: Seq<u128>, i: int, j: int) -> bool {
    keys[i] < keys[j] || (keys[i] == keys[j] && i < j)
}

/// Position `j` is among the picks.
pub open spec fn picked(picks: Seq<usize>, j: int) -> bool {
    exists|p: int| 0 <= p < picks.len() && #[trigger] picks[p] == j
}

/// How many positions are picked: `k`, or all of them if there are fewer.
pub open spec fn selection_len(len: nat, k: nat) -> nat {
    if k <= len {
        k
    } else {
        len
    }
}

/// `picks` are the positions of the `k` smallest keys, in order: each pick
/// comes before the next, and every position left out comes after every pick.
pub open spec fn is_selection(keys: Seq<u128>, k: nat, picks: Seq<usize>) -> bool {
    &&& picks.len() == selection_len(keys.len(), k)
    &&& forall|p: int| 0 <= p < picks.len() ==> #[trigger] picks[p] < keys.len()
    &&& forall|p: int, q: int|
        0 <= p < q < picks.len() ==> precedes(
            keys,
            #[trigger] picks[p] as int,
            #[trigger] picks[q] as int,
        )
    &&& forall|p: int, j: int|
        0 <= p < picks.len() && 0 <= j < keys.len() && !#[trigger] picked(picks, j) ==> precedes(
            keys,
            #[trigger] picks[p] as int,
            j,
        )
}

/// The positions of the `k` smallest keys, in order.
pub open spec fn selection(keys: Seq<u128>, k: nat) -> Seq<usize> {
    choose|picks: Seq<usize>| is_selection(keys, k, picks)
}

/// [`is_selection`] for the first `n` positions only, together with the fact
/// that nothing is left out while fewer than `k` are picked.
spec fn selects_among(keys: Seq<u128>, n: int, k: nat, picks: Seq<usize>) -> bool {
    &&& 0 <= n <= keys.len()
    &&& picks.len() == selection_len(n as nat, k)
    &&& forall|p: int| 0 <= p < picks.len() ==> #[trigger] picks[p] < n
    &&& forall|p: int, q: int|
        0 <= p < q < picks.len() ==> precedes(
            keys,
            #[trigger] picks[p] as int,
            #[trigger] picks[q] as int,
        )
    &&& forall|p: int, j: int|
        0 <= p < picks.len() && 0 <= j < n && !#[trigger] picked(picks, j) ==> precedes(
            keys,
            #[trigger] picks[p] as int,
            j,
        )
    &&& picks.len() < k ==> forall|j: int| 0 <= j < n ==> #[trigger] picked(picks, j)
}

/// Where position `n` belongs among `picks`: behind every pick whose key is
/// not greater, in front of the others.
spec fn is_place(keys: Seq<u128>, picks: Seq<usize>, n: int, at: int) -> bool {
    &&& 0 <= at <= picks.len()
    &&& forall|p: int| 0 <= p < at ==> keys[#[trigger] picks[p] as int] <= keys[n]
    &&& at < picks.len() ==> keys[picks[at] as int] > keys[n]
}

/// The picks after position `n` was offered at place `at`: it goes in while
/// there is room, else it pushes the last pick out, unless it would be last
/// itself.
spec fn absorbed(picks: Seq<usize>, k: nat, at: int, n: usize) -> Seq<usize> {
    if picks.len() < k {
        picks.insert(at, n)
    } else if at < picks.len() {
        picks.drop_last().insert(at, n)
    } else {
        picks
    }
}

/// Offering the next position to a selection among the positions before it
/// gives a selection among the positions up to it.
proof fn lemma_absorbed(keys: Seq<u128>, n: usize, k: nat, picks: Seq<usize>, at: int)
    requires
        n < keys.len(),
        selects_among(keys, n as int, k, picks),
        is_place(keys, picks, n as int, at),
    ensures
        selects_among(keys, n + 1, k, absorbed(picks, k, at, n)),
{
    let next = absorbed(picks, k, at, n);
    let len = picks.len() as int;
    if len < k {
        // nothing is left out: position `n` stands at its place, and every
        // earlier pick stands where it stood or one place further back
        assert forall|j: int| 0 <= j < n + 1 implies #[trigger] picked(next, j) by {
            if j == n {
                assert(next[at] == j);
            } else {
                assert(picked(picks, j));
                let r = choose|r: int| 0 <= r < picks.len() && #[trigger] picks[r] == j;
                if r < at {
                    assert(next[r] == j);
                } else {
                    assert(next[r + 1] == j);
                }
            }
        }
    } else if at < len {
        assert forall|p: int, j: int|
            0 <= p < next.len() && 0 <= j < n + 1 && !#[trigger] picked(next, j) implies precedes(
            keys,
            #[trigger] next[p] as int,
            j,
        ) by {
            assert(next[at] == n);
            // a position that was picked and is left out now is the pick that
            // was pushed out, which was the last
            if picked(picks, j) {
                let r = choose|r: int| 0 <= r < picks.len() && #[trigger] picks[r] == j;
                if r < at {
                    assert(next[r] == j);
                } else if r < len - 1 {
                    assert(next[r + 1] == j);
                }
            }
        }
    }
}

/// A selection among the first `n` positions, built one position at a time.
proof fn lemma_selects_among_exists(keys: Seq<u128>, n: nat, k: nat) -> (picks: Seq<usize>)
    requires
        n <= keys.len(),
        keys.len() <= usize::MAX,
    ensures
        selects_among(keys, n as int, k, picks),
    decreases n,
{
    if n == 0 {
        Seq::empty()
    } else {
        let before = lemma_selects_among_exists(keys, (n - 1) as nat, k);
        let last = (n - 1) as usize;
        let at = lemma_place_exists(keys, before, last as int, before.len() as int);
        lemma_absorbed(keys, last, k, before, at);
        absorbed(before, k, at, last)
    }
}

/// Every position has a place among picks that stand in order.
proof fn lemma_place_exists(keys: Seq<u128>, picks: Seq<usize>, n: int, upto: int) -> (at: int)
    requires
        0 <= upto <= picks.len(),
        forall|q: int| upto <= q < picks.len() ==> keys[#[trigger] picks[q] as int] > keys[n],
        forall|p: int, q: int|
            0 <= p < q < picks.len() ==> precedes(
            keys,
            #[trigger] picks[p] as int,
            #[trigger] picks[q] as int,
        ),
    ensures
        is_place(keys, picks, n, at),
    decreases upto,
{
    if upto == 0 {
        0
    } else if keys[picks[upto - 1] as int] <= keys[n] {
        upto
    } else {
        lemma_place_exists(keys, picks, n, upto - 1)
    }
}

/// There is a selection for every list of keys and every `k`, and
/// [`selection`] is one.
pub proof fn lemma_selection_exists(keys: Seq<u128>, k: nat)
    requires
        keys.len() <= usize::MAX,
    ensures
        is_selection(keys, k, selection(keys, k)),
{
    let picks = lemma_selects_among_exists(keys, keys.len(), k);
    assert(is_selection(keys, k, picks));
}

/// Two selections for the same keys and the same `k` agree up to position `p`.
proof fn lemma_selections_agree(keys: Seq<u128>, k: nat, a: Seq<usize>, b: Seq<usize>, p: int)
    requires
        is_selection(keys, k, a),
        is_selection(keys, k, b),
        0 <= p < a.len(),
    ensures
        a[p] == b[p],
    decreases p,
{
    assert forall|q: int| 0 <= q < p implies #[trigger] a[q] == b[q] by {
        lemma_selections_agree(keys, k, a, b, q);
    }
    if a[p] != b[p] {
        lemma_not_before(keys, k, a, b, p);
        lemma_not_before(keys, k, b, a, p);
    }
}

/// Where two selections agree before `p` and differ at `p`, the pick of the
/// first does not come before the pick of the second.
proof fn lemma_not_before(keys: Seq<u128>, k: nat, a: Seq<usize>, b: Seq<usize>, p: int)
    requires
        is_selection(keys, k, a),
        is_selection(keys, k, b),
        0 <= p < a.len(),
        forall|q: int| 0 <= q < p ==> #[trigger] a[q] == b[q],
        a[p] != b[p],
    ensures
        !precedes(keys, a[p] as int, b[p] as int),
{
    let x = a[p] as int;
    if picked(b, x) {
        let q = choose|q: int| 0 <= q < b.len() && #[trigger] b[q] == x;
        if q < p {
            assert(a[q] == b[q]);
        }
    }
}

/// A list of keys has one selection only.
pub proof fn lemma_selection_unique(keys: Seq<u128>, k: nat, picks: Seq<usize>)
    requires
        is_selection(keys, k, picks),
    ensures
        picks == selection(keys, k),
{
    let chosen = selection(keys, k);
    assert forall|p: int| 0 <= p < picks.len() implies picks[p] == chosen[p] by {
        lemma_selections_agree(keys, k, picks, chosen, p);
    }
}

/// Finds the positions of the `k` smallest keys, smallest first; positions
/// with equal keys come in the order in which they stand.
pub fn select_smallest(keys: &Vec<u128>, k: usize) -> (picks: Vec<usize>)
    ensures
        picks@ == selection(keys@, k as nat),
        is_selection(keys@, k as nat, picks@),
{
    let mut picks: Vec<usize> = Vec::new();
    let mut n: usize = 0;
    while n < keys.len()
        invariant
            selects_among(keys@, n as int, k as nat, picks@),
        decreases keys.len() - n,
    {
        let mut at: usize = 0;
        while at < picks.len() && keys[picks[at]] <= keys[n]
            invariant
                n < keys.len(),
                at <= picks.len(),
                forall|p: int| 0 <= p < picks.len() ==> #[trigger] picks[p] < n,
                forall|p: int| 0 <= p < at ==> keys[#[trigger] picks[p] as int] <= keys[n as int],
            decreases picks.len() - at,
        {
            at = at + 1;
        }
        proof {
            lemma_absorbed(keys@, n, k as nat, picks@, at as int);
        }
        if picks.len() < k {
            picks.insert(at, n);
        } else if at < picks.len() {
            picks.pop();
            picks.insert(at, n);
        }
        n = n + 1;
    }
    proof {
        lemma_selection_unique(keys@, k as nat, picks@);
    }
    picks
}

} // verus!
