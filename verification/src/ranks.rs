//! Rank selection: the label a user has earned by watch-time.
//!
//! A rank is open to a user whose watch-time has reached the rank's
//! requirement. Among the open ranks the one with the highest sorting value
//! is the active one. Where two open ranks share the highest sorting value,
//! the one with the lower key is active; where they share the key too, the
//! one that stands first in the list.

use vstd::prelude::*;
use crate::models::{Rank, User};

verus! {

/// Whether a rank is open to a user with this watch-time.
pub open spec fn qualifies(rank: Rank, watch_nanos: int) -> bool {
    rank.requirement_nanos() <= watch_nanos
}

/// Whether rank `a` takes precedence over rank `b`: the higher sorting
/// value first, then the lower key.
pub open spec fn outranks(a: Rank, b: Rank) -> bool {
    a.rank_sorting > b.rank_sorting || (a.rank_sorting == b.rank_sorting && a.rank_id < b.rank_id)
}

/// Whether rank `i` is the active one among the first `n` ranks: it is
/// open, no open rank among them takes precedence over it, and it takes
/// precedence over every open rank that stands before it.
pub open spec fn is_active_among(ranks: Seq<Rank>, watch_nanos: int, n: int, i: int) -> bool {
    &&& 0 <= i < n <= ranks.len()
    &&& qualifies(ranks[i], watch_nanos)
    &&& forall|j: int|
        0 <= j < n && qualifies(#[trigger] ranks[j], watch_nanos) ==> !outranks(ranks[j], ranks[i])
    &&& forall|j: int|
        0 <= j < i && qualifies(#[trigger] ranks[j], watch_nanos) ==> outranks(ranks[i], ranks[j])
}

/// Whether rank `i` is the active rank of a user with this watch-time.
pub open spec fn is_active_rank(ranks: Seq<Rank>, watch_nanos: int, i: int) -> bool {
    is_active_among(ranks, watch_nanos, ranks.len() as int, i)
}

/// Whether none of the first `n` ranks is open.
pub open spec fn none_qualifies_among(ranks: Seq<Rank>, watch_nanos: int, n: int) -> bool {
    forall|j: int| 0 <= j < n ==> !qualifies(#[trigger] ranks[j], watch_nanos)
}

/// Whether no rank is open to a user with this watch-time.
pub open spec fn none_qualifies(ranks: Seq<Rank>, watch_nanos: int) -> bool {
    none_qualifies_among(ranks, watch_nanos, ranks.len() as int)
}

/// The position of the active rank of a user with this watch-time, or
/// `None` where no rank is open.
pub open spec fn active_rank(ranks: Seq<Rank>, watch_nanos: int) -> Option<int> {
    if exists|i: int| is_active_rank(ranks, watch_nanos, i) {
        Some(choose|i: int| is_active_rank(ranks, watch_nanos, i))
    } else {
        None
    }
}

/// The label of a user whom no rank is open to.
pub open spec fn default_label() -> Seq<char> {
    "default"@
}

/// The rank label of a user with this watch-time: the name of the active
/// rank, or the default label.
pub open spec fn rank_label(ranks: Seq<Rank>, watch_nanos: int) -> Seq<char> {
    match active_rank(ranks, watch_nanos) {
        Some(i) => ranks[i].rank_name@,
        None => default_label(),
    }
}

impl Rank {
    /// The watch-time this rank asks for, in nanoseconds.
    pub fn requirement(&self) -> (n: i128)
        ensures
            n == self.requirement_nanos(),
    {
        self.hour_requirement_seconds as i128 * 1_000_000_000 + self.hour_requirement_nanos as i128
    }

    /// Decides `outranks`.
    pub fn takes_precedence_over(&self, other: &Rank) -> (b: bool)
        ensures
            b == outranks(*self, *other),
    {
        self.rank_sorting > other.rank_sorting || (self.rank_sorting == other.rank_sorting
            && self.rank_id < other.rank_id)
    }
}

/// The position of the active rank for a watch-time of `watch_nanos`
/// nanoseconds, or `None` where no rank is open.
pub fn active_rank_index(ranks: &Vec<Rank>, watch_nanos: i128) -> (choice: Option<usize>)
    ensures
        match choice {
            Some(i) => i < ranks.len() && active_rank(ranks@, watch_nanos as int) == Some(i as int),
            None => active_rank(ranks@, watch_nanos as int) is None,
        },
{
    let mut best: Option<usize> = None;
    let mut k: usize = 0;
    while k < ranks.len()
        invariant
            k <= ranks.len(),
            match best {
                Some(i) => is_active_among(ranks@, watch_nanos as int, k as int, i as int),
                None => none_qualifies_among(ranks@, watch_nanos as int, k as int),
            },
        decreases ranks.len() - k,
    {
        if ranks[k].requirement() <= watch_nanos {
            match best {
                Some(i) => {
                    if ranks[k].takes_precedence_over(&ranks[i]) {
                        best = Some(k);
                    }
                },
                None => {
                    best = Some(k);
                },
            }
        }
        k += 1;
    }
    proof {
        match best {
            Some(i) => {
                lemma_active_rank_characterized(ranks@, watch_nanos as int, i as int);
            },
            None => {
                lemma_active_rank_exists(ranks@, watch_nanos as int);
            },
        }
    }
    best
}

impl User {
    /// The rank this user has earned, or `None` where no rank is open.
    pub fn get_active_rank<'a>(&self, ranks: &'a Vec<Rank>) -> (rank: Option<&'a Rank>)
        ensures
            match rank {
                Some(r) => active_rank(ranks@, self@.watch_nanos) matches Some(i) && *r
                    == ranks@[i],
                None => active_rank(ranks@, self@.watch_nanos) is None,
            },
    {
        match active_rank_index(ranks, self.watch_nanos()) {
            Some(i) => Some(&ranks[i]),
            None => None,
        }
    }

    /// The name of the rank this user has earned, or the default label.
    pub fn rank_label(&self, ranks: &Vec<Rank>) -> (label: String)
        ensures
            label@ == rank_label(ranks@, self@.watch_nanos),
    {
        match active_rank_index(ranks, self.watch_nanos()) {
            Some(i) => ranks[i].rank_name.clone(),
            None => "default".to_string(),
        }
    }
}

/// At most one rank is active.
pub proof fn lemma_active_rank_unique(ranks: Seq<Rank>, watch_nanos: int, i: int, j: int)
    requires
        is_active_rank(ranks, watch_nanos, i),
        is_active_rank(ranks, watch_nanos, j),
    ensures
        i == j,
{
    if i < j {
        assert(outranks(ranks[j], ranks[i]));
    } else if j < i {
        assert(outranks(ranks[i], ranks[j]));
    }
}

/// The rank that meets the description of the active rank is the one that
/// `active_rank` names.
pub proof fn lemma_active_rank_characterized(ranks: Seq<Rank>, watch_nanos: int, i: int)
    requires
        is_active_rank(ranks, watch_nanos, i),
    ensures
        active_rank(ranks, watch_nanos) == Some(i),
{
    let j = choose|j: int| is_active_rank(ranks, watch_nanos, j);
    lemma_active_rank_unique(ranks, watch_nanos, i, j);
}

/// What `active_rank` names is open, and no open rank takes precedence
/// over it; it names nothing only where no rank is open.
pub proof fn lemma_active_rank_is_best(ranks: Seq<Rank>, watch_nanos: int)
    ensures
        match active_rank(ranks, watch_nanos) {
            Some(i) => is_active_rank(ranks, watch_nanos, i),
            None => none_qualifies(ranks, watch_nanos),
        },
{
    lemma_active_rank_exists(ranks, watch_nanos);
}

/// A rank is active exactly where some rank is open.
pub proof fn lemma_active_rank_exists(ranks: Seq<Rank>, watch_nanos: int)
    ensures
        none_qualifies(ranks, watch_nanos) <==> !exists|i: int|
            is_active_rank(ranks, watch_nanos, i),
{
    lemma_active_among_exists(ranks, watch_nanos, ranks.len() as int);
    if none_qualifies(ranks, watch_nanos) {
        assert forall|i: int| !is_active_rank(ranks, watch_nanos, i) by {
            if is_active_rank(ranks, watch_nanos, i) {
                assert(qualifies(ranks[i], watch_nanos));
            }
        }
    } else {
        let i = choose|i: int| is_active_among(ranks, watch_nanos, ranks.len() as int, i);
        assert(is_active_rank(ranks, watch_nanos, i));
    }
}

/// Among the first `n` ranks one is active unless none is open.
proof fn lemma_active_among_exists(ranks: Seq<Rank>, watch_nanos: int, n: int)
    requires
        0 <= n <= ranks.len(),
    ensures
        none_qualifies_among(ranks, watch_nanos, n) || exists|i: int|
            is_active_among(ranks, watch_nanos, n, i),
    decreases n,
{
    if n > 0 {
        lemma_active_among_exists(ranks, watch_nanos, n - 1);
        let k = n - 1;
        if none_qualifies_among(ranks, watch_nanos, k) {
            if qualifies(ranks[k], watch_nanos) {
                assert(is_active_among(ranks, watch_nanos, n, k));
            }
        } else {
            let i = choose|i: int| is_active_among(ranks, watch_nanos, k, i);
            if qualifies(ranks[k], watch_nanos) && outranks(ranks[k], ranks[i]) {
                assert(is_active_among(ranks, watch_nanos, n, k));
            } else {
                assert(is_active_among(ranks, watch_nanos, n, i));
            }
        }
    }
}

/// The open rank with the strictly highest sorting value is the active one.
pub proof fn lemma_highest_priority_is_active(ranks: Seq<Rank>, watch_nanos: int, k: int)
    requires
        0 <= k < ranks.len(),
        qualifies(ranks[k], watch_nanos),
        forall|j: int|
            0 <= j < ranks.len() && j != k && qualifies(#[trigger] ranks[j], watch_nanos)
                ==> ranks[j].rank_sorting < ranks[k].rank_sorting,
    ensures
        active_rank(ranks, watch_nanos) == Some(k),
{
    assert(is_active_rank(ranks, watch_nanos, k));
    lemma_active_rank_characterized(ranks, watch_nanos, k);
}

/// Below every requirement the label is the default one.
pub proof fn lemma_default_below_every_requirement(ranks: Seq<Rank>, watch_nanos: int)
    requires
        forall|j: int| 0 <= j < ranks.len() ==> watch_nanos < (#[trigger] ranks[j]).requirement_nanos(),
    ensures
        active_rank(ranks, watch_nanos) is None,
        rank_label(ranks, watch_nanos) == default_label(),
{
    assert(none_qualifies(ranks, watch_nanos));
    lemma_active_rank_exists(ranks, watch_nanos);
}

} // verus!
