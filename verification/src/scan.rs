//! The scan orchestrator's verifiable core: the remainder-aware partition of
//! the host list into lanes, its exactly-once coverage law, and the per-host
//! decision that turns one host's outcome into a match record or a skip.
use vstd::prelude::*;
use vstd::arithmetic::div_mod::lemma_fundamental_div_mod;

use crate::errors::ScanError;
use crate::filter::{matches_criteria, spec_matches, MatchCriteria};
use crate::status::{PlayerRef, StatusResponse};

verus! {

/// How many lanes a list of `n` hosts is split into when `w` are wanted:
/// never more lanes than hosts, so no lane is empty.
pub open spec fn spec_lane_count(n: nat, w: nat) -> nat {
    if w <= n {
        w
    } else {
        n
    }
}

/// The shape of a valid lane partition of `0..n`: every lane non-empty, each
/// lane beginning where the previous one ended, the first at 0 and the last
/// at `n`, and at least one lane whenever there is anything to cover.
pub open spec fn lanes_chained(lanes: Seq<(usize, usize)>, n: nat) -> bool {
    &&& forall|i: int| 0 <= i < lanes.len() ==> (#[trigger] lanes[i]).0 < lanes[i].1
    &&& forall|i: int|
        0 <= i < lanes.len() - 1 ==> (#[trigger] lanes[i]).1 == lanes[i + 1].0
    &&& (lanes.len() > 0 ==> lanes[0].0 == 0 && lanes[lanes.len() - 1].1 == n)
    &&& (n > 0 ==> lanes.len() > 0)
}

/// Splits `0..n` into `min(w, n)` contiguous lanes, the remainder spread one
/// extra entry each over the first `n % min(w, n)` lanes.
pub fn partition_lanes(n: usize, w: usize) -> (r: Vec<(usize, usize)>)
    requires
        w >= 1,
    ensures
        r@.len() == spec_lane_count(n as nat, w as nat),
        lanes_chained(r@, n as nat),
        forall|i: int|
            0 <= i < r@.len() ==> (#[trigger] r@[i]).1 - r@[i].0 == n as int / r@.len() as int + (
            if i < n as int % r@.len() as int {
                1int
            } else {
                0int
            }),
{
    let k: usize = if w <= n {
        w
    } else {
        n
    };
    let mut r: Vec<(usize, usize)> = Vec::new();
    if k == 0 {
        return r;
    }
    let base: usize = n / k;
    let rem: usize = n % k;
    proof {
        lemma_fundamental_div_mod(n as int, k as int);
    }
    let mut i: usize = 0;
    let mut start: usize = 0;
    while i < k
        invariant
            1 <= k <= n,
            base == n as int / k as int,
            rem == n as int % k as int,
            n == k * base + rem,
            rem < k,
            i <= k,
            r@.len() == i,
            start == i * base + (if i <= rem {
                i as int
            } else {
                rem as int
            }),
            start <= n,
            forall|t: int| 0 <= t < i ==> (#[trigger] r@[t]).0 < r@[t].1,
            forall|t: int| 0 <= t < i - 1 ==> (#[trigger] r@[t]).1 == r@[t + 1].0,
            i > 0 ==> r@[0].0 == 0 && r@[i - 1].1 == start,
            forall|t: int|
                0 <= t < i ==> (#[trigger] r@[t]).1 - r@[t].0 == base + (if t < rem {
                    1int
                } else {
                    0int
                }),
        decreases k - i,
    {
        proof {
            assert(base >= 1) by (nonlinear_arith)
                requires
                    n == k * base + rem,
                    rem < k,
                    k <= n,
                    base >= 0,
            ;
            assert((i + 1) * base == i * base + base) by (nonlinear_arith);
            assert((i + 1) * base <= k * base) by (nonlinear_arith)
                requires
                    i + 1 <= k,
                    base >= 0,
            ;
        }
        let end: usize = if i < rem {
            start + base + 1
        } else {
            start + base
        };
        r.push((start, end));
        start = end;
        i = i + 1;
    }
    proof {
        assert(start == k * base + rem);
    }
    r
}

proof fn lemma_lane_ends_mono(lanes: Seq<(usize, usize)>, i1: int, i2: int)
    requires
        forall|i: int| 0 <= i < lanes.len() ==> (#[trigger] lanes[i]).0 < lanes[i].1,
        forall|i: int|
            0 <= i < lanes.len() - 1 ==> (#[trigger] lanes[i]).1 == lanes[i + 1].0,
        0 <= i1 < i2 < lanes.len(),
    ensures
        lanes[i1].1 <= lanes[i2].0,
    decreases i2 - i1,
{
    if i2 == i1 + 1 {
    } else {
        lemma_lane_ends_mono(lanes, i1, i2 - 1);
    }
}

proof fn lemma_covers_from(lanes: Seq<(usize, usize)>, i: int, j: int)
    requires
        forall|t: int| 0 <= t < lanes.len() ==> (#[trigger] lanes[t]).0 < lanes[t].1,
        forall|t: int|
            0 <= t < lanes.len() - 1 ==> (#[trigger] lanes[t]).1 == lanes[t + 1].0,
        0 <= i < lanes.len(),
        lanes[i].0 <= j,
        j < lanes[lanes.len() - 1].1,
    ensures
        exists|t: int| 0 <= t < lanes.len() && (#[trigger] lanes[t]).0 <= j < lanes[t].1,
    decreases lanes.len() - i,
{
    if j < lanes[i].1 {
        assert(lanes[i].0 <= j < lanes[i].1);
    } else {
        assert(i < lanes.len() - 1);
        lemma_covers_from(lanes, i + 1, j);
    }
}

/// Index `j` falls inside lane `i`.
pub open spec fn in_lane(lanes: Seq<(usize, usize)>, i: int, j: int) -> bool {
    0 <= i < lanes.len() && lanes[i].0 <= j < lanes[i].1
}

/// Index `j` falls inside some lane.
pub open spec fn lane_covers(lanes: Seq<(usize, usize)>, j: int) -> bool {
    exists|i: int| #[trigger] in_lane(lanes, i, j)
}

/// Law: a chained partition of `0..n` covers every index exactly once — each
/// index of the host list falls in some lane, never in two, and the lanes
/// hold nothing outside `0..n`. This holds for every list length and lane
/// count, including none, fewer hosts than lanes, and uneven remainders.
pub proof fn lemma_partition_exact_cover(lanes: Seq<(usize, usize)>, n: nat)
    requires
        lanes_chained(lanes, n),
    ensures
        forall|j: int| 0 <= j < n ==> #[trigger] lane_covers(lanes, j),
        forall|i1: int, i2: int, j: int|
            #[trigger] in_lane(lanes, i1, j) && #[trigger] in_lane(lanes, i2, j) ==> i1 == i2,
        forall|i: int, j: int| #[trigger] in_lane(lanes, i, j) ==> 0 <= j < n,
{
    assert forall|j: int| 0 <= j < n implies #[trigger] lane_covers(lanes, j) by {
        lemma_covers_from(lanes, 0, j);
        let w = choose|t: int|
            0 <= t < lanes.len() && (#[trigger] lanes[t]).0 <= j < lanes[t].1;
        assert(in_lane(lanes, w, j));
    }
    assert forall|i1: int, i2: int, j: int|
        #[trigger] in_lane(lanes, i1, j) && #[trigger] in_lane(lanes, i2, j) implies i1 == i2 by {
        if i1 < i2 {
            lemma_lane_ends_mono(lanes, i1, i2);
        } else if i2 < i1 {
            lemma_lane_ends_mono(lanes, i2, i1);
        }
    }
    assert forall|i: int, j: int| #[trigger] in_lane(lanes, i, j) implies 0 <= j < n by {
        if i < lanes.len() - 1 {
            lemma_lane_ends_mono(lanes, i, lanes.len() - 1);
        }
    }
}

/// One reported match: the host's address, its normalized banner text, its
/// slot capacity, and whatever player sample it supplied.
pub struct MatchRecord {
    pub address: String,
    pub motd: String,
    pub max_players: u32,
    pub sample: Vec<PlayerRef>,
}

/// The per-host decision at the end of a lane step: a host yields a match
/// record exactly when its exchange succeeded and the status satisfies the
/// criteria; every failure is a silent skip.
pub fn evaluate_host(address: &String, outcome: Result<StatusResponse, ScanError>, criteria:
    &MatchCriteria) -> (r: Option<MatchRecord>)
    ensures
        match r {
            Some(m) => {
                &&& outcome matches Ok(st) && spec_matches(
                    st@,
                    criteria.target_slot_count,
                    criteria.target_motd@,
                )
                &&& m.address@ == address@
                &&& outcome matches Ok(st) ==> {
                    &&& m.motd@ == st@.description_text
                    &&& m.max_players == st@.max_players
                    &&& m.sample@.map(|i: int, p: PlayerRef| p@) == st@.sample
                }
            },
            None => !(outcome matches Ok(st) && spec_matches(
                st@,
                criteria.target_slot_count,
                criteria.target_motd@,
            )),
        },
{
    match outcome {
        Err(_) => None,
        Ok(st) => {
            if matches_criteria(&st, criteria) {
                let StatusResponse { description, players, version: _ } = st;
                Some(
                    MatchRecord {
                        address: address.clone(),
                        motd: description.text().clone(),
                        max_players: players.max,
                        sample: players.sample,
                    },
                )
            } else {
                None
            }
        },
    }
}

} // verus!
