//! Track negotiation: reconciling the tracks' preferred extents with the
//! available space along one axis.
//!
//! A track is one row or one column of the grid, reduced to the three facts
//! the negotiation needs: its preferred extent, its minimum extent, and
//! whether any cell in it asked the track to claim surplus space. The same
//! procedure runs once for columns against the target width and once for
//! rows against the target height.

use vstd::arithmetic::div_mod::lemma_div_nonincreasing;
use vstd::arithmetic::div_mod::lemma_div_pos_is_pos;
use vstd::arithmetic::mul::lemma_mul_upper_bound;
use vstd::prelude::*;

verus! {

/// One track's inputs to the negotiation.
#[derive(Clone, Copy, PartialEq, Eq, Debug)]
pub struct Track {
    /// The extent the track would take if space allowed.
    pub preferred: u32,
    /// The extent the track must keep even under deficit.
    pub minimum: u32,
    /// Whether the track claims a share of surplus space.
    pub expand: bool,
}

/// The sum of the tracks' preferred extents.
pub open spec fn sum_preferred(s: Seq<Track>) -> int
    decreases s.len(),
{
    if s.len() == 0 {
        0
    } else {
        sum_preferred(s.drop_last()) + s.last().preferred
    }
}

/// How many tracks claim surplus space.
pub open spec fn count_expanding(s: Seq<Track>) -> int
    decreases s.len(),
{
    if s.len() == 0 {
        0
    } else {
        count_expanding(s.drop_last()) + if s.last().expand {
            1int
        } else {
            0int
        }
    }
}

/// A track's room to shrink: preferred minus minimum, or zero when the
/// declared minimum exceeds the preferred extent.
pub open spec fn spec_slack(t: Track) -> int {
    if t.preferred >= t.minimum {
        t.preferred - t.minimum
    } else {
        0
    }
}

/// The total room to shrink over all tracks.
pub open spec fn sum_slack(s: Seq<Track>) -> int
    decreases s.len(),
{
    if s.len() == 0 {
        0
    } else {
        sum_slack(s.drop_last()) + spec_slack(s.last())
    }
}

/// Track `i`'s negotiated extent for the given budget.
///
/// With surplus space (`budget` above the summed preferred extents) and at
/// least one expanding track, every expanding track grows by an equal share
/// of the surplus; other tracks keep their preferred extent, and unclaimed
/// surplus stays unused. With a deficit and positive total slack, every
/// track gives up a part of the deficit proportional to its share of the
/// total slack, but never shrinks below its minimum; when no track has room
/// to shrink, all keep their preferred extent. An exact budget changes
/// nothing.
///
/// A deficit larger than the total slack is over-constrained: the result
/// is a best effort, with every track sitting at its minimum, and the
/// summed extents may still exceed the budget.
pub open spec fn negotiated(s: Seq<Track>, budget: int, i: int) -> int
    recommends
        0 <= i < s.len(),
{
    let total = sum_preferred(s);
    let t = s[i];
    if budget > total {
        let n = count_expanding(s);
        if n > 0 && t.expand {
            t.preferred + (budget - total) / n
        } else {
            t.preferred as int
        }
    } else if budget < total {
        let ts = sum_slack(s);
        if ts > 0 {
            let deficit = total - budget;
            let slack = spec_slack(t);
            let reduction = deficit * slack / ts;
            if reduction >= slack {
                t.preferred - slack
            } else {
                t.preferred - reduction
            }
        } else {
            t.preferred as int
        }
    } else {
        t.preferred as int
    }
}

/// All tracks' negotiated extents for the given budget.
pub open spec fn negotiated_all(s: Seq<Track>, budget: int) -> Seq<int> {
    Seq::new(s.len(), |i: int| negotiated(s, budget, i))
}

/// The summed preferred extents are bounded by the number of tracks times
/// the largest representable extent.
proof fn lemma_sum_preferred_le(s: Seq<Track>)
    ensures
        0 <= sum_preferred(s) <= s.len() * 0xffff_ffff,
    decreases s.len(),
{
    if s.len() > 0 {
        lemma_sum_preferred_le(s.drop_last());
    }
}

/// Each track's preferred extent is at most the sum of all of them.
proof fn lemma_sum_preferred_bounds(s: Seq<Track>, i: int)
    requires
        0 <= i < s.len(),
    ensures
        s[i].preferred <= sum_preferred(s),
    decreases s.len(),
{
    lemma_sum_preferred_le(s.drop_last());
    if i < s.len() - 1 {
        lemma_sum_preferred_bounds(s.drop_last(), i);
    }
}

/// Reconciles the tracks' preferred extents with `budget`, the available
/// space along one axis, and returns every track's negotiated extent.
pub fn negotiate(tracks: &Vec<Track>, budget: u32) -> (r: Vec<u32>)
    requires
        tracks@.len() <= 0x1_0000_0000,
    ensures
        r@.len() == tracks@.len(),
        forall|i: int| 0 <= i < tracks@.len() ==> r@[i] as int == negotiated(tracks@, budget as int, i),
{
    let ghost s = tracks@;
    let n = tracks.len();
    let mut total: u64 = 0;
    let mut nexp: u64 = 0;
    let mut tslack: u64 = 0;
    for i in 0..n
        invariant
            s == tracks@,
            n == s.len() <= 0x1_0000_0000,
            total == sum_preferred(s.take(i as int)),
            nexp == count_expanding(s.take(i as int)),
            tslack == sum_slack(s.take(i as int)),
            total <= i * 0xffff_ffff,
            nexp <= i,
            tslack <= i * 0xffff_ffff,
    {
        proof {
            assert(s.take(i as int + 1).drop_last() =~= s.take(i as int));
            assert(s.take(i as int + 1).last() == s[i as int]);
        }
        let t = tracks[i];
        total = total + t.preferred as u64;
        if t.expand {
            nexp = nexp + 1;
        }
        if t.preferred >= t.minimum {
            tslack = tslack + (t.preferred - t.minimum) as u64;
        }
    }
    proof {
        assert(s.take(n as int) =~= s);
    }
    let mut r: Vec<u32> = Vec::new();
    if (budget as u64) > total {
        if nexp > 0 {
            let amount = ((budget as u64) - total) / nexp;
            proof {
                lemma_div_pos_is_pos(budget - sum_preferred(s), nexp as int);
                lemma_div_nonincreasing(budget - sum_preferred(s), nexp as int);
            }
            for i in 0..n
                invariant
                    s == tracks@,
                    n == s.len(),
                    r@.len() == i,
                    sum_preferred(s) < budget,
                    nexp == count_expanding(s),
                    nexp > 0,
                    amount == (budget - sum_preferred(s)) / nexp as int,
                    0 <= amount <= budget - sum_preferred(s),
                    forall|j: int| 0 <= j < i ==> r@[j] as int == negotiated(s, budget as int, j),
            {
                let t = tracks[i];
                if t.expand {
                    proof {
                        lemma_sum_preferred_bounds(s, i as int);
                    }
                    r.push(t.preferred + amount as u32);
                } else {
                    r.push(t.preferred);
                }
            }
        } else {
            for i in 0..n
                invariant
                    s == tracks@,
                    n == s.len(),
                    r@.len() == i,
                    sum_preferred(s) < budget,
                    count_expanding(s) == 0,
                    forall|j: int| 0 <= j < i ==> r@[j] as int == negotiated(s, budget as int, j),
            {
                r.push(tracks[i].preferred);
            }
        }
    } else if (budget as u64) < total {
        if tslack > 0 {
            let deficit = total - (budget as u64);
            for i in 0..n
                invariant
                    s == tracks@,
                    n == s.len(),
                    r@.len() == i,
                    budget < sum_preferred(s),
                    deficit == sum_preferred(s) - budget,
                    tslack == sum_slack(s),
                    tslack > 0,
                    forall|j: int| 0 <= j < i ==> r@[j] as int == negotiated(s, budget as int, j),
            {
                let t = tracks[i];
                let slack: u64 = if t.preferred >= t.minimum {
                    (t.preferred - t.minimum) as u64
                } else {
                    0
                };
                proof {
                    lemma_mul_upper_bound(deficit as int, u64::MAX as int, slack as int, u64::MAX as int);
                }
                let reduction: u128 = (deficit as u128) * (slack as u128) / (tslack as u128);
                proof {
                    lemma_div_pos_is_pos(deficit * slack, tslack as int);
                }
                if reduction >= slack as u128 {
                    if t.preferred >= t.minimum {
                        r.push(t.minimum);
                    } else {
                        r.push(t.preferred);
                    }
                } else {
                    r.push(t.preferred - reduction as u32);
                }
            }
        } else {
            for i in 0..n
                invariant
                    s == tracks@,
                    n == s.len(),
                    r@.len() == i,
                    budget < sum_preferred(s),
                    sum_slack(s) == 0,
                    forall|j: int| 0 <= j < i ==> r@[j] as int == negotiated(s, budget as int, j),
            {
                r.push(tracks[i].preferred);
            }
        }
    } else {
        for i in 0..n
            invariant
                s == tracks@,
                n == s.len(),
                r@.len() == i,
                budget == sum_preferred(s),
                forall|j: int| 0 <= j < i ==> r@[j] as int == negotiated(s, budget as int, j),
        {
            r.push(tracks[i].preferred);
        }
    }
    r
}

} // verus!
