//! Mapping wall-clock timestamps to media segment indices.
//!
//! A channel's stream is cut into fixed-duration segments of 192/50 seconds
//! each, numbered from a constant offset. The index of the segment that
//! covers a given timestamp is `timestamp / (192/50) + 38`, rounded down.

use vstd::prelude::*;

verus! {

/// Length of one media segment, in timescale units (192 units at 50 units
/// per second: 3.84 seconds).
pub const SEGMENT_DURATION_UNITS: usize = 192;

/// Timescale of the segment template: units per second.
pub const SEGMENT_TIMESCALE: usize = 50;

/// Constant index offset of the segment template (145.92 seconds).
pub const SEGMENT_INDEX_OFFSET: usize = 38;

/// The segment index that covers `timestamp`:
/// `floor(timestamp * 50 / 192) + 38`.
pub open spec fn segment_index_spec(timestamp: int) -> int {
    timestamp * 50 / 192 + 38
}

/// Convert a timestamp (seconds) to a segment sequence number.
///
/// Deterministic and total over every timestamp: the result is pinned to
/// `segment_index_spec`, a pure function of the argument alone.
pub fn calculate_segment_idx(timestamp: usize) -> (idx: usize)
    ensures
        idx == segment_index_spec(timestamp as int),
{
    let quotient: usize = timestamp / 192;
    let remainder: usize = timestamp % 192;
    proof {
        lemma_segment_index_split(timestamp as int);
        vstd::arithmetic::div_mod::lemma_fundamental_div_mod(timestamp as int, 192);
        assert(remainder * 50 / 192 <= 49) by {
            vstd::arithmetic::div_mod::lemma_div_is_ordered(remainder * 50, 191int * 50, 192);
        }
        assert(quotient * 50 + 87 <= timestamp || quotient == 0);
    }
    quotient * 50 + remainder * 50 / 192 + 38
}

/// `floor(t * 50 / 192)` splits into a whole-quotient part and a remainder
/// part, which is how the executable code computes it without overflow.
proof fn lemma_segment_index_split(t: int)
    requires
        t >= 0,
    ensures
        t * 50 / 192 == (t / 192) * 50 + (t % 192) * 50 / 192,
{
    let q = t / 192;
    let r = t % 192;
    vstd::arithmetic::div_mod::lemma_fundamental_div_mod(t, 192);
    assert(t * 50 == r * 50 + (q * 50) * 192) by (nonlinear_arith)
        requires
            t == 192 * q + r,
    ;
    vstd::arithmetic::div_mod::lemma_hoist_over_denominator(r * 50, q * 50, 192nat);
}

/// A representable timestamp's segment index stays strictly below the
/// machine's index range.
pub proof fn lemma_segment_index_bound(t: int)
    requires
        0 <= t <= usize::MAX,
    ensures
        38 <= segment_index_spec(t) < usize::MAX,
{
    let q = t / 192;
    let r = t % 192;
    lemma_segment_index_split(t);
    vstd::arithmetic::div_mod::lemma_fundamental_div_mod(t, 192);
    assert(r * 50 / 192 <= 49) by {
        vstd::arithmetic::div_mod::lemma_div_is_ordered(r * 50, 191int * 50, 192);
    }
    assert(r * 50 / 192 >= 0) by {
        vstd::arithmetic::div_mod::lemma_div_pos_is_pos(r * 50, 192);
    }
    assert(q >= 0) by {
        vstd::arithmetic::div_mod::lemma_div_pos_is_pos(t, 192);
    }
    if q >= 1 {
        assert(q * 50 + 87 < 192 * q);
    }
}

/// The segment index is monotonic: a later timestamp never maps to an
/// earlier segment.
pub proof fn lemma_segment_index_monotonic(t1: int, t2: int)
    requires
        0 <= t1 <= t2,
    ensures
        segment_index_spec(t1) <= segment_index_spec(t2),
{
    vstd::arithmetic::mul::lemma_mul_inequality(t1, t2, 50);
    vstd::arithmetic::div_mod::lemma_div_is_ordered(t1 * 50, t2 * 50, 192);
}

} // verus!
