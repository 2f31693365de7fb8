//! Splitting the nonce space into contiguous per-lane sub-ranges.

use vstd::prelude::*;

verus! {

/// Width of each lane's sub-range: `floor(u64::MAX / lane_count)`.
pub open spec fn lane_span(lane_count: u64) -> int
    recommends
        lane_count > 0,
{
    (u64::MAX / lane_count) as int
}

/// First nonce of lane `lane_index`.
pub open spec fn lane_first(lane_index: int, lane_count: u64) -> int {
    lane_span(lane_count) * lane_index
}

/// Whether nonce `x` lies in the sub-range assigned to lane `lane_index`.
pub open spec fn in_lane(x: int, lane_index: int, lane_count: u64) -> bool {
    lane_first(lane_index, lane_count) <= x < lane_first(lane_index + 1, lane_count)
}

/// The lane whose sub-range holds nonce `x`.
pub open spec fn lane_of(x: int, lane_count: u64) -> int {
    x / lane_span(lane_count)
}

/// The nonce at which lane `lane_index` of `lane_count` starts scanning.
pub fn lane_start(lane_index: u64, lane_count: u64) -> (r: u64)
    requires
        lane_index < lane_count,
    ensures
        r == lane_first(lane_index as int, lane_count),
{
    let span: u64 = u64::MAX / lane_count;
    proof {
        let s = span as int;
        let i = lane_index as int;
        let n = lane_count as int;
        assert(s * n <= u64::MAX) by (nonlinear_arith)
            requires
                s == (u64::MAX as int) / n,
                n > 0,
        ;
        assert(s * i <= s * n) by (nonlinear_arith)
            requires
                0 <= i <= n,
                s >= 0,
        ;
    }
    span * lane_index
}

/// The lanes' sub-ranges are pairwise disjoint, and together they cover
/// exactly `[0, floor(u64::MAX / lane_count) * lane_count)`.
pub proof fn lanes_partition_nonce_space(lane_count: u64)
    requires
        1 <= lane_count <= 64,
    ensures
        forall|i: int, j: int, x: int|
            0 <= i < lane_count && 0 <= j < lane_count && i != j && #[trigger] in_lane(x, i, lane_count)
                ==> !#[trigger] in_lane(x, j, lane_count),
        forall|i: int, x: int|
            0 <= i < lane_count && #[trigger] in_lane(x, i, lane_count) ==> 0 <= x < lane_span(
                lane_count,
            ) * lane_count,
        forall|x: int|
            0 <= x < lane_span(lane_count) * lane_count ==> {
                let i = #[trigger] lane_of(x, lane_count);
                0 <= i < lane_count && in_lane(x, i, lane_count)
            },
{
    let n = lane_count as int;
    let s = lane_span(lane_count);
    assert(s > 0) by (nonlinear_arith)
        requires
            s == (u64::MAX as int) / n,
            1 <= n <= 64,
    ;
    assert forall|i: int, j: int, x: int|
        0 <= i < lane_count && 0 <= j < lane_count && i != j && #[trigger] in_lane(x, i, lane_count)
            implies !#[trigger] in_lane(x, j, lane_count) by {
        if i < j {
            assert(s * (i + 1) <= s * j) by (nonlinear_arith)
                requires
                    i + 1 <= j,
                    s > 0,
            ;
        } else {
            assert(s * (j + 1) <= s * i) by (nonlinear_arith)
                requires
                    j + 1 <= i,
                    s > 0,
            ;
        }
    }
    assert forall|x: int| 0 <= x < lane_span(lane_count) * lane_count implies {
        let i = #[trigger] lane_of(x, lane_count);
        0 <= i < lane_count && in_lane(x, i, lane_count)
    } by {
        let q = x / s;
        assert(0 <= q < n && s * q <= x < s * (q + 1)) by (nonlinear_arith)
            requires
                0 <= x < s * n,
                s > 0,
                q == x / s,
        ;
    }
    assert forall|i: int, x: int|
        0 <= i < lane_count && #[trigger] in_lane(x, i, lane_count) implies 0 <= x < lane_span(
            lane_count,
        ) * lane_count by {
        assert(0 <= x < s * n) by (nonlinear_arith)
            requires
                0 <= i < n,
                s * i <= x < s * (i + 1),
                s > 0,
        ;
    }
}

} // verus!
