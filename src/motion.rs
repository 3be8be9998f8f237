//! Motion planning: step-count buckets, the dead zone, and curved moves.
use crate::geometry::{Point2f, Ratio, sq};
use rand::rngs::ThreadRng;
use rand::Rng;
use vstd::prelude::*;

verus! {

#[verifier::external_type_specification]
#[verifier::external_body]
pub struct ExThreadRng(ThreadRng);

/// Relies on rand's `Rng::random_range` over an inclusive range: the value
/// lies within the range, which is never empty here.
#[verifier::external_body]
fn draw_between(rng: &mut ThreadRng, lo: u32, hi: u32) -> (r: u32)
    requires
        lo <= hi,
    ensures
        lo <= r <= hi,
{
    rng.random_range(lo..=hi)
}

/// Moves shorter than `limit` device units (and longer than the previous
/// bucket's limit) take between `min_steps` and `max_steps` steps.
#[derive(Clone, Copy, Debug, PartialEq, Eq, Structural)]
pub struct StepBucket {
    pub limit: u32,
    pub min_steps: u32,
    pub max_steps: u32,
}

/// Five distance buckets in ascending order, the last one open-ended, and
/// the range of the curve's control offsets.
#[derive(Clone, Copy, Debug)]
pub struct MotionProfile {
    pub buckets: [StepBucket; 5],
    pub control_min: u32,
    pub control_max: u32,
}

/// A curved move: the delta, the number of interpolation steps and the
/// control-point offsets.
#[derive(Clone, Copy, Debug, PartialEq, Eq, Structural)]
pub struct Trajectory {
    pub dx: i32,
    pub dy: i32,
    pub steps: u32,
    pub control_x: u32,
    pub control_y: u32,
}

pub open spec fn delta2(dx: int, dy: int) -> int {
    sq(dx) + sq(dy)
}

impl MotionProfile {
    pub open spec fn bucket(self, i: int) -> StepBucket {
        self.buckets@[i]
    }

    /// Limits rise strictly and are positive, every range is non-empty, and
    /// both ends of the ranges never fall from one bucket to the next.
    pub open spec fn wf(self) -> bool {
        &&& 0 < self.bucket(0).limit < self.bucket(1).limit < self.bucket(2).limit
            < self.bucket(3).limit
        &&& self.bucket(0).min_steps <= self.bucket(1).min_steps <= self.bucket(2).min_steps
            <= self.bucket(3).min_steps <= self.bucket(4).min_steps
        &&& self.bucket(0).max_steps <= self.bucket(1).max_steps <= self.bucket(2).max_steps
            <= self.bucket(3).max_steps <= self.bucket(4).max_steps
        &&& forall|i: int|
            0 <= i < 5 ==> #[trigger] self.bucket(i).min_steps <= self.bucket(i).max_steps
        &&& self.control_min <= self.control_max
    }

    /// The bucket of a move whose squared length is `d2`: the first whose
    /// limit exceeds the length, else the last.
    pub open spec fn bucket_for(self, d2: int) -> int {
        if d2 < sq(self.bucket(0).limit as int) {
            0
        } else if d2 < sq(self.bucket(1).limit as int) {
            1
        } else if d2 < sq(self.bucket(2).limit as int) {
            2
        } else if d2 < sq(self.bucket(3).limit as int) {
            3
        } else {
            4
        }
    }

    pub open spec fn range_for(self, dx: int, dy: int) -> (u32, u32) {
        let b = self.bucket(self.bucket_for(delta2(dx, dy)));
        (b.min_steps, b.max_steps)
    }

    /// The tuning used by default: limits 50, 200, 500 and 1000, then an
    /// open-ended bucket; control offsets from 4 to 16.
    pub fn standard() -> (r: MotionProfile)
        ensures
            r.wf(),
            r.bucket(0) == (StepBucket { limit: 50, min_steps: 2, max_steps: 15 }),
            r.bucket(1) == (StepBucket { limit: 200, min_steps: 10, max_steps: 60 }),
            r.bucket(2) == (StepBucket { limit: 500, min_steps: 40, max_steps: 150 }),
            r.bucket(3) == (StepBucket { limit: 1000, min_steps: 100, max_steps: 300 }),
            r.bucket(4) == (StepBucket { limit: u32::MAX, min_steps: 200, max_steps: 600 }),
            r.control_min == 4,
            r.control_max == 16,
    {
        let r = MotionProfile {
            buckets: [
                StepBucket { limit: 50, min_steps: 2, max_steps: 15 },
                StepBucket { limit: 200, min_steps: 10, max_steps: 60 },
                StepBucket { limit: 500, min_steps: 40, max_steps: 150 },
                StepBucket { limit: 1000, min_steps: 100, max_steps: 300 },
                StepBucket { limit: 4294967295, min_steps: 200, max_steps: 600 },
            ],
            control_min: 4,
            control_max: 16,
        };
        assert(r.wf());
        r
    }

    /// The step range of the bucket that a move by `(dx, dy)` falls in.
    pub fn step_range(&self, dx: i32, dy: i32) -> (r: (u32, u32))
        ensures
            r == self.range_for(dx as int, dy as int),
    {
        let d2 = square_u64(dx) + square_u64(dy);
        let mut i: usize = 0;
        while i < 4
            invariant
                0 <= i <= 4,
                d2 == delta2(dx as int, dy as int),
                forall|j: int| 0 <= j < i ==> d2 >= sq(#[trigger] self.bucket(j).limit as int),
            decreases 4 - i,
        {
            let l = self.buckets[i].limit as u64;
            proof {
                crate::geometry::lemma_mul_bound(l as int, l as int, 0xffff_ffff, 0xffff_ffff);
            }
            if d2 < l * l {
                let b = self.buckets[i];
                return (b.min_steps, b.max_steps);
            }
            i = i + 1;
        }
        let b = self.buckets[4];
        (b.min_steps, b.max_steps)
    }

    /// Plan a curved move by `(dx, dy)`: the step count is drawn from the
    /// range of its distance bucket, each control offset from the control
    /// range.
    pub fn plan(&self, dx: i32, dy: i32, random: &mut ThreadRng) -> (r: Trajectory)
        requires
            self.wf(),
        ensures
            r.dx == dx,
            r.dy == dy,
            self.range_for(dx as int, dy as int).0 <= r.steps <= self.range_for(
                dx as int,
                dy as int,
            ).1,
            self.control_min <= r.control_x <= self.control_max,
            self.control_min <= r.control_y <= self.control_max,
    {
        let (lo, hi) = self.step_range(dx, dy);
        assert(0 <= self.bucket_for(delta2(dx as int, dy as int)) < 5);
        let steps = draw_between(random, lo, hi);
        let control_x = draw_between(random, self.control_min, self.control_max);
        let control_y = draw_between(random, self.control_min, self.control_max);
        Trajectory { dx, dy, steps, control_x, control_y }
    }
}

fn square_u64(v: i32) -> (r: u64)
    ensures
        r == sq(v as int),
        r <= 0x4000000000000000,
{
    let w = v as i64;
    proof {
        crate::geometry::lemma_square_bound(w as int, 0x80000000);
    }
    (w * w) as u64
}

/// A zero-length move falls in the first bucket, whose range is the lowest.
pub proof fn lemma_zero_move_first_bucket(p: MotionProfile)
    requires
        p.wf(),
    ensures
        p.bucket_for(0) == 0,
        forall|i: int| 0 <= i < 5 ==> p.bucket(0).min_steps <= #[trigger] p.bucket(i).min_steps,
{
    assert(sq(p.bucket(0).limit as int) > 0) by (nonlinear_arith)
        requires
            p.bucket(0).limit > 0,
    ;
}

/// A longer move never falls in an earlier bucket, and the step range does
/// not fall as the move grows.
pub proof fn lemma_buckets_monotone(p: MotionProfile, d1: int, d2: int)
    requires
        p.wf(),
        0 <= d1 <= d2,
    ensures
        p.bucket_for(d1) <= p.bucket_for(d2),
        p.bucket(p.bucket_for(d1)).min_steps <= p.bucket(p.bucket_for(d2)).min_steps,
        p.bucket(p.bucket_for(d1)).max_steps <= p.bucket(p.bucket_for(d2)).max_steps,
{
    let l0 = p.bucket(0).limit as int;
    let l1 = p.bucket(1).limit as int;
    let l2 = p.bucket(2).limit as int;
    let l3 = p.bucket(3).limit as int;
    assert(sq(l0) < sq(l1) && sq(l1) < sq(l2) && sq(l2) < sq(l3)) by (nonlinear_arith)
        requires
            0 < l0 < l1 < l2 < l3,
    ;
}

/// Outside the dead zone: the target is farther from the reference than
/// `tolerance` scaled by `zone`.
pub open spec fn outside_zone(target: Point2f, reference: Point2f, tolerance: int, zone: Ratio) -> bool {
    target.dist2(reference) * sq(zone.den as int) > sq(tolerance * zone.num)
}

/// The move towards `target`, or none while the target lies within
/// `tolerance * zone` of `reference`.
pub fn aim_delta(target: Point2f, reference: Point2f, tolerance: u32, zone: Ratio) -> (r: Option<
    (i64, i64),
>)
    requires
        target.in_range(),
        reference.in_range(),
        zone.wf(),
    ensures
        r == (if outside_zone(target, reference, tolerance as int, zone) {
            Some(((target.x - reference.x) as i64, (target.y - reference.y) as i64))
        } else {
            None
        }),
{
    let d2 = target.l2_distance(&reference);
    proof {
        crate::geometry::lemma_mul_bound(tolerance as int, zone.num as int, 0xffff_ffff, 0xffff_ffff);
        crate::geometry::lemma_mul_bound(zone.den as int, zone.den as int, 0xffff_ffff, 0xffff_ffff);
    }
    let c = tolerance as u128 * zone.num as u128;
    let r = zone.den as u128 * zone.den as u128;
    proof {
        crate::geometry::lemma_mul_bound(c as int, c as int, 0xffff_fffe_0000_0001, 0xffff_fffe_0000_0001);
        assert(r > 0) by (nonlinear_arith)
            requires
                r == zone.den as int * zone.den as int,
                zone.den > 0,
        ;
    }
    let q = c * c;
    let bound = q / r;
    proof {
        lemma_floor_compare(d2 as int, q as int, r as int);
    }
    if d2 as u128 > bound {
        Some((target.x - reference.x, target.y - reference.y))
    } else {
        None
    }
}

proof fn lemma_floor_compare(x: int, q: int, r: int)
    requires
        x >= 0,
        q >= 0,
        r > 0,
    ensures
        (x * r > q) == (x > q / r),
{
    if x > q / r {
        assert(x * r > q) by (nonlinear_arith)
            requires
                x >= q / r + 1,
                r > 0,
                q >= 0,
        ;
    } else {
        assert(x * r <= q) by (nonlinear_arith)
            requires
                x <= q / r,
                x >= 0,
                r > 0,
                q >= 0,
        ;
    }
}

} // verus!
