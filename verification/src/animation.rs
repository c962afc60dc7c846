//! The sliding-animation plan: speed presets, start and end positions at
//! the work area's right edge, and the time-stepped linear sweep, all
//! computed before any worker thread runs.

use vstd::prelude::*;
use vstd::arithmetic::div_mod::{lemma_div_by_multiple, lemma_div_is_ordered};
use vstd::arithmetic::mul::lemma_mul_inequality;

use crate::str_eq;

verus! {

/// The usable screen rectangle, in physical pixels, excluding reserved
/// surfaces such as taskbars. Queried fresh before every transition.
#[derive(Clone, Copy, PartialEq, Eq, Structural, Debug)]
pub struct WorkArea {
    pub x: i32,
    pub y: i32,
    pub width: i32,
    pub height: i32,
}

/// One sliding transition, fully determined before its worker runs:
/// single-use, consumed by one sweep.
#[derive(Clone, Copy, PartialEq, Eq, Structural, Debug)]
pub struct AnimationPlan {
    pub duration_ms: u64,
    pub steps: u32,
    pub start_x: i32,
    pub end_x: i32,
    pub y: i32,
    pub physical_width: i32,
    pub physical_height: i32,
}

/// Duration in milliseconds and step count for a named animation speed;
/// an unrecognized name falls back to a built-in middle speed.
pub open spec fn spec_speed_params(s: Seq<char>) -> (int, int) {
    if s == "instant"@ {
        (1, 1)
    } else if s == "fast"@ {
        (100, 10)
    } else if s == "normal"@ {
        (250, 20)
    } else if s == "slow"@ {
        (500, 30)
    } else {
        (120, 15)
    }
}

pub fn speed_params(speed: &str) -> (r: (u64, u32))
    ensures
        (r.0 as int, r.1 as int) == spec_speed_params(speed@),
        r.1 >= 1,
{
    if str_eq(speed, "instant") {
        (1, 1)
    } else if str_eq(speed, "fast") {
        (100, 10)
    } else if str_eq(speed, "normal") {
        (250, 20)
    } else if str_eq(speed, "slow") {
        (500, 30)
    } else {
        (120, 15)
    }
}

/// Where the panel's left edge rests when fully shown or fully hidden,
/// against the work area's right edge.
pub open spec fn resting_x(visible: bool, area: WorkArea, physical_width: int) -> int {
    if visible {
        area.x + area.width - physical_width
    } else {
        area.x + area.width
    }
}

/// Position after step `i` of `steps` of the linear sweep, truncated
/// toward zero; step `steps` lands exactly on `end_x`.
pub open spec fn spec_step_x(start_x: int, end_x: int, steps: int, i: int) -> int {
    if end_x >= start_x {
        start_x + (end_x - start_x) * i / steps
    } else {
        start_x - (start_x - end_x) * i / steps
    }
}

/// The final step of the sweep snaps exactly to the target position.
pub proof fn lemma_final_step_snaps(start_x: int, end_x: int, steps: int)
    requires
        steps >= 1,
    ensures
        spec_step_x(start_x, end_x, steps, steps) == end_x,
{
    if end_x >= start_x {
        lemma_div_by_multiple(end_x - start_x, steps);
    } else {
        lemma_div_by_multiple(start_x - end_x, steps);
    }
}

/// The instant preset performs a single step, and a single-step sweep is
/// one direct write of exactly the target position, with no intermediate
/// step before it.
pub proof fn lemma_instant_single_write(start_x: int, end_x: int)
    ensures
        spec_speed_params("instant"@) == (1int, 1int),
        spec_step_x(start_x, end_x, 1, 1) == end_x,
{
    lemma_final_step_snaps(start_x, end_x, 1);
}

/// Derive the plan for one panel transition from the decision inputs:
/// which way to slide, the fresh work area, the panel's physical width,
/// and the speed preset's duration and step count.
pub fn plan_slide(
    show: bool,
    area: WorkArea,
    physical_width: i32,
    duration_ms: u64,
    steps: u32,
) -> (p: AnimationPlan)
    requires
        area.width >= 0,
        physical_width >= 0,
        area.x + area.width <= i32::MAX,
        area.x + area.width - physical_width >= i32::MIN,
        steps >= 1,
    ensures
        p.start_x == resting_x(!show, area, physical_width as int),
        p.end_x == resting_x(show, area, physical_width as int),
        p.duration_ms == duration_ms,
        p.steps == steps,
        p.y == area.y,
        p.physical_width == physical_width,
        p.physical_height == area.height,
{
    let screen_right: i32 = area.x + area.width;
    let shown_x: i32 = screen_right - physical_width;
    AnimationPlan {
        duration_ms,
        steps,
        start_x: if show { screen_right } else { shown_x },
        end_x: if show { shown_x } else { screen_right },
        y: area.y,
        physical_width,
        physical_height: area.height,
    }
}

fn step_x(start_x: i32, end_x: i32, steps: u32, i: u32) -> (x: i32)
    requires
        steps >= 1,
        i <= steps,
    ensures
        x as int == spec_step_x(start_x as int, end_x as int, steps as int, i as int),
{
    if end_x >= start_x {
        let dist: i128 = (end_x as i128) - (start_x as i128);
        proof {
            assert(dist * (i as int) >= 0) by (nonlinear_arith)
                requires
                    dist >= 0,
                    i >= 0,
            ;
            assert(dist * (i as int) <= 0x10000000000000000) by (nonlinear_arith)
                requires
                    0 <= dist <= 0x100000000,
                    0 <= i <= 0x100000000,
            ;
        }
        let off: i128 = dist * (i as i128) / (steps as i128);
        proof {
            assert(dist * (i as int) <= dist * (steps as int)) by (nonlinear_arith)
                requires
                    0 <= i <= steps,
                    dist >= 0,
            ;
            lemma_div_is_ordered(0, dist * (i as int), steps as int);
            lemma_div_is_ordered(dist * (i as int), dist * (steps as int), steps as int);
            lemma_div_by_multiple(dist as int, steps as int);
        }
        let x128: i128 = (start_x as i128) + off;
        x128 as i32
    } else {
        let dist: i128 = (start_x as i128) - (end_x as i128);
        proof {
            assert(dist * (i as int) >= 0) by (nonlinear_arith)
                requires
                    dist >= 0,
                    i >= 0,
            ;
            assert(dist * (i as int) <= 0x10000000000000000) by (nonlinear_arith)
                requires
                    0 <= dist <= 0x100000000,
                    0 <= i <= 0x100000000,
            ;
        }
        let off: i128 = dist * (i as i128) / (steps as i128);
        proof {
            assert(dist * (i as int) <= dist * (steps as int)) by (nonlinear_arith)
                requires
                    0 <= i <= steps,
                    dist >= 0,
            ;
            lemma_div_is_ordered(0, dist * (i as int), steps as int);
            lemma_div_is_ordered(dist * (i as int), dist * (steps as int), steps as int);
            lemma_div_by_multiple(dist as int, steps as int);
        }
        let x128: i128 = (start_x as i128) - off;
        x128 as i32
    }
}

/// Every position the sweep writes, in order: one entry per step, the
/// last exactly the target. For a single-step plan (the instant preset)
/// this is one direct write to the target, with no intermediate steps.
pub fn slide_positions(plan: &AnimationPlan) -> (ps: Vec<i32>)
    requires
        plan.steps >= 1,
    ensures
        ps@.len() == plan.steps,
        forall|k: int|
            0 <= k < ps@.len() ==> ps@[k] == spec_step_x(
                plan.start_x as int,
                plan.end_x as int,
                plan.steps as int,
                k + 1,
            ),
        ps@[ps@.len() - 1] == plan.end_x,
{
    let mut ps: Vec<i32> = Vec::new();
    let mut i: u64 = 1;
    while i <= plan.steps as u64
        invariant
            plan.steps >= 1,
            1 <= i <= plan.steps + 1,
            ps@.len() == i - 1,
            forall|k: int|
                0 <= k < ps@.len() ==> ps@[k] == spec_step_x(
                    plan.start_x as int,
                    plan.end_x as int,
                    plan.steps as int,
                    k + 1,
                ),
        decreases plan.steps + 1 - i,
    {
        ps.push(step_x(plan.start_x, plan.end_x, plan.steps, i as u32));
        i = i + 1;
    }
    proof {
        lemma_final_step_snaps(plan.start_x as int, plan.end_x as int, plan.steps as int);
    }
    ps
}

} // verus!
