//! The plain values that pass between the world and the outside rigid-body
//! solver, and the play-field boundary rule.
use vstd::prelude::*;
use crate::components::{Position, Velocity, UNIT};

verus! {

/// The world's name for one body of the solver.
pub type BodyHandle = u64;

/// How the solver moves a body.
#[derive(Debug, Clone, Copy, PartialEq, Eq, Structural)]
pub enum PhysicsBodyType {
    Dynamic,
    Fixed,
    KinematicPositionBased,
    KinematicVelocityBased,
}

/// One change that the world asks of the solver. The world queues these in
/// order; whoever drives the solver applies them in that order.
#[derive(Debug, Clone, Copy, PartialEq, Eq, Structural)]
pub enum PhysicsCommand {
    /// Make a body at `position`, moving at `velocity`, with a square
    /// collider of half side `half_extent`.
    CreateBody {
        handle: BodyHandle,
        body_type: PhysicsBodyType,
        position: Position,
        velocity: Velocity,
        half_extent: i32,
    },
    /// Take the body, its collider and its joints out of the solver.
    RemoveBody { handle: BodyHandle },
    /// Set the body's linear velocity.
    SetVelocity { handle: BodyHandle, velocity: Velocity },
    /// Move the body to `position` and set its linear velocity.
    SetState { handle: BodyHandle, position: Position, velocity: Velocity },
}

/// What the solver reports of one body after a step.
#[derive(Debug, Clone, Copy, PartialEq, Eq, Structural)]
pub struct BodyReport {
    pub handle: BodyHandle,
    pub position: Position,
    pub velocity: Velocity,
}

/// Width of the play field, in fixed-point steps.
pub const FIELD_WIDTH: i32 = 800 * UNIT;

/// Height of the play field, in fixed-point steps.
pub const FIELD_HEIGHT: i32 = 600 * UNIT;

/// Distance from each edge of the field that a body's position may not cross.
pub const MARGIN: i32 = 16 * UNIT;

/// `|v|`, held at `i32::MAX`.
pub open spec fn magnitude(v: i32) -> i32 {
    if v >= 0 {
        v
    } else if v == i32::MIN {
        i32::MAX
    } else {
        (-v) as i32
    }
}

/// Whether `p` lies outside `[MARGIN, extent - MARGIN]`.
pub open spec fn off_axis(p: i32, extent: i32) -> bool {
    p < MARGIN || p > extent - MARGIN
}

/// The coordinate `p`, moved back inside `[MARGIN, extent - MARGIN]`.
pub open spec fn clamp_axis(p: i32, extent: i32) -> i32 {
    if p < MARGIN {
        MARGIN
    } else if p > extent - MARGIN {
        (extent - MARGIN) as i32
    } else {
        p
    }
}

/// The velocity component `v` of a body at `p`: pointed back into the field
/// where `p` has crossed a margin, unchanged elsewhere.
pub open spec fn bounce_axis(p: i32, v: i32, extent: i32) -> i32 {
    if p < MARGIN {
        magnitude(v)
    } else if p > extent - MARGIN {
        (-magnitude(v)) as i32
    } else {
        v
    }
}

/// Whether the boundary rule moves the body of `r`.
pub open spec fn out_of_field(r: BodyReport) -> bool {
    off_axis(r.position.x, FIELD_WIDTH) || off_axis(r.position.y, FIELD_HEIGHT)
}

/// `r` after the boundary rule: each coordinate that crossed a margin is
/// put on it, and the matching velocity component points back inward.
pub open spec fn settled(r: BodyReport) -> BodyReport {
    BodyReport {
        handle: r.handle,
        position: Position {
            x: clamp_axis(r.position.x, FIELD_WIDTH),
            y: clamp_axis(r.position.y, FIELD_HEIGHT),
        },
        velocity: Velocity {
            x: bounce_axis(r.position.x, r.velocity.x, FIELD_WIDTH),
            y: bounce_axis(r.position.y, r.velocity.y, FIELD_HEIGHT),
        },
    }
}

fn abs_held(v: i32) -> (r: i32)
    ensures
        r == magnitude(v),
{
    if v >= 0 {
        v
    } else if v == i32::MIN {
        i32::MAX
    } else {
        -v
    }
}

fn settle_axis(p: i32, v: i32, extent: i32) -> (r: (i32, i32, bool))
    requires
        extent == FIELD_WIDTH || extent == FIELD_HEIGHT,
    ensures
        r == (clamp_axis(p, extent), bounce_axis(p, v, extent), off_axis(p, extent)),
{
    if p < MARGIN {
        (MARGIN, abs_held(v), true)
    } else if p > extent - MARGIN {
        (extent - MARGIN, -abs_held(v), true)
    } else {
        (p, v, false)
    }
}

/// Applies the boundary rule to one report: the settled report, and whether
/// the rule changed where the body is.
pub fn apply_boundary_constraints(report: &BodyReport) -> (r: (BodyReport, bool))
    ensures
        r.0 == settled(*report),
        r.1 == out_of_field(*report),
{
    let (x, vx, moved_x) = settle_axis(report.position.x, report.velocity.x, FIELD_WIDTH);
    let (y, vy, moved_y) = settle_axis(report.position.y, report.velocity.y, FIELD_HEIGHT);
    (
        BodyReport {
            handle: report.handle,
            position: Position { x, y },
            velocity: Velocity { x: vx, y: vy },
        },
        moved_x || moved_y,
    )
}

/// Boundary bounce: a body found past a margin while moving outward ends on
/// the margin, with that velocity component's sign flipped.
pub proof fn lemma_boundary_bounce(r: BodyReport)
    ensures
        r.position.x < MARGIN && i32::MIN < r.velocity.x < 0 ==> settled(r).position.x == MARGIN
            && settled(r).velocity.x == -r.velocity.x,
        r.position.x > FIELD_WIDTH - MARGIN && r.velocity.x > 0 ==> settled(r).position.x
            == FIELD_WIDTH - MARGIN && settled(r).velocity.x == -r.velocity.x,
        r.position.y < MARGIN && i32::MIN < r.velocity.y < 0 ==> settled(r).position.y == MARGIN
            && settled(r).velocity.y == -r.velocity.y,
        r.position.y > FIELD_HEIGHT - MARGIN && r.velocity.y > 0 ==> settled(r).position.y
            == FIELD_HEIGHT - MARGIN && settled(r).velocity.y == -r.velocity.y,
        !out_of_field(r) ==> settled(r) == r,
{
}

} // verus!
