//! The movement intent mapper: turns input state plus the current
//! agent and camera positions into a desired per-frame displacement.
//! It performs no collision awareness; it only produces desired motion.

use vstd::prelude::*;

verus! {

use crate::entity::{CameraPos, PlayerPos};
use crate::fixed::{AXIS_LIMIT, INTENT_LIMIT, POS_LIMIT, SCALE, lemma_tdiv_bound};
use crate::gamepad::GamepadState;
use crate::vec::{V3, Vec2, Vec3};

/// Vertical intent while the jump flag is held: a constant rise of one
/// world unit per second, not an impulse.
pub const JUMP_RATE: i64 = 1000;

/// Vertical intent otherwise: a constant gentle descent that settles
/// the agent onto static floors.
pub const FALL_RATE: i64 = -100;

/// The desired horizontal displacement derived from one analog pair:
/// `ax` moves along the view-relative lateral axis (the normalized
/// cross product of the camera-to-agent vector and up, so strafing is
/// relative to the current view), `ay` along the unnormalized
/// camera-to-agent vector, whose magnitude participates.
pub open spec fn desired_xz(ax: int, ay: int, apos: V3, cpos: V3) -> V3 {
    let right = cpos.sub(apos).cross_up().unit_xz();
    let fwd = apos.sub(cpos);
    right.scale(-ax).add(fwd.scale(ay))
}

/// The agent's desired displacement: horizontal from [`desired_xz`],
/// the vertical component forced to the jump or descent constant.
pub open spec fn agent_intent(joy: Vec2, jump: bool, apos: V3, cpos: V3) -> V3 {
    let base = desired_xz(joy.x as int, joy.y as int, apos, cpos);
    V3 {
        x: base.x,
        y: if jump {
            JUMP_RATE as int
        } else {
            FALL_RATE as int
        },
        z: base.z,
    }
}

/// The facing target after one mapping step: kept when the intent is
/// exactly zero, else the point two intents behind the agent, so the
/// agent faces away from its motion.
pub open spec fn facing_target(prev: V3, pos: V3, intent: V3) -> V3 {
    if intent == V3::zero() {
        prev
    } else {
        V3 { x: pos.x - 2 * intent.x, y: pos.y - 2 * intent.y, z: pos.z - 2 * intent.z }
    }
}

/// Computes [`desired_xz`] for one analog pair.
fn desired_step(ax: i64, ay: i64, apos: Vec3, cpos: Vec3) -> (r: Vec3)
    requires
        apos@.in_range(POS_LIMIT as int),
        cpos@.in_range(POS_LIMIT as int),
        -AXIS_LIMIT <= ax <= AXIS_LIMIT,
        -AXIS_LIMIT <= ay <= AXIS_LIMIT,
    ensures
        r@ == desired_xz(ax as int, ay as int, apos@, cpos@),
        r@.in_range(INTENT_LIMIT as int),
{
    let diff = cpos.sub(apos);
    let right = diff.cross_up().unit_xz();
    let fwd = apos.sub(cpos);
    proof {
        assert((-(AXIS_LIMIT * SCALE)) <= (-(ax as int)) * right@.x <= AXIS_LIMIT * SCALE
            && (-(AXIS_LIMIT * SCALE)) <= (-(ax as int)) * right@.y <= AXIS_LIMIT * SCALE
            && (-(AXIS_LIMIT * SCALE)) <= (-(ax as int)) * right@.z <= AXIS_LIMIT * SCALE)
            by (nonlinear_arith)
            requires
                -AXIS_LIMIT <= ax <= AXIS_LIMIT,
                right@.in_range(SCALE as int);
        assert((-(AXIS_LIMIT * 2 * POS_LIMIT)) <= (ay as int) * fwd@.x <= AXIS_LIMIT * 2 * POS_LIMIT
            && (-(AXIS_LIMIT * 2 * POS_LIMIT)) <= (ay as int) * fwd@.y <= AXIS_LIMIT * 2 * POS_LIMIT
            && (-(AXIS_LIMIT * 2 * POS_LIMIT)) <= (ay as int) * fwd@.z <= AXIS_LIMIT * 2 * POS_LIMIT)
            by (nonlinear_arith)
            requires
                -AXIS_LIMIT <= ay <= AXIS_LIMIT,
                fwd@.in_range(2 * POS_LIMIT as int);
    }
    let lat = right.scale_fx(-ax);
    let fw = fwd.scale_fx(ay);
    proof {
        lemma_tdiv_bound((-(ax as int)) * right@.x, SCALE as int, AXIS_LIMIT as int);
        lemma_tdiv_bound((-(ax as int)) * right@.y, SCALE as int, AXIS_LIMIT as int);
        lemma_tdiv_bound((-(ax as int)) * right@.z, SCALE as int, AXIS_LIMIT as int);
        lemma_tdiv_bound((ay as int) * fwd@.x, SCALE as int, 2 * (POS_LIMIT as int) * 1000);
        lemma_tdiv_bound((ay as int) * fwd@.y, SCALE as int, 2 * (POS_LIMIT as int) * 1000);
        lemma_tdiv_bound((ay as int) * fwd@.z, SCALE as int, 2 * (POS_LIMIT as int) * 1000);
    }
    lat.add(fw)
}

/// Maps the input state and the current agent and camera positions to
/// the agent's desired displacement for this frame, forcing the
/// vertical component, and moves the facing target unless the intent
/// is exactly zero. The current position is not touched.
pub fn gamepad_player(camerapos: &CameraPos, playerpos: &mut PlayerPos, gamepad_state: &GamepadState)
    requires
        old(playerpos).pos@.in_range(POS_LIMIT as int),
        camerapos.pos@.in_range(POS_LIMIT as int),
        -AXIS_LIMIT <= gamepad_state.joy.x <= AXIS_LIMIT,
        -AXIS_LIMIT <= gamepad_state.joy.y <= AXIS_LIMIT,
    ensures
        final(playerpos).dpos@ == agent_intent(
            gamepad_state.joy,
            gamepad_state.jump,
            old(playerpos).pos@,
            camerapos.pos@,
        ),
        final(playerpos).dpos@.in_range(INTENT_LIMIT as int),
        final(playerpos).facing@ == facing_target(
            old(playerpos).facing@,
            old(playerpos).pos@,
            final(playerpos).dpos@,
        ),
        final(playerpos).pos == old(playerpos).pos,
{
    let mut dpos = desired_step(
        gamepad_state.joy.x,
        gamepad_state.joy.y,
        playerpos.pos,
        camerapos.pos,
    );
    dpos.y = if gamepad_state.jump {
        JUMP_RATE
    } else {
        FALL_RATE
    };
    if !(dpos.x == 0 && dpos.y == 0 && dpos.z == 0) {
        playerpos.facing = Vec3 {
            x: playerpos.pos.x - 2 * dpos.x,
            y: playerpos.pos.y - 2 * dpos.y,
            z: playerpos.pos.z - 2 * dpos.z,
        };
    }
    playerpos.dpos = dpos;
}

/// Maps the camera's analog pair to the camera's desired displacement,
/// with the same lateral/forward construction relative to the same
/// camera-to-agent basis; no vertical override and no facing update.
pub fn gamepad_camera(gamepad_state: &GamepadState, playerpos: &PlayerPos, camerapos: &mut CameraPos)
    requires
        playerpos.pos@.in_range(POS_LIMIT as int),
        old(camerapos).pos@.in_range(POS_LIMIT as int),
        -AXIS_LIMIT <= gamepad_state.cam.x <= AXIS_LIMIT,
        -AXIS_LIMIT <= gamepad_state.cam.y <= AXIS_LIMIT,
    ensures
        final(camerapos).dpos@ == desired_xz(
            gamepad_state.cam.x as int,
            gamepad_state.cam.y as int,
            playerpos.pos@,
            old(camerapos).pos@,
        ),
        final(camerapos).dpos@.in_range(INTENT_LIMIT as int),
        final(camerapos).pos == old(camerapos).pos,
{
    camerapos.dpos = desired_step(
        gamepad_state.cam.x,
        gamepad_state.cam.y,
        playerpos.pos,
        camerapos.pos,
    );
}

} // verus!
