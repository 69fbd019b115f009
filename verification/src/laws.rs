//! Engine-wide laws, stated and proved over the same spec functions
//! that the public contracts use.

use vstd::prelude::*;

verus! {

use vstd::arithmetic::div_mod::lemma_div_of0;

use crate::fixed::{SCALE, iabs, lemma_tdiv_mul_exact};
use crate::intent::{FALL_RATE, JUMP_RATE, agent_intent, facing_target};
use crate::resolve::{resolved_position, spec_reaction};
use crate::vec::{V3, Vec2, Vec3};
use crate::world::{Body, ContactManifold, WorldModel, agent_count, lemma_agent_count_push, register_player_spec};

/// The pseudo-gravity baseline: whenever the jump flag is down, the
/// agent's vertical intent is exactly the constant descent and never
/// zero, whatever the analog axes hold.
pub proof fn lemma_gravity_baseline(joy: Vec2, apos: V3, cpos: V3)
    ensures
        agent_intent(joy, false, apos, cpos).y == FALL_RATE as int,
        agent_intent(joy, false, apos, cpos).y != 0,
{
}

/// While the jump flag is held, the agent's vertical intent is exactly
/// the constant rise, whatever the analog axes hold.
pub proof fn lemma_jump_override(joy: Vec2, apos: V3, cpos: V3)
    ensures
        agent_intent(joy, true, apos, cpos).y == JUMP_RATE as int,
{
}

/// The facing target is kept when the intent is exactly zero and moves
/// to the look-ahead point two intents behind the agent otherwise; and
/// the update is idempotent: repeating the same intent at the same
/// position yields the same facing target.
pub proof fn lemma_facing_idempotent(prev: V3, pos: V3, intent: V3)
    ensures
        intent == V3::zero() ==> facing_target(prev, pos, intent) == prev,
        intent != V3::zero() ==> facing_target(prev, pos, intent) == (V3 {
            x: pos.x - 2 * intent.x,
            y: pos.y - 2 * intent.y,
            z: pos.z - 2 * intent.z,
        }),
        facing_target(facing_target(prev, pos, intent), pos, intent) == facing_target(
            prev,
            pos,
            intent,
        ),
{
}

/// A single contact whose normal lies purely along one axis, met by a
/// scaled intent that does not point away from the obstacle, cancels
/// the intended motion on exactly that axis — the reaction equals the
/// intended displacement there — and leaves the other axes untouched.
/// An intent pointing away from the obstacle is outside this law: the
/// magnitude-weighted heuristic then pushes away instead of cancelling.
pub proof fn lemma_axis_cancellation(s: V3, m: ContactManifold)
    ensures
        (m.normal@.y == 0 && m.normal@.z == 0 && iabs(m.normal@.x) == SCALE as int && s.x
            * m.normal@.x >= 0) ==> spec_reaction(s, seq![m]) == (V3 { x: s.x, y: 0, z: 0 }),
        (m.normal@.x == 0 && m.normal@.z == 0 && iabs(m.normal@.y) == SCALE as int && s.y
            * m.normal@.y >= 0) ==> spec_reaction(s, seq![m]) == (V3 { x: 0, y: s.y, z: 0 }),
        (m.normal@.x == 0 && m.normal@.y == 0 && iabs(m.normal@.z) == SCALE as int && s.z
            * m.normal@.z >= 0) ==> spec_reaction(s, seq![m]) == (V3 { x: 0, y: 0, z: s.z }),
{
    let ms = seq![m];
    assert(ms.drop_last() =~= Seq::<ContactManifold>::empty());
    assert(ms.last() == m);
    assert(spec_reaction(s, ms.drop_last()) == V3::zero());
    assert(spec_reaction(s, ms) == V3::zero().add(crate::resolve::reaction_term(s, m.normal@)));
    lemma_div_of0(SCALE as int);
    lemma_axis_term(s.x, m.normal@.x);
    lemma_axis_term(s.y, m.normal@.y);
    lemma_axis_term(s.z, m.normal@.z);
}

/// The reaction term on one axis: zero for a zero normal component,
/// and the full intended displacement for a unit component the intent
/// does not oppose.
proof fn lemma_axis_term(s: int, n: int)
    ensures
        n == 0 ==> crate::fixed::tdiv(iabs(s) * n, SCALE as int) == 0,
        (iabs(n) == SCALE as int && s * n >= 0) ==> crate::fixed::tdiv(iabs(s) * n, SCALE as int)
            == s,
{
    lemma_div_of0(SCALE as int);
    if n == 0 {
        assert(iabs(s) * 0 == 0);
    }
    if iabs(n) == SCALE as int && s * n >= 0 {
        if n == SCALE as int {
            lemma_tdiv_mul_exact(iabs(s), SCALE as int);
            assert(iabs(s) * n == iabs(s) * (SCALE as int));
            assert(s >= 0) by (nonlinear_arith)
                requires s * n >= 0 && n == SCALE as int;
        } else {
            assert(n == -(SCALE as int));
            lemma_tdiv_mul_exact(-iabs(s), SCALE as int);
            assert(iabs(s) * n == (-iabs(s)) * (SCALE as int)) by (nonlinear_arith)
                requires n == -(SCALE as int);
            assert(s <= 0) by (nonlinear_arith)
                requires s * n >= 0 && n == -(SCALE as int);
        }
    }
}

/// With zero contacts the resolver applies the scaled intent exactly:
/// no reaction is subtracted.
pub proof fn lemma_free_motion(pos: V3, intent: V3, dt: int)
    ensures
        resolved_position(pos, intent, dt, Seq::empty()) == pos.add(intent.scale(dt)),
{
}

/// Registering the agent is one-shot: a second registration, at any
/// position, changes nothing.
pub proof fn lemma_register_player_once(w: WorldModel, pos1: Vec3, pos2: Vec3)
    ensures
        register_player_spec(register_player_spec(w, pos1), pos2) == register_player_spec(
            w,
            pos1,
        ),
{
}

/// A well-formed world holds exactly one dynamic-agent body once the
/// registration step has fired, however often it is repeated.
pub proof fn lemma_single_agent(w: WorldModel, pos: Vec3)
    requires
        w.wf(),
    ensures
        register_player_spec(w, pos).wf(),
        agent_count(register_player_spec(w, pos).bodies, register_player_spec(w, pos).playergroup)
            == 1,
{
    if !w.player_done {
        lemma_agent_count_push(w.bodies, w.playergroup, Body { pos, groups: w.playergroup });
    }
}

} // verus!
