//! The movement resolver: converts the desired displacement into an
//! actual, collision-respecting displacement and commits the new
//! position; and the camera follow step, which integrates the camera's
//! desired displacement without any collision checking.

use vstd::prelude::*;

verus! {

use crate::entity::{CameraPos, PlayerEntity, PlayerPos};
use crate::fixed::{
    DT_LIMIT,
    INTENT_LIMIT,
    POS_LIMIT,
    SCALE,
    SCALED_LIMIT,
    abs_fx,
    iabs,
    lemma_tdiv_bound,
    mul_div,
    tdiv,
};
use crate::vec::{V3, Vec3};
use crate::world::{
    BODY_LIMIT,
    CollisionMeta,
    ContactManifold,
    lemma_contacts_prefix_len,
    lemma_contacts_prefix_normals,
    set_position_spec,
    spec_contacts,
};

/// Per-axis reaction of one contact: the magnitude of the intended
/// displacement on each axis, scaled by that axis's component of the
/// contact normal. A normal pointing purely along an axis, in the
/// direction of the intended motion, cancels that axis exactly.
pub open spec fn reaction_term(s: V3, n: V3) -> V3 {
    V3 {
        x: tdiv(iabs(s.x) * n.x, SCALE as int),
        y: tdiv(iabs(s.y) * n.y, SCALE as int),
        z: tdiv(iabs(s.z) * n.z, SCALE as int),
    }
}

/// Accumulated reaction over a manifold sequence: the per-contact
/// terms summed per axis. Overlapping normals add up, so simultaneous
/// contacts on the same axis can over-cancel; that heuristic is kept
/// as the engine defines it.
pub open spec fn spec_reaction(s: V3, ms: Seq<ContactManifold>) -> V3
    decreases ms.len(),
{
    if ms.len() == 0 {
        V3::zero()
    } else {
        spec_reaction(s, ms.drop_last()).add(reaction_term(s, ms.last().normal@))
    }
}

/// The position one resolver step commits: the intent scaled by the
/// frame delta time, less the accumulated reaction of the manifolds,
/// added to the previous position.
pub open spec fn resolved_position(pos: V3, intent: V3, dt: int, ms: Seq<ContactManifold>) -> V3 {
    let scaled = intent.scale(dt);
    pos.add(scaled.sub(spec_reaction(scaled, ms)))
}

/// Every reaction coordinate is within `b` per contact when every
/// scaled-intent coordinate is within `b` and every normal is a unit
/// step.
pub proof fn lemma_reaction_bound(s: V3, ms: Seq<ContactManifold>, b: int)
    requires
        b >= 0,
        s.in_range(b),
        forall|j: int| 0 <= j < ms.len() ==> (#[trigger] ms[j]).normal@.in_range(SCALE as int),
    ensures
        spec_reaction(s, ms).in_range(ms.len() * b),
    decreases ms.len(),
{
    if ms.len() == 0 {
        assert(spec_reaction(s, ms).in_range(ms.len() * b)) by (nonlinear_arith)
            requires ms.len() == 0 && spec_reaction(s, ms) == V3::zero() && b >= 0;
    } else {
        let prefix = ms.drop_last();
        assert(forall|j: int| 0 <= j < prefix.len() ==> #[trigger] prefix[j] == ms[j]);
        lemma_reaction_bound(s, prefix, b);
        let n = ms.last().normal@;
        assert(ms[ms.len() - 1] == ms.last());
        assert((-(b * SCALE)) <= iabs(s.x) * n.x <= b * SCALE && (-(b * SCALE)) <= iabs(s.y) * n.y
            <= b * SCALE && (-(b * SCALE)) <= iabs(s.z) * n.z <= b * SCALE) by (nonlinear_arith)
            requires
                b >= 0,
                s.in_range(b),
                n.in_range(SCALE as int),
                iabs(s.x) == if s.x >= 0 { s.x } else { -s.x },
                iabs(s.y) == if s.y >= 0 { s.y } else { -s.y },
                iabs(s.z) == if s.z >= 0 { s.z } else { -s.z };
        lemma_tdiv_bound(iabs(s.x) * n.x, SCALE as int, b);
        lemma_tdiv_bound(iabs(s.y) * n.y, SCALE as int, b);
        lemma_tdiv_bound(iabs(s.z) * n.z, SCALE as int, b);
        assert((ms.len() - 1) * b + b == ms.len() * b) by (nonlinear_arith);
    }
}

/// One resolver step for the agent. Contacts are queried at the
/// position committed last frame, deliberately one frame stale, before
/// the move; the reaction of every manifold's deepest contact is
/// subtracted from the scaled intent; the result is committed both to
/// the shared position state and to the collision world. When the
/// agent's handle is still absent (setup has not fired yet), the whole
/// frame is skipped without error.
pub fn playerpos_velocity(
    meta: &mut CollisionMeta,
    playerpos: &mut PlayerPos,
    player: &PlayerEntity,
    dt: i64,
)
    requires
        0 <= dt <= DT_LIMIT,
        old(playerpos).pos@.in_range(POS_LIMIT as int),
        old(playerpos).dpos@.in_range(INTENT_LIMIT as int),
        old(meta)@.bodies.len() <= BODY_LIMIT,
    ensures
        player.handle is None ==> *final(meta) == *old(meta) && *final(playerpos) == *old(
            playerpos,
        ),
        player.handle matches Some(h) ==> ({
            &&& final(playerpos).pos@ == resolved_position(
                old(playerpos).pos@,
                old(playerpos).dpos@,
                dt as int,
                spec_contacts(old(meta)@.bodies, h),
            )
            &&& final(playerpos).dpos == old(playerpos).dpos
            &&& final(playerpos).facing == old(playerpos).facing
            &&& final(meta)@ == set_position_spec(old(meta)@, Some(h), final(playerpos).pos)
        }),
{
    match player.handle {
        None => {},
        Some(h) => {
            let ghost dp = old(playerpos).dpos@;
            proof {
                assert((-(SCALED_LIMIT * SCALE)) <= (dt as int) * dp.x <= SCALED_LIMIT * SCALE && (
                -(SCALED_LIMIT * SCALE)) <= (dt as int) * dp.y <= SCALED_LIMIT * SCALE && (-(
                SCALED_LIMIT * SCALE)) <= (dt as int) * dp.z <= SCALED_LIMIT * SCALE)
                    by (nonlinear_arith)
                    requires
                        0 <= dt <= DT_LIMIT,
                        dp.in_range(INTENT_LIMIT as int);
            }
            let scaled = playerpos.dpos.scale_fx(dt);
            proof {
                lemma_tdiv_bound((dt as int) * dp.x, SCALE as int, SCALED_LIMIT as int);
                lemma_tdiv_bound((dt as int) * dp.y, SCALE as int, SCALED_LIMIT as int);
                lemma_tdiv_bound((dt as int) * dp.z, SCALE as int, SCALED_LIMIT as int);
            }
            let contacts = meta.contacts_for(h);
            proof {
                lemma_contacts_prefix_len(meta@.bodies, h.idx as int, meta@.bodies.len() as int);
                lemma_contacts_prefix_normals(
                    meta@.bodies,
                    h.idx as int,
                    meta@.bodies.len() as int,
                );
            }
            let mut reaction = Vec3 { x: 0, y: 0, z: 0 };
            let mut i: usize = 0;
            while i < contacts.len()
                invariant
                    i <= contacts@.len(),
                    contacts@.len() <= BODY_LIMIT,
                    scaled@.in_range(SCALED_LIMIT as int),
                    forall|j: int|
                        0 <= j < contacts@.len() ==> (#[trigger] contacts@[j]).normal@.in_range(
                            SCALE as int,
                        ),
                    reaction@ == spec_reaction(scaled@, contacts@.take(i as int)),
                    reaction@.in_range(i as int * SCALED_LIMIT),
                decreases contacts@.len() - i,
            {
                let m = contacts[i];
                proof {
                    assert(m.normal@.in_range(SCALE as int));
                    assert((-(SCALED_LIMIT * SCALE)) <= iabs(scaled@.x) * m.normal@.x
                        <= SCALED_LIMIT * SCALE && (-(SCALED_LIMIT * SCALE)) <= iabs(scaled@.y)
                        * m.normal@.y <= SCALED_LIMIT * SCALE && (-(SCALED_LIMIT * SCALE)) <= iabs(
                        scaled@.z,
                    ) * m.normal@.z <= SCALED_LIMIT * SCALE) by (nonlinear_arith)
                        requires
                            scaled@.in_range(SCALED_LIMIT as int),
                            m.normal@.in_range(SCALE as int),
                            iabs(scaled@.x) == if scaled@.x >= 0 { scaled@.x } else { -scaled@.x },
                            iabs(scaled@.y) == if scaled@.y >= 0 { scaled@.y } else { -scaled@.y },
                            iabs(scaled@.z) == if scaled@.z >= 0 { scaled@.z } else { -scaled@.z };
                }
                let tx = mul_div(abs_fx(scaled.x), m.normal.x, SCALE);
                let ty = mul_div(abs_fx(scaled.y), m.normal.y, SCALE);
                let tz = mul_div(abs_fx(scaled.z), m.normal.z, SCALE);
                proof {
                    lemma_tdiv_bound(iabs(scaled@.x) * m.normal@.x, SCALE as int, SCALED_LIMIT as int);
                    lemma_tdiv_bound(iabs(scaled@.y) * m.normal@.y, SCALE as int, SCALED_LIMIT as int);
                    lemma_tdiv_bound(iabs(scaled@.z) * m.normal@.z, SCALE as int, SCALED_LIMIT as int);
                }
                reaction = Vec3 { x: reaction.x + tx, y: reaction.y + ty, z: reaction.z + tz };
                proof {
                    assert(contacts@.take(i + 1).drop_last() =~= contacts@.take(i as int));
                    assert(contacts@.take(i + 1).last() == contacts@[i as int]);
                }
                i = i + 1;
            }
            proof {
                assert(contacts@.take(contacts@.len() as int) =~= contacts@);
            }
            let step = scaled.sub(reaction);
            let newpos = playerpos.pos.add(step);
            playerpos.pos = newpos;
            meta.set_position(Some(h), newpos);
        },
    }
}

/// The camera follow step: integrates the camera's desired
/// displacement over the frame delta time, with no collision checking;
/// the camera is non-physical.
pub fn camerapos_velocity(camerapos: &mut CameraPos, dt: i64)
    requires
        0 <= dt <= DT_LIMIT,
        old(camerapos).pos@.in_range(POS_LIMIT as int),
        old(camerapos).dpos@.in_range(INTENT_LIMIT as int),
    ensures
        final(camerapos).pos@ == old(camerapos).pos@.add(old(camerapos).dpos@.scale(dt as int)),
        final(camerapos).dpos == old(camerapos).dpos,
{
    let ghost dp = old(camerapos).dpos@;
    proof {
        assert((-(SCALED_LIMIT * SCALE)) <= (dt as int) * dp.x <= SCALED_LIMIT * SCALE && (-(
        SCALED_LIMIT * SCALE)) <= (dt as int) * dp.y <= SCALED_LIMIT * SCALE && (-(SCALED_LIMIT
            * SCALE)) <= (dt as int) * dp.z <= SCALED_LIMIT * SCALE) by (nonlinear_arith)
            requires
                0 <= dt <= DT_LIMIT,
                dp.in_range(INTENT_LIMIT as int);
    }
    let scaled = camerapos.dpos.scale_fx(dt);
    proof {
        lemma_tdiv_bound((dt as int) * dp.x, SCALE as int, SCALED_LIMIT as int);
        lemma_tdiv_bound((dt as int) * dp.y, SCALE as int, SCALED_LIMIT as int);
        lemma_tdiv_bound((dt as int) * dp.z, SCALE as int, SCALED_LIMIT as int);
    }
    camerapos.pos = camerapos.pos.add(scaled);
}

} // verus!
