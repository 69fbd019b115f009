//! The collision world: one dynamic agent box, static obstacle boxes,
//! group-filtered contact queries, and the one-shot registration steps
//! that populate the world during scene setup.
//!
//! Every body is an axis-aligned cube of half-extent one world unit.
//! Contact is detected slightly before exact geometric overlap: a
//! small margin keeps resting contact stable at the boundary.

use vstd::prelude::*;

verus! {

use crate::entity::{PlayerEntity, StaticEntity};
use crate::fixed::{SCALE, iabs};
use crate::vec::{V3, Vec3};

/// Largest number of bodies the movement resolver accepts in one
/// world; keeps the accumulated contact reaction inside `i64`.
pub const BODY_LIMIT: usize = 1000;

/// Half-extent of every collision box: one world unit.
pub const HALF_EXTENT: i64 = 1000;

/// Collision margin: contact is reported while the per-axis gap
/// between two box surfaces is below this, slightly before exact
/// overlap, so resting contact does not flicker at the boundary.
pub const MARGIN: i64 = 20;

/// Per-axis centre distance below which two boxes are in contact.
pub const CONTACT_SPAN: i64 = 2 * HALF_EXTENT + MARGIN;

/// Identifies one body in the collision world.
#[derive(Clone, Copy, PartialEq, Eq, Structural, Debug)]
pub struct BodyHandle {
    pub idx: usize,
}

/// A membership/whitelist bitmask pair. Two bodies are tested against
/// each other only when each body's membership meets the other's
/// whitelist; this is the broad-phase pruning that keeps the query
/// cost bounded with many static obstacles.
#[derive(Clone, Copy, PartialEq, Eq, Structural, Debug)]
pub struct CollisionGroups {
    pub membership: u32,
    pub whitelist: u32,
}

impl CollisionGroups {
    pub open spec fn interacts_spec(self, o: CollisionGroups) -> bool {
        (self.membership & o.whitelist) != 0 && (o.membership & self.whitelist) != 0
    }

    pub fn interacts(self, o: CollisionGroups) -> (r: bool)
        ensures
            r == self.interacts_spec(o),
    {
        (self.membership & o.whitelist) != 0 && (o.membership & self.whitelist) != 0
    }
}

/// A rigid collision box placed in world space.
#[derive(Clone, Copy, PartialEq, Eq, Structural, Debug)]
pub struct Body {
    pub pos: Vec3,
    pub groups: CollisionGroups,
}

/// One narrow-phase result against one other body: the deepest contact
/// point's normal, a fixed-point unit vector pointing from the queried
/// body toward the other one.
#[derive(Clone, Copy, PartialEq, Eq, Structural, Debug)]
pub struct ContactManifold {
    pub other: BodyHandle,
    pub normal: Vec3,
}

/// Mathematical model of the collision world.
#[verifier::ext_equal]
pub ghost struct WorldModel {
    pub bodies: Seq<Body>,
    pub playergroup: CollisionGroups,
    pub staticgroup: CollisionGroups,
    pub player_done: bool,
    pub static_done: bool,
}

/// Number of bodies in the dynamic-agent group.
pub open spec fn agent_count(bodies: Seq<Body>, playergroup: CollisionGroups) -> int
    decreases bodies.len(),
{
    if bodies.len() == 0 {
        0
    } else {
        agent_count(bodies.drop_last(), playergroup) + if bodies.last().groups == playergroup {
            1int
        } else {
            0int
        }
    }
}

impl WorldModel {
    /// The two groups are distinct, and the dynamic-agent body exists
    /// exactly once the one-shot registration has fired.
    pub open spec fn wf(self) -> bool {
        &&& self.playergroup != self.staticgroup
        &&& agent_count(self.bodies, self.playergroup) == if self.player_done {
            1int
        } else {
            0int
        }
    }
}

/// Two unit boxes are in contact when the distance of their centres is
/// within `CONTACT_SPAN` on every axis.
pub open spec fn in_contact(a: V3, b: V3) -> bool {
    &&& iabs(b.x - a.x) < CONTACT_SPAN
    &&& iabs(b.y - a.y) < CONTACT_SPAN
    &&& iabs(b.z - a.z) < CONTACT_SPAN
}

/// A fixed-point unit step along one axis, in the direction of `d`
/// (non-negative counts as positive).
pub open spec fn sign_unit(d: int) -> i64 {
    if d >= 0 {
        SCALE
    } else {
        ((-1 * SCALE) as i64)
    }
}

/// The deepest contact point's normal between box `a` (the queried
/// body) and box `b`: along the axis of largest centre distance, which
/// is the axis of least overlap, pointing from `a` toward `b`. Ties
/// resolve in axis order `x`, `y`, `z`.
pub open spec fn contact_normal(a: V3, b: V3) -> Vec3 {
    let dx = b.x - a.x;
    let dy = b.y - a.y;
    let dz = b.z - a.z;
    if iabs(dx) >= iabs(dy) && iabs(dx) >= iabs(dz) {
        Vec3 { x: sign_unit(dx), y: 0, z: 0 }
    } else if iabs(dy) >= iabs(dz) {
        Vec3 { x: 0, y: sign_unit(dy), z: 0 }
    } else {
        Vec3 { x: 0, y: 0, z: sign_unit(dz) }
    }
}

/// The manifolds the queried body `h` has among the first `n` bodies:
/// one per other body that passes the group filter and overlaps, in
/// body order.
pub open spec fn contacts_prefix(bodies: Seq<Body>, h: int, n: int) -> Seq<ContactManifold>
    decreases n,
{
    if n <= 0 {
        Seq::empty()
    } else {
        let rest = contacts_prefix(bodies, h, n - 1);
        let i = n - 1;
        if i != h && bodies[h].groups.interacts_spec(bodies[i].groups) && in_contact(
            bodies[h].pos@,
            bodies[i].pos@,
        ) {
            rest.push(
                ContactManifold {
                    other: BodyHandle { idx: i as usize },
                    normal: contact_normal(bodies[h].pos@, bodies[i].pos@),
                },
            )
        } else {
            rest
        }
    }
}

/// All current manifolds of the body `handle`; empty for a handle that
/// names no body.
pub open spec fn spec_contacts(bodies: Seq<Body>, handle: BodyHandle) -> Seq<ContactManifold> {
    if handle.idx < bodies.len() {
        contacts_prefix(bodies, handle.idx as int, bodies.len() as int)
    } else {
        Seq::empty()
    }
}

/// There are never more manifolds than bodies.
pub proof fn lemma_contacts_prefix_len(bodies: Seq<Body>, h: int, n: int)
    ensures
        contacts_prefix(bodies, h, n).len() <= if n <= 0 {
            0int
        } else {
            n
        },
    decreases n,
{
    if n > 0 {
        lemma_contacts_prefix_len(bodies, h, n - 1);
    }
}

/// Every manifold's normal is a unit step: each coordinate lies within
/// `SCALE` of zero.
pub proof fn lemma_contacts_prefix_normals(bodies: Seq<Body>, h: int, n: int)
    ensures
        forall|j: int|
            0 <= j < contacts_prefix(bodies, h, n).len() ==> (#[trigger] contacts_prefix(
                bodies,
                h,
                n,
            )[j]).normal@.in_range(SCALE as int),
    decreases n,
{
    if n > 0 {
        lemma_contacts_prefix_normals(bodies, h, n - 1);
        let s = contacts_prefix(bodies, h, n);
        let rest = contacts_prefix(bodies, h, n - 1);
        assert forall|j: int| 0 <= j < s.len() implies (#[trigger] s[j]).normal@.in_range(
            SCALE as int,
        ) by {
            if j < rest.len() {
                assert(s[j].normal@.in_range(SCALE as int) || s[j] == rest[j]);
            }
        }
    }
}

/// The world behind a registration step: unchanged when the one-shot
/// flag is already set, else one agent body appended and the flag set.
pub open spec fn register_player_spec(w: WorldModel, pos: Vec3) -> WorldModel {
    if w.player_done {
        w
    } else {
        WorldModel {
            bodies: w.bodies.push(Body { pos, groups: w.playergroup }),
            player_done: true,
            ..w
        }
    }
}

/// The world behind the static registration step: unchanged when the
/// one-shot flag is already set, else one static body per position
/// appended in order and the flag set.
pub open spec fn register_statics_spec(w: WorldModel, positions: Seq<Vec3>) -> WorldModel {
    if w.static_done {
        w
    } else {
        WorldModel {
            bodies: w.bodies + positions.map_values(|p: Vec3| Body { pos: p, groups: w.staticgroup }),
            static_done: true,
            ..w
        }
    }
}

/// A position update leaves the world unchanged for an absent or
/// unknown handle, else moves exactly that body.
pub open spec fn set_position_spec(w: WorldModel, handle: Option<BodyHandle>, pos: Vec3) -> WorldModel {
    match handle {
        Option::None => w,
        Option::Some(h) => if h.idx < w.bodies.len() {
            WorldModel {
                bodies: w.bodies.update(
                    h.idx as int,
                    Body { pos, groups: w.bodies[h.idx as int].groups },
                ),
                ..w
            }
        } else {
            w
        },
    }
}

/// Appending a body raises the agent count exactly when the body is in
/// the agent group.
pub proof fn lemma_agent_count_push(bodies: Seq<Body>, playergroup: CollisionGroups, b: Body)
    ensures
        agent_count(bodies.push(b), playergroup) == agent_count(bodies, playergroup) + if b.groups
            == playergroup {
            1int
        } else {
            0int
        },
{
    assert(bodies.push(b).drop_last() =~= bodies);
    assert(bodies.push(b).last() == b);
}

/// The collision world and the two one-shot registration flags.
pub struct CollisionMeta {
    pub bodies: Vec<Body>,
    pub playergroup: CollisionGroups,
    pub staticgroup: CollisionGroups,
    pub player_done: bool,
    pub static_done: bool,
}

impl View for CollisionMeta {
    type V = WorldModel;

    open spec fn view(&self) -> WorldModel {
        WorldModel {
            bodies: self.bodies@,
            playergroup: self.playergroup,
            staticgroup: self.staticgroup,
            player_done: self.player_done,
            static_done: self.static_done,
        }
    }
}

impl Default for CollisionMeta {
    /// An empty world. The agent group is tested against everything it
    /// meets; static bodies are tested only against the agent group,
    /// never against each other.
    fn default() -> (r: Self)
        ensures
            r@.bodies.len() == 0,
            r@.playergroup == (CollisionGroups { membership: 2, whitelist: 0xffff_ffff }),
            r@.staticgroup == (CollisionGroups { membership: 4, whitelist: 2 }),
            !r@.player_done,
            !r@.static_done,
            r@.wf(),
    {
        Self {
            bodies: Vec::new(),
            playergroup: CollisionGroups { membership: 2, whitelist: 0xffff_ffff },
            staticgroup: CollisionGroups { membership: 4, whitelist: 2 },
            player_done: false,
            static_done: false,
        }
    }
}

impl CollisionMeta {
    /// Inserts the dynamic agent box. Keeping this to one call per
    /// session is the caller's duty; `setup_player` enforces it with
    /// the one-shot flag.
    pub fn add_player(&mut self, pos: Vec3) -> (handle: BodyHandle)
        ensures
            handle.idx == old(self)@.bodies.len(),
            final(self)@.bodies == old(self)@.bodies.push(
                Body { pos, groups: old(self)@.playergroup },
            ),
            final(self)@.playergroup == old(self)@.playergroup,
            final(self)@.staticgroup == old(self)@.staticgroup,
            final(self)@.player_done == old(self)@.player_done,
            final(self)@.static_done == old(self)@.static_done,
    {
        let handle = BodyHandle { idx: self.bodies.len() };
        let groups = self.playergroup;
        self.bodies.push(Body { pos, groups });
        handle
    }

    /// Inserts one immutable static obstacle box.
    pub fn add_static(&mut self, pos: Vec3) -> (handle: BodyHandle)
        ensures
            handle.idx == old(self)@.bodies.len(),
            final(self)@.bodies == old(self)@.bodies.push(
                Body { pos, groups: old(self)@.staticgroup },
            ),
            final(self)@.playergroup == old(self)@.playergroup,
            final(self)@.staticgroup == old(self)@.staticgroup,
            final(self)@.player_done == old(self)@.player_done,
            final(self)@.static_done == old(self)@.static_done,
    {
        let handle = BodyHandle { idx: self.bodies.len() };
        let groups = self.staticgroup;
        self.bodies.push(Body { pos, groups });
        handle
    }

    /// Moves one body. An absent or unknown handle is ignored, not an
    /// error.
    pub fn set_position(&mut self, handle: Option<BodyHandle>, pos: Vec3)
        ensures
            final(self)@ == set_position_spec(old(self)@, handle, pos),
    {
        match handle {
            Some(h) => {
                if h.idx < self.bodies.len() {
                    let groups = self.bodies[h.idx].groups;
                    self.bodies.set(h.idx, Body { pos, groups });
                }
                proof {
                    assert(self@ =~~= set_position_spec(old(self)@, handle, pos));
                }
            },
            None => {},
        }
    }

    /// All current contact manifolds of the given body, one per other
    /// body that passes the group filter and overlaps, in body order.
    /// Empty when nothing is in contact, or for an unknown handle.
    pub fn contacts_for(&self, handle: BodyHandle) -> (r: Vec<ContactManifold>)
        ensures
            r@ == spec_contacts(self@.bodies, handle),
    {
        let mut out: Vec<ContactManifold> = Vec::new();
        if handle.idx >= self.bodies.len() {
            return out;
        }
        let own = self.bodies[handle.idx];
        let mut i: usize = 0;
        while i < self.bodies.len()
            invariant
                handle.idx < self@.bodies.len(),
                i <= self@.bodies.len(),
                own == self@.bodies[handle.idx as int],
                out@ == contacts_prefix(self@.bodies, handle.idx as int, i as int),
            decreases self@.bodies.len() - i,
        {
            let b = self.bodies[i];
            if i != handle.idx && own.groups.interacts(b.groups) && in_contact_at(own.pos, b.pos) {
                out.push(
                    ContactManifold {
                        other: BodyHandle { idx: i },
                        normal: contact_normal_at(own.pos, b.pos),
                    },
                );
            }
            i = i + 1;
        }
        out
    }
}

/// Contact test on fixed-point positions, through 128-bit differences
/// so no coordinate range is excluded.
pub fn in_contact_at(a: Vec3, b: Vec3) -> (r: bool)
    ensures
        r == in_contact(a@, b@),
{
    let dx: i128 = (b.x as i128) - (a.x as i128);
    let dy: i128 = (b.y as i128) - (a.y as i128);
    let dz: i128 = (b.z as i128) - (a.z as i128);
    let span: i128 = CONTACT_SPAN as i128;
    abs128(dx) < span && abs128(dy) < span && abs128(dz) < span
}

/// The deepest contact's normal on fixed-point positions.
pub fn contact_normal_at(a: Vec3, b: Vec3) -> (r: Vec3)
    ensures
        r == contact_normal(a@, b@),
{
    let dx: i128 = (b.x as i128) - (a.x as i128);
    let dy: i128 = (b.y as i128) - (a.y as i128);
    let dz: i128 = (b.z as i128) - (a.z as i128);
    let ax = abs128(dx);
    let ay = abs128(dy);
    let az = abs128(dz);
    if ax >= ay && ax >= az {
        Vec3 { x: sign_unit_at(dx), y: 0, z: 0 }
    } else if ay >= az {
        Vec3 { x: 0, y: sign_unit_at(dy), z: 0 }
    } else {
        Vec3 { x: 0, y: 0, z: sign_unit_at(dz) }
    }
}

fn abs128(d: i128) -> (r: i128)
    requires
        d > i128::MIN,
    ensures
        r == iabs(d as int),
{
    if d < 0 {
        -d
    } else {
        d
    }
}

fn sign_unit_at(d: i128) -> (r: i64)
    ensures
        r == sign_unit(d as int),
{
    if d >= 0 {
        SCALE
    } else {
        -SCALE
    }
}

/// One-shot registration of the agent's collision body: the first call
/// inserts the body and records its handle on the entity; every later
/// call changes nothing.
pub fn setup_player(meta: &mut CollisionMeta, player: &mut PlayerEntity, pos: Vec3)
    ensures
        final(meta)@ == register_player_spec(old(meta)@, pos),
        old(meta).player_done ==> *final(player) == *old(player),
        !old(meta).player_done ==> final(player).handle == Some(
            BodyHandle { idx: old(meta)@.bodies.len() as usize },
        ),
        old(meta)@.wf() ==> final(meta)@.wf(),
{
    if meta.player_done {
        return ;
    }
    let handle = meta.add_player(pos);
    meta.player_done = true;
    player.handle = Some(handle);
    proof {
        assert(meta@ =~~= register_player_spec(old(meta)@, pos));
        if old(meta)@.wf() {
            lemma_agent_count_push(
                old(meta)@.bodies,
                old(meta)@.playergroup,
                Body { pos, groups: old(meta)@.playergroup },
            );
        }
    }
}

/// One-shot registration of every static obstacle: the first call
/// inserts one body per entity, at the matching position, and records
/// the handles; every later call changes nothing.
pub fn setup_static(meta: &mut CollisionMeta, statics: &mut Vec<StaticEntity>, positions: &Vec<Vec3>)
    requires
        old(statics)@.len() == positions@.len(),
    ensures
        final(meta)@ == register_statics_spec(old(meta)@, positions@),
        old(meta).static_done ==> *final(statics) == *old(statics),
        final(statics)@.len() == old(statics)@.len(),
        !old(meta).static_done ==> forall|j: int|
            0 <= j < positions@.len() ==> (#[trigger] final(statics)@[j]).handle == Some(
                BodyHandle { idx: (old(meta)@.bodies.len() + j) as usize },
            ),
        old(meta)@.wf() ==> final(meta)@.wf(),
{
    if meta.static_done {
        return ;
    }
    let ghost base = meta@.bodies.len() as int;
    let ghost statics0 = statics@;
    let mut i: usize = 0;
    while i < positions.len()
        invariant
            statics@.len() == positions@.len(),
            statics0.len() == positions@.len(),
            i <= positions@.len(),
            base == old(meta)@.bodies.len(),
            meta@.bodies =~= old(meta)@.bodies + positions@.take(i as int).map_values(
                |p: Vec3| Body { pos: p, groups: old(meta)@.staticgroup },
            ),
            meta@.playergroup == old(meta)@.playergroup,
            meta@.staticgroup == old(meta)@.staticgroup,
            meta@.player_done == old(meta)@.player_done,
            meta@.static_done == old(meta)@.static_done,
            forall|j: int|
                0 <= j < i ==> (#[trigger] statics@[j]).handle == Some(
                    BodyHandle { idx: (base + j) as usize },
                ),
            forall|j: int| i <= j < statics@.len() ==> #[trigger] statics@[j] == statics0[j],
            old(meta)@.wf() ==> agent_count(meta@.bodies, old(meta)@.playergroup) == agent_count(
                old(meta)@.bodies,
                old(meta)@.playergroup,
            ),
        decreases positions@.len() - i,
    {
        let handle = meta.add_static(positions[i]);
        let mut e = statics[i];
        e.handle = Some(handle);
        statics.set(i, e);
        proof {
            assert(positions@.take(i + 1).drop_last() =~= positions@.take(i as int));
            assert(meta@.bodies =~= old(meta)@.bodies + positions@.take(i + 1).map_values(
                |p: Vec3| Body { pos: p, groups: old(meta)@.staticgroup },
            ));
            if old(meta)@.wf() {
                lemma_agent_count_push(
                    old(meta)@.bodies + positions@.take(i as int).map_values(
                        |p: Vec3| Body { pos: p, groups: old(meta)@.staticgroup },
                    ),
                    old(meta)@.playergroup,
                    Body { pos: positions@[i as int], groups: old(meta)@.staticgroup },
                );
            }
        }
        i = i + 1;
    }
    meta.static_done = true;
    proof {
        assert(positions@.take(positions@.len() as int) =~= positions@);
        assert(meta@ =~~= register_statics_spec(old(meta)@, positions@));
    }
}

} // verus!
