//! Tests for the collision world, the one-shot setup and the movement
//! resolver.

use moveslide::entity::{CameraPos, PlayerEntity, PlayerPos, StaticEntity};
use moveslide::resolve::{camerapos_velocity, playerpos_velocity};
use moveslide::vec::Vec3;
use moveslide::world::{
    BodyHandle, CollisionMeta, setup_player, setup_static,
};

fn world_with_statics(positions: &[Vec3]) -> (CollisionMeta, Vec<StaticEntity>) {
    let mut meta = CollisionMeta::default();
    let mut statics = vec![StaticEntity::default(); positions.len()];
    let positions: Vec<Vec3> = positions.to_vec();
    setup_static(&mut meta, &mut statics, &positions);
    (meta, statics)
}

#[test]
fn default_world_is_empty() {
    let meta = CollisionMeta::default();
    assert_eq!(meta.bodies.len(), 0);
    assert!(!meta.player_done);
    assert!(!meta.static_done);
    let player = PlayerEntity::default();
    assert!(player.handle.is_none());
    let playerpos = PlayerPos::default();
    assert_eq!(playerpos.pos, Vec3 { x: 0, y: 1000, z: 0 });
    assert_eq!(playerpos.facing, Vec3 { x: 1000, y: 0, z: 0 });
    let camerapos = CameraPos::default();
    assert_eq!(camerapos.pos, Vec3 { x: -3000, y: 5000, z: 8000 });
}

#[test]
fn register_player_is_one_shot() {
    let mut meta = CollisionMeta::default();
    let mut player = PlayerEntity::default();
    setup_player(&mut meta, &mut player, Vec3 { x: 0, y: 1000, z: 0 });
    assert_eq!(meta.bodies.len(), 1);
    let first = player.handle;
    assert_eq!(first, Some(BodyHandle { idx: 0 }));
    // A second registration, even at another position, creates no
    // second dynamic body and moves nothing.
    setup_player(&mut meta, &mut player, Vec3 { x: 9000, y: 9000, z: 9000 });
    assert_eq!(meta.bodies.len(), 1);
    assert_eq!(player.handle, first);
    assert_eq!(meta.bodies[0].pos, Vec3 { x: 0, y: 1000, z: 0 });
}

#[test]
fn register_statics_is_one_shot() {
    let (mut meta, statics) = world_with_statics(&[
        Vec3 { x: 3000, y: 1000, z: 5000 },
        Vec3 { x: 4000, y: 1000, z: 5000 },
    ]);
    assert_eq!(meta.bodies.len(), 2);
    assert_eq!(statics[0].handle, Some(BodyHandle { idx: 0 }));
    assert_eq!(statics[1].handle, Some(BodyHandle { idx: 1 }));
    let mut statics2 = vec![StaticEntity::default()];
    let positions2 = vec![Vec3 { x: 0, y: 0, z: 0 }];
    setup_static(&mut meta, &mut statics2, &positions2);
    assert_eq!(meta.bodies.len(), 2);
    assert!(statics2[0].handle.is_none());
}

#[test]
fn contact_detected_within_margin_only() {
    let (meta, _) = world_with_statics(&[
        Vec3 { x: 2019, y: 0, z: 0 },
        Vec3 { x: -5000, y: 0, z: 0 },
    ]);
    let mut meta = meta;
    let mut player = PlayerEntity::default();
    setup_player(&mut meta, &mut player, Vec3 { x: 0, y: 0, z: 0 });
    let handle = player.handle.unwrap();
    // Gap of 19 thousandths within the margin: contact.
    let contacts = meta.contacts_for(handle);
    assert_eq!(contacts.len(), 1);
    assert_eq!(contacts[0].other, BodyHandle { idx: 0 });
    // One step further: the boxes are out of contact.
    meta.set_position(Some(handle), Vec3 { x: -1, y: 0, z: 0 });
    assert_eq!(meta.contacts_for(handle).len(), 0);
}

#[test]
fn statics_are_not_tested_against_each_other() {
    let (mut meta, statics) = world_with_statics(&[
        Vec3 { x: 0, y: 0, z: 0 },
        Vec3 { x: 1000, y: 0, z: 0 },
    ]);
    let s0 = statics[0].handle.unwrap();
    assert_eq!(meta.contacts_for(s0).len(), 0);
    // The agent next to the same obstacle is tested.
    let mut player = PlayerEntity::default();
    setup_player(&mut meta, &mut player, Vec3 { x: 0, y: 1500, z: 0 });
    let contacts = meta.contacts_for(player.handle.unwrap());
    assert_eq!(contacts.len(), 2);
}

#[test]
fn set_position_ignores_absent_handles() {
    let mut meta = CollisionMeta::default();
    let mut player = PlayerEntity::default();
    setup_player(&mut meta, &mut player, Vec3 { x: 0, y: 0, z: 0 });
    meta.set_position(None, Vec3 { x: 7, y: 7, z: 7 });
    assert_eq!(meta.bodies[0].pos, Vec3 { x: 0, y: 0, z: 0 });
    meta.set_position(Some(BodyHandle { idx: 55 }), Vec3 { x: 7, y: 7, z: 7 });
    assert_eq!(meta.bodies[0].pos, Vec3 { x: 0, y: 0, z: 0 });
    meta.set_position(player.handle, Vec3 { x: 7, y: 7, z: 7 });
    assert_eq!(meta.bodies[0].pos, Vec3 { x: 7, y: 7, z: 7 });
}

#[test]
fn resolver_skips_while_unregistered() {
    let mut meta = CollisionMeta::default();
    let mut playerpos = PlayerPos::default();
    playerpos.dpos = Vec3 { x: 1000, y: 0, z: 0 };
    let player = PlayerEntity::default();
    playerpos_velocity(&mut meta, &mut playerpos, &player, 1000);
    assert_eq!(playerpos.pos, Vec3 { x: 0, y: 1000, z: 0 });
    assert_eq!(meta.bodies.len(), 0);
}

#[test]
fn free_motion_without_contacts() {
    // With zero contacts the resolved displacement is exactly the
    // intent times the frame delta time.
    let mut meta = CollisionMeta::default();
    let mut player = PlayerEntity::default();
    setup_player(&mut meta, &mut player, Vec3 { x: 0, y: 0, z: 0 });
    let mut playerpos = PlayerPos::default();
    playerpos.pos = Vec3 { x: 0, y: 0, z: 0 };
    playerpos.dpos = Vec3 { x: 3000, y: -100, z: -8000 };
    playerpos_velocity(&mut meta, &mut playerpos, &player, 100);
    assert_eq!(playerpos.pos, Vec3 { x: 300, y: -10, z: -800 });
    // The new position is committed back into the collision world.
    assert_eq!(meta.bodies[0].pos, Vec3 { x: 300, y: -10, z: -800 });
}

#[test]
fn agent_halts_at_obstacle_boundary() {
    // Agent at (0, 1, 0), obstacle centred at (1, 1, 0), intent one
    // unit along x with a full-second frame: the contact normal points
    // along x toward the obstacle, the reaction equals the intended
    // displacement there, and the agent stays at the boundary.
    let (mut meta, _) = world_with_statics(&[Vec3 { x: 1000, y: 1000, z: 0 }]);
    let mut player = PlayerEntity::default();
    setup_player(&mut meta, &mut player, Vec3 { x: 0, y: 1000, z: 0 });
    let handle = player.handle.unwrap();
    let contacts = meta.contacts_for(handle);
    assert_eq!(contacts.len(), 1);
    assert_eq!(contacts[0].normal, Vec3 { x: 1000, y: 0, z: 0 });
    let mut playerpos = PlayerPos::default();
    playerpos.pos = Vec3 { x: 0, y: 1000, z: 0 };
    playerpos.dpos = Vec3 { x: 1000, y: 0, z: 0 };
    playerpos_velocity(&mut meta, &mut playerpos, &player, 1000);
    assert_eq!(playerpos.pos, Vec3 { x: 0, y: 1000, z: 0 });
}

#[test]
fn cancellation_leaves_other_axes_alone() {
    // A normal purely along x cancels x exactly; motion along z passes.
    let (mut meta, _) = world_with_statics(&[Vec3 { x: 1000, y: 0, z: 0 }]);
    let mut player = PlayerEntity::default();
    setup_player(&mut meta, &mut player, Vec3 { x: 0, y: 0, z: 0 });
    let mut playerpos = PlayerPos::default();
    playerpos.pos = Vec3 { x: 0, y: 0, z: 0 };
    playerpos.dpos = Vec3 { x: 1000, y: 0, z: 500 };
    playerpos_velocity(&mut meta, &mut playerpos, &player, 1000);
    assert_eq!(playerpos.pos, Vec3 { x: 0, y: 0, z: 500 });
}

#[test]
fn overlapping_normals_over_cancel() {
    // Two obstacles on the same side add their reactions: the known
    // over-cancellation of the heuristic, kept as the engine defines it.
    let (mut meta, _) = world_with_statics(&[
        Vec3 { x: 1500, y: 0, z: 0 },
        Vec3 { x: 1800, y: 0, z: 0 },
    ]);
    let mut player = PlayerEntity::default();
    setup_player(&mut meta, &mut player, Vec3 { x: 0, y: 0, z: 0 });
    let mut playerpos = PlayerPos::default();
    playerpos.pos = Vec3 { x: 0, y: 0, z: 0 };
    playerpos.dpos = Vec3 { x: 1000, y: 0, z: 0 };
    playerpos_velocity(&mut meta, &mut playerpos, &player, 1000);
    assert_eq!(playerpos.pos, Vec3 { x: -1000, y: 0, z: 0 });
}

#[test]
fn contacts_lag_one_frame() {
    // Contacts reflect the previous frame's committed position: the
    // first frame sees no contact and moves into overlap; the second
    // frame's stale query then cancels the motion.
    let (mut meta, _) = world_with_statics(&[Vec3 { x: 2500, y: 0, z: 0 }]);
    let mut player = PlayerEntity::default();
    setup_player(&mut meta, &mut player, Vec3 { x: 0, y: 0, z: 0 });
    let mut playerpos = PlayerPos::default();
    playerpos.pos = Vec3 { x: 0, y: 0, z: 0 };
    playerpos.dpos = Vec3 { x: 1000, y: 0, z: 0 };
    playerpos_velocity(&mut meta, &mut playerpos, &player, 1000);
    assert_eq!(playerpos.pos, Vec3 { x: 1000, y: 0, z: 0 });
    playerpos_velocity(&mut meta, &mut playerpos, &player, 1000);
    assert_eq!(playerpos.pos, Vec3 { x: 1000, y: 0, z: 0 });
}

#[test]
fn deepest_axis_picks_least_overlap() {
    // The normal lies on the axis with the largest centre distance,
    // signed from the agent toward the obstacle.
    let (mut meta, _) = world_with_statics(&[Vec3 { x: 500, y: -1800, z: 300 }]);
    let mut player = PlayerEntity::default();
    setup_player(&mut meta, &mut player, Vec3 { x: 0, y: 0, z: 0 });
    let contacts = meta.contacts_for(player.handle.unwrap());
    assert_eq!(contacts.len(), 1);
    assert_eq!(contacts[0].normal, Vec3 { x: 0, y: -1000, z: 0 });
}

#[test]
fn camera_integrates_intent() {
    let mut camerapos = CameraPos::default();
    camerapos.pos = Vec3 { x: 0, y: 0, z: -4000 };
    camerapos.dpos = Vec3 { x: -500, y: 0, z: 0 };
    camerapos_velocity(&mut camerapos, 500);
    assert_eq!(camerapos.pos, Vec3 { x: -250, y: 0, z: -4000 });
    assert_eq!(camerapos.dpos, Vec3 { x: -500, y: 0, z: 0 });
}
