//! Tests for the fixed-point arithmetic, the input-state dispatch and
//! the movement intent mapper.

use moveslide::entity::{CameraPos, PlayerPos};
use moveslide::fixed::{abs_fx, isqrt, mul_div};
use moveslide::gamepad::{GamepadEvent, GamepadState, gamepad_update};
use moveslide::intent::{gamepad_camera, gamepad_player};
use moveslide::vec::{Vec2, Vec3};

#[test]
fn mul_div_rounds_toward_zero() {
    assert_eq!(mul_div(7, 3, 2), 10);
    assert_eq!(mul_div(7, -3, 2), -10);
    assert_eq!(mul_div(-7, 3, 2), -10);
    assert_eq!(mul_div(-7, -3, 2), 10);
    assert_eq!(mul_div(1000, 1000, 1000), 1000);
    assert_eq!(mul_div(0, 123, 7), 0);
}

#[test]
fn isqrt_exact_values() {
    assert_eq!(isqrt(0), 0);
    assert_eq!(isqrt(1), 1);
    assert_eq!(isqrt(3), 1);
    assert_eq!(isqrt(4), 2);
    assert_eq!(isqrt(73_000_000), 8544);
    assert_eq!(isqrt(u64::MAX), 4_294_967_295);
}

#[test]
fn abs_fx_both_signs() {
    assert_eq!(abs_fx(-17), 17);
    assert_eq!(abs_fx(17), 17);
    assert_eq!(abs_fx(0), 0);
}

#[test]
fn unit_xz_exact() {
    let v = Vec3 { x: 3000, y: 999, z: 4000 };
    let u = v.unit_xz();
    assert_eq!(u, Vec3 { x: 600, y: 0, z: 800 });
    let zero = Vec3 { x: 0, y: 5, z: 0 };
    assert_eq!(zero.unit_xz(), Vec3 { x: 0, y: 0, z: 0 });
}

#[test]
fn cross_up_exact() {
    let v = Vec3 { x: 7, y: 9, z: -4 };
    assert_eq!(v.cross_up(), Vec3 { x: 4, y: 0, z: 7 });
}

#[test]
fn gamepad_events_last_write_wins() {
    let mut state = GamepadState::default();
    let events = vec![
        GamepadEvent::LeftStickX { value: 500 },
        GamepadEvent::LeftStickY { value: -200 },
        GamepadEvent::RightStickX { value: 111 },
        GamepadEvent::RightStickY { value: 222 },
        GamepadEvent::LeftStickX { value: -900 },
        GamepadEvent::Other,
    ];
    gamepad_update(&mut state, &events);
    assert_eq!(state.joy, Vec2 { x: -900, y: -200 });
    assert_eq!(state.cam, Vec2 { x: 111, y: 222 });
    assert!(!state.jump);
}

#[test]
fn jump_flag_follows_full_press() {
    let mut state = GamepadState::default();
    gamepad_update(&mut state, &vec![GamepadEvent::ButtonSouth { value: 1000 }]);
    assert!(state.jump);
    gamepad_update(&mut state, &vec![GamepadEvent::ButtonSouth { value: 500 }]);
    assert!(!state.jump);
    gamepad_update(&mut state, &vec![GamepadEvent::ButtonSouth { value: 1000 }]);
    gamepad_update(&mut state, &vec![GamepadEvent::ButtonSouth { value: 0 }]);
    assert!(!state.jump);
}

#[test]
fn gravity_baseline_on_idle_input() {
    // Zero analog magnitude, jump flag down: the vertical intent is the
    // constant descent, never zero.
    let camerapos = CameraPos::default();
    let mut playerpos = PlayerPos::default();
    let state = GamepadState::default();
    gamepad_player(&camerapos, &mut playerpos, &state);
    assert_eq!(playerpos.dpos, Vec3 { x: 0, y: -100, z: 0 });
}

#[test]
fn jump_overrides_vertical_intent() {
    let camerapos = CameraPos::default();
    let mut playerpos = PlayerPos::default();
    let mut state = GamepadState::default();
    state.jump = true;
    state.joy = Vec2 { x: 300, y: 700 };
    gamepad_player(&camerapos, &mut playerpos, &state);
    assert_eq!(playerpos.dpos.y, 1000);
}

#[test]
fn forward_intent_follows_camera_axis() {
    // Agent at the origin, camera at (-3, 5, 8), left stick fully
    // forward: the horizontal intent is the camera-to-agent vector
    // (3, -5, -8) with the vertical forced to the descent constant.
    let mut camerapos = CameraPos::default();
    camerapos.pos = Vec3 { x: -3000, y: 5000, z: 8000 };
    let mut playerpos = PlayerPos::default();
    playerpos.pos = Vec3 { x: 0, y: 0, z: 0 };
    let mut state = GamepadState::default();
    state.joy = Vec2 { x: 0, y: 1000 };
    gamepad_player(&camerapos, &mut playerpos, &state);
    assert_eq!(playerpos.dpos, Vec3 { x: 3000, y: -100, z: -8000 });
}

#[test]
fn facing_update_and_idempotence() {
    let camerapos = CameraPos::default();
    let mut playerpos = PlayerPos::default();
    let mut state = GamepadState::default();
    state.joy = Vec2 { x: 0, y: 1000 };
    gamepad_player(&camerapos, &mut playerpos, &state);
    let pos = playerpos.pos;
    let dpos = playerpos.dpos;
    let expected = Vec3 {
        x: pos.x - 2 * dpos.x,
        y: pos.y - 2 * dpos.y,
        z: pos.z - 2 * dpos.z,
    };
    assert_eq!(playerpos.facing, expected);
    // The mapper does not move the position, so the same input maps to
    // the same intent and the same facing target again.
    gamepad_player(&camerapos, &mut playerpos, &state);
    assert_eq!(playerpos.dpos, dpos);
    assert_eq!(playerpos.facing, expected);
}

#[test]
fn camera_intent_lateral() {
    // Camera straight behind the agent: the lateral axis is the world x
    // axis, and a right-stick deflection strafes along it.
    let state = GamepadState {
        cam: Vec2 { x: 500, y: 0 },
        joy: Vec2 { x: 0, y: 0 },
        jump: false,
    };
    let playerpos = PlayerPos {
        pos: Vec3 { x: 0, y: 0, z: 0 },
        dpos: Vec3 { x: 0, y: 0, z: 0 },
        facing: Vec3 { x: 1000, y: 0, z: 0 },
    };
    let mut camerapos = CameraPos::default();
    camerapos.pos = Vec3 { x: 0, y: 0, z: -4000 };
    gamepad_camera(&state, &playerpos, &mut camerapos);
    assert_eq!(camerapos.dpos, Vec3 { x: -500, y: 0, z: 0 });
    assert_eq!(camerapos.pos, Vec3 { x: 0, y: 0, z: -4000 });
}
