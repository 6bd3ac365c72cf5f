use third_person_controller::camera::{
    accumulate_delta, camera_place, camera_system, camera_update, find_target, CameraEntity,
    MouseDelta, ThirdPersonCamera, PITCH_MAX_FX, PITCH_MIN_FX,
};
use third_person_controller::angle::{HALF_PI_FX, TAU_FX};
use third_person_controller::controller::{ControllerEntity, ThirdPersonController};
use third_person_controller::pose::Pose;
use third_person_controller::vec3::V3;

fn controller_at(id: u64, position: V3) -> ControllerEntity {
    ControllerEntity {
        controller: ThirdPersonController { id, ..Default::default() },
        pose: Pose { position, yaw: 0, pitch: 0 },
    }
}

fn rig_entity(rig: ThirdPersonCamera) -> CameraEntity {
    CameraEntity { rig, pose: Pose::identity() }
}

#[test]
fn pointer_events_sum_order_free() {
    let a = vec![
        MouseDelta { dx: 10, dy: -3 },
        MouseDelta { dx: -4, dy: 8 },
        MouseDelta { dx: 1, dy: 0 },
    ];
    let b = vec![
        MouseDelta { dx: 1, dy: 0 },
        MouseDelta { dx: 10, dy: -3 },
        MouseDelta { dx: -4, dy: 8 },
    ];
    assert_eq!(accumulate_delta(&a), (7, 5));
    assert_eq!(accumulate_delta(&a), accumulate_delta(&b));
    assert_eq!(accumulate_delta(&Vec::new()), (0, 0));
}

#[test]
fn pointer_delta_turns_yaw_exactly() {
    // a delta of a hundred pointer units at the stock thousandth-radian
    // sensitivity turns the yaw down by exactly a tenth of a radian
    let mut cam = rig_entity(ThirdPersonCamera {
        yaw: 1_000_000,
        ..Default::default()
    });
    let targets = Vec::new();
    camera_update(&mut cam, 100_000_000, 0, &targets);
    assert_eq!(cam.rig.yaw, 900_000);
    assert_eq!(cam.rig.pitch, 0);
}

#[test]
fn yaw_always_lands_in_one_turn() {
    // a sensitivity of one radian per pointer unit and a huge swipe: the
    // yaw still comes out inside [0, tau)
    let mut cam = rig_entity(ThirdPersonCamera {
        sensitivity: 1_000_000,
        ..Default::default()
    });
    let targets = Vec::new();
    camera_update(&mut cam, -100_000_000, 0, &targets);
    assert_eq!(cam.rig.yaw, 100_000_000i64 - 15 * TAU_FX);
    camera_update(&mut cam, 100_000_000 + TAU_FX, 0, &targets);
    assert!(0 <= cam.rig.yaw && cam.rig.yaw < TAU_FX);
}

#[test]
fn extreme_pitch_deltas_never_pass_the_poles() {
    let mut cam = rig_entity(ThirdPersonCamera::default());
    let targets = Vec::new();
    for _ in 0..8 {
        camera_update(&mut cam, 0, i64::MAX / 2, &targets);
        assert!(PITCH_MIN_FX <= cam.rig.pitch && cam.rig.pitch <= PITCH_MAX_FX);
    }
    assert_eq!(cam.rig.pitch, PITCH_MIN_FX);
    for _ in 0..8 {
        camera_update(&mut cam, 0, -(i64::MAX / 2), &targets);
        assert!(PITCH_MIN_FX <= cam.rig.pitch && cam.rig.pitch <= PITCH_MAX_FX);
    }
    assert_eq!(cam.rig.pitch, PITCH_MAX_FX);
}

#[test]
fn placement_sits_behind_the_ground_point() {
    // level rig at zero yaw: eight units along +z from under the target
    let rig = ThirdPersonCamera::default();
    let pos = camera_place(&rig, &V3 { x: 1_000_000, y: 5_000_000, z: 2_000_000 });
    assert_eq!(pos, V3 { x: 1_000_000, y: 0, z: 10_000_000 });
}

#[test]
fn placement_follows_yaw_and_offsets() {
    // a quarter turn of yaw swings the orbit onto the x axis
    let rig = ThirdPersonCamera { yaw: HALF_PI_FX, ..Default::default() };
    let pos = camera_place(&rig, &V3 { x: 0, y: 0, z: 0 });
    assert_eq!(pos, V3 { x: 8_000_000, y: 0, z: 0 });
    // a world-space position offset moves the result as it stands
    let rig = ThirdPersonCamera {
        position_offset: V3 { x: 0, y: 1_500_000, z: 0 },
        ..Default::default()
    };
    let pos = camera_place(&rig, &V3 { x: 0, y: 0, z: 0 });
    assert_eq!(pos, V3 { x: 0, y: 1_500_000, z: 8_000_000 });
    // the look-point offset moves the pivot but is never rotated
    let rig = ThirdPersonCamera {
        yaw: HALF_PI_FX,
        target_offset: V3 { x: 0, y: 2_000_000, z: 0 },
        ..Default::default()
    };
    let pos = camera_place(&rig, &V3 { x: 0, y: 0, z: 0 });
    assert_eq!(pos, V3 { x: 8_000_000, y: 2_000_000, z: 0 });
}

#[test]
fn lookup_returns_the_first_match_only() {
    let targets = vec![
        controller_at(5, V3 { x: 1, y: 0, z: 0 }),
        controller_at(7, V3 { x: 2, y: 0, z: 0 }),
        controller_at(7, V3 { x: 3, y: 0, z: 0 }),
    ];
    assert_eq!(find_target(&targets, 7), Some(V3 { x: 2, y: 0, z: 0 }));
    assert_eq!(find_target(&targets, 9), None);
}

#[test]
fn unmatched_rig_keeps_its_transform() {
    let start = Pose { position: V3 { x: 4, y: 5, z: 6 }, yaw: 99, pitch: 7 };
    let mut cams = vec![CameraEntity {
        rig: ThirdPersonCamera { target_id: 42, ..Default::default() },
        pose: start,
    }];
    let targets = vec![controller_at(7, V3 { x: 0, y: 0, z: 0 })];
    let deltas = vec![MouseDelta { dx: 50, dy: -20 }];
    camera_system(true, &deltas, &mut cams, &targets);
    assert_eq!(cams[0].pose, start);
}

#[test]
fn matched_rig_orbits_its_target() {
    let mut cams = vec![rig_entity(ThirdPersonCamera {
        target_id: 7,
        ..Default::default()
    })];
    let targets = vec![controller_at(7, V3 { x: 0, y: 3_000_000, z: 0 })];
    camera_system(true, &Vec::new(), &mut cams, &targets);
    assert_eq!(cams[0].pose.position, V3 { x: 0, y: 0, z: 8_000_000 });
    assert_eq!(cams[0].pose.yaw, 0);
    assert_eq!(cams[0].pose.pitch, 0);
}

#[test]
fn unfocused_window_freezes_everything() {
    let mut cams = vec![rig_entity(ThirdPersonCamera {
        target_id: 7,
        yaw: 123,
        ..Default::default()
    })];
    let before = cams[0];
    let targets = vec![controller_at(7, V3 { x: 0, y: 0, z: 0 })];
    let deltas = vec![MouseDelta { dx: 1_000_000, dy: 1_000_000 }];
    camera_system(false, &deltas, &mut cams, &targets);
    assert_eq!(cams[0], before);
}
