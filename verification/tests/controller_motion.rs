use third_person_controller::controller::{
    apply_friction, controller_apply, controller_propose, controller_step, controller_system,
    get_axis, input_angle, ControllerEntity, FixedUpdateTimer, KeyState, ThirdPersonController,
};
use third_person_controller::angle::{HALF_PI_FX, QUARTER_PI_FX};
use third_person_controller::camera::{CameraEntity, ThirdPersonCamera};
use third_person_controller::pose::Pose;
use third_person_controller::vec3::{v3_dot, v3_speed, V3};

const DT: i64 = 20_000; // one fiftieth of a second, fixed point

fn forward_keys() -> KeyState {
    KeyState { forward: true, back: false, left: false, right: false, sprint: false }
}

#[test]
fn axes_cancel_when_opposed() {
    assert_eq!(get_axis(true, false), 1);
    assert_eq!(get_axis(false, true), -1);
    assert_eq!(get_axis(true, true), 0);
    assert_eq!(get_axis(false, false), 0);
}

#[test]
fn input_angles_cover_the_eight_directions() {
    assert_eq!(input_angle(1, 0), 0);
    assert_eq!(input_angle(1, 1), QUARTER_PI_FX);
    assert_eq!(input_angle(0, 1), HALF_PI_FX);
    assert_eq!(input_angle(-1, -1), -3 * QUARTER_PI_FX);
    assert_eq!(input_angle(0, -1), -HALF_PI_FX);
}

#[test]
fn friction_scales_velocity_exactly() {
    // speed one unit, half of it dropped this tick
    let v = V3 { x: 0, y: 0, z: 1_000_000 };
    let after = apply_friction(&v, 500_000);
    assert_eq!(after, V3 { x: 0, y: 0, z: 500_000 });
    // a drop past the whole speed stops dead, never undershoots
    let stopped = apply_friction(&v, 2_000_000);
    assert_eq!(stopped, V3 { x: 0, y: 0, z: 0 });
}

#[test]
fn friction_only_decay_is_monotone_and_reaches_exact_rest() {
    let c = ThirdPersonController {
        friction: 1_000_000, // one per second: gentle decay
        velocity: V3 { x: 3_000_000, y: 4_000_000, z: 0 },
        ..Default::default()
    };
    let keys = KeyState::released();
    let cams = vec![camera_for(0)];
    let mut entities = vec![ControllerEntity { controller: c, pose: Pose::identity() }];
    let mut prev_speed = v3_speed(&c.velocity);
    let mut rest_tick = None;
    for tick in 0..2_000 {
        controller_system(&mut entities, &cams, &keys, DT);
        let speed = v3_speed(&entities[0].controller.velocity);
        assert!(speed <= prev_speed, "speed rose at tick {tick}");
        prev_speed = speed;
        if speed == 0 && rest_tick.is_none() {
            rest_tick = Some(tick);
        }
    }
    assert_eq!(entities[0].controller.velocity, V3 { x: 0, y: 0, z: 0 });
    assert!(rest_tick.is_some(), "velocity never reached exact rest");
}

#[test]
fn acceleration_projection_never_passes_max_speed() {
    let mut c = ThirdPersonController {
        movement_speed: 100_000_000, // far more thrust than the cap allows
        max_speed: 1_000_000,        // one unit per tick along the facing
        friction: 0,
        ..Default::default()
    };
    let mut pose = Pose::identity();
    let keys = forward_keys();
    let facing = V3 { x: 0, y: 0, z: 1_000_000 };
    for _ in 0..10 {
        controller_step(&mut c, &mut pose, &keys, 0, DT);
        assert!(v3_dot(&c.velocity, &facing) <= c.max_speed);
    }
    // the cap is reached exactly and held
    assert_eq!(c.velocity, V3 { x: 0, y: 0, z: 1_000_000 });
}

#[test]
fn rest_round_trip_leaves_position_unchanged() {
    let mut c = ThirdPersonController::default();
    let start = V3 { x: 7_000_000, y: 0, z: -2_000_000 };
    let mut pose = Pose { position: start, yaw: 1_234_567, pitch: 0 };
    let keys = KeyState::released();
    for _ in 0..100 {
        controller_step(&mut c, &mut pose, &keys, HALF_PI_FX, DT);
    }
    assert_eq!(pose.position, start);
    assert_eq!(pose.yaw, 1_234_567);
    assert_eq!(c.velocity, V3 { x: 0, y: 0, z: 0 });
}

#[test]
fn forward_hold_settles_at_walk_speed() {
    // stock tuning, camera yaw zero, forward held for fifty ticks
    let mut c = ThirdPersonController::default();
    let mut pose = Pose::identity();
    let keys = forward_keys();
    let mut prev = V3 { x: 0, y: 0, z: 0 };
    for _ in 0..50 {
        prev = c.velocity;
        controller_step(&mut c, &mut pose, &keys, 0, DT);
    }
    // steady state: friction wipes the carried speed, thrust restores
    // movement_speed * dt of it, so each tick covers 0.4 units along +z
    assert_eq!(c.velocity, V3 { x: 0, y: 0, z: 400_000 });
    // per second that is the walk speed exactly, and within one percent of
    // the previous tick's value: the simulation has settled
    assert_eq!(c.velocity.z * 50, c.movement_speed);
    let settled = (c.velocity.z - prev.z).abs();
    assert!(settled * 100 <= v3_speed(&c.velocity), "not settled: {settled}");
    assert!(v3_speed(&c.velocity) <= c.max_speed);
    // fifty ticks of 0.4 units put the entity twenty units forward
    assert_eq!(pose.position, V3 { x: 0, y: 0, z: 20_000_000 });
}

#[test]
fn reported_impact_halves_the_tick() {
    let mut c = ThirdPersonController::default();
    let mut pose = Pose::identity();
    let proposed = V3 { x: 0, y: 0, z: 10_000_000 };
    controller_apply(&mut c, &mut pose, 0, &proposed, Some(500_000));
    assert_eq!(pose.position, V3 { x: 0, y: 0, z: 5_000_000 });
    assert_eq!(c.velocity, V3 { x: 0, y: 0, z: 5_000_000 });
}

#[test]
fn impact_times_are_clamped_into_the_unit_range() {
    let mut c = ThirdPersonController::default();
    let mut pose = Pose::identity();
    let proposed = V3 { x: 0, y: 0, z: 10_000_000 };
    controller_apply(&mut c, &mut pose, 0, &proposed, Some(3_000_000));
    assert_eq!(pose.position, V3 { x: 0, y: 0, z: 10_000_000 });
    let mut pose2 = Pose::identity();
    controller_apply(&mut c, &mut pose2, 0, &proposed, Some(-500_000));
    assert_eq!(pose2.position, V3 { x: 0, y: 0, z: 0 });
}

#[test]
fn partial_turn_covers_the_configured_fraction() {
    let c = ThirdPersonController {
        rotation_speed: 25_000_000, // times dt: half the arc per tick
        ..Default::default()
    };
    let pose = Pose::identity();
    let keys = forward_keys();
    // forward input with the camera at a quarter turn targets that yaw
    let (yaw, _) = controller_propose(&c, &pose, &keys, HALF_PI_FX, DT);
    assert_eq!(yaw, HALF_PI_FX / 2);
}

#[test]
fn controller_without_camera_is_skipped() {
    let c = ThirdPersonController { id: 7, ..Default::default() };
    let pose = Pose { position: V3 { x: 1, y: 2, z: 3 }, yaw: 42, pitch: 0 };
    let mut entities = vec![ControllerEntity { controller: c, pose }];
    let cams = vec![camera_for(99)]; // bound to some other controller
    controller_system(&mut entities, &cams, &forward_keys(), DT);
    assert_eq!(entities[0].controller, c);
    assert_eq!(entities[0].pose, pose);
}

#[test]
fn controller_with_camera_moves() {
    let c = ThirdPersonController { id: 7, ..Default::default() };
    let pose = Pose::identity();
    let mut entities = vec![ControllerEntity { controller: c, pose }];
    let cams = vec![camera_for(7)];
    controller_system(&mut entities, &cams, &forward_keys(), DT);
    assert_eq!(entities[0].controller.velocity, V3 { x: 0, y: 0, z: 400_000 });
    assert_eq!(entities[0].pose.position, V3 { x: 0, y: 0, z: 400_000 });
}

#[test]
fn fixed_timer_banks_remainders() {
    let mut t = FixedUpdateTimer::default();
    assert_eq!(t.step, 20_000);
    assert_eq!(t.advance(50_000), 2);
    assert_eq!(t.acc, 10_000);
    assert_eq!(t.advance(10_000), 1);
    assert_eq!(t.acc, 0);
    assert_eq!(t.advance(5_000), 0);
    assert_eq!(t.acc, 5_000);
}

fn camera_for(target: u64) -> CameraEntity {
    CameraEntity {
        rig: ThirdPersonCamera { target_id: target, ..Default::default() },
        pose: Pose::identity(),
    }
}
