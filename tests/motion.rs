use aimbot::command::{command_line, BatchCommands, Command};
use aimbot::geometry::{Point2f, Ratio};
use aimbot::motion::{aim_delta, MotionProfile, Trajectory};

#[test]
fn zero_move_takes_lowest_bucket() {
    let p = MotionProfile::standard();
    assert_eq!(p.step_range(0, 0), (2, 15));
    let mut rng = rand::rng();
    let t = p.plan(0, 0, &mut rng);
    assert!(t.steps >= 2 && t.steps <= 15);
}

#[test]
fn representative_distances_fall_in_their_buckets() {
    let p = MotionProfile::standard();
    let expected = [(10, (2, 15)), (100, (10, 60)), (300, (40, 150)), (800, (100, 300)), (1500, (200, 600))];
    let mut prev = (0, 0);
    let mut rng = rand::rng();
    for (d, range) in expected {
        let r = p.step_range(d, 0);
        assert_eq!(r, range);
        assert!(r.0 >= prev.0 && r.1 >= prev.1);
        prev = r;
        for _ in 0..50 {
            let t = p.plan(d, 0, &mut rng);
            assert!(t.steps >= range.0 && t.steps <= range.1);
            assert!(t.control_x >= 4 && t.control_x <= 16);
            assert!(t.control_y >= 4 && t.control_y <= 16);
            assert_eq!((t.dx, t.dy), (d, 0));
        }
    }
}

#[test]
fn bucket_edges() {
    let p = MotionProfile::standard();
    assert_eq!(p.step_range(30, 40), (10, 60));
    assert_eq!(p.step_range(30, 39), (2, 15));
    assert_eq!(p.step_range(-2147483648, -2147483648), (200, 600));
}

#[test]
fn dead_zone_suppresses_small_moves() {
    let reference = Point2f::new(100, 100);
    assert_eq!(aim_delta(Point2f::new(110, 100), reference, 20, Ratio::new(1, 1)), None);
    assert_eq!(aim_delta(Point2f::new(120, 100), reference, 20, Ratio::new(1, 1)), None);
    assert_eq!(aim_delta(Point2f::new(121, 100), reference, 20, Ratio::new(1, 1)), Some((21, 0)));
    assert_eq!(aim_delta(Point2f::new(100, 100), reference, 0, Ratio::new(1, 1)), None);
    assert_eq!(aim_delta(Point2f::new(90, 80), reference, 20, Ratio::new(1, 2)), Some((-10, -20)));
}

#[test]
fn single_command_text() {
    assert_eq!(command_line(&Command::Move { dx: -5, dy: 12 }), "km.move(-5,12)\r\n");
    assert_eq!(command_line(&Command::LockY(true)), "km.lock_my(1)\r\n");
    assert_eq!(command_line(&Command::ClickRight), "km.right(1)\r\nkm.right(0)\r\n");
    let t = Trajectory { dx: 7, dy: -300, steps: 25, control_x: 4, control_y: 16 };
    assert_eq!(command_line(&Command::Curve(t)), "km.move(7,-300,25,4,16)\r\n");
    assert_eq!(
        command_line(&Command::Move { dx: i32::MIN, dy: 0 }),
        "km.move(-2147483648,0)\r\n"
    );
}

#[test]
fn batch_is_one_payload_in_append_order() {
    let b = BatchCommands::new()
        .lock_mx()
        .move_shift(-5, 12)
        .unlock_mx()
        .lock_my()
        .unlock_my()
        .click_left()
        .click_right();
    assert_eq!(b.commands.len(), 7);
    assert_eq!(
        b.payload(),
        "km.lock_mx(1)\r\nkm.move(-5,12)\r\nkm.lock_mx(0)\r\nkm.lock_my(1)\r\nkm.lock_my(0)\r\nkm.left(1)\r\nkm.left(0)\r\nkm.right(1)\r\nkm.right(0)\r\n\r\n"
    );
}

#[test]
fn batch_with_curved_move() {
    let p = MotionProfile::standard();
    let mut rng = rand::rng();
    let b = BatchCommands::new().lock_mx().move_bezier(&p, 100, 0, &mut rng).unlock_mx();
    let payload = b.payload();
    assert!(payload.starts_with("km.lock_mx(1)\r\nkm.move(100,0,"));
    assert!(payload.ends_with(")\r\nkm.lock_mx(0)\r\n\r\n"));
    match b.commands[1] {
        Command::Curve(t) => assert!(t.steps >= 10 && t.steps <= 60),
        _ => panic!("expected a curved move"),
    }
}

#[test]
fn empty_batch_is_only_the_closing_line() {
    assert_eq!(BatchCommands::new().payload(), "\r\n");
}

#[test]
fn batch_ends_with_empty_line() {
    let b = BatchCommands::new().lock_mx().move_shift(3, -2).unlock_mx();
    assert_eq!(b.payload(), "km.lock_mx(1)\r\nkm.move(3,-2)\r\nkm.lock_mx(0)\r\n\r\n");
}

#[test]
fn standard_profile_tuning() {
    let p = MotionProfile::standard();
    assert_eq!((p.control_min, p.control_max), (4, 16));
    assert_eq!(p.buckets[4].limit, u32::MAX);
}
