use aimbot::aim::{aim_with, AimMode, Mode};
use aimbot::detect::Bboxes;
use aimbot::geometry::{Bbox, Point2f};

fn policy() -> AimMode {
    AimMode::from_mode(Mode::Head)
}

fn body() -> Bbox {
    Bbox::new(0, 0, 100, 200, 900000, 0)
}

fn head() -> Bbox {
    Bbox::new(10, 20, 30, 60, 800000, 1)
}

fn both() -> Bboxes {
    let mut b = Bboxes::new();
    b.push(body(), 0);
    b.push(head(), 1);
    b
}

fn only_body() -> Bboxes {
    let mut b = Bboxes::new();
    b.push(body(), 0);
    b
}

fn only_head() -> Bboxes {
    let mut b = Bboxes::new();
    b.push(head(), 1);
    b
}

#[test]
fn upper_policy_prefers_secondary() {
    assert_eq!(policy().aim_head(&both()), Some((Point2f::new(25, 60), 30)));
    assert_eq!(policy().aim_head(&only_body()), Some((Point2f::new(50, 33), 50)));
}

#[test]
fn boundary_policy_uses_bottom_edge() {
    assert_eq!(policy().aim_neck(&both()), Some((Point2f::new(25, 80), 30)));
    assert_eq!(policy().aim_neck(&only_body()), Some((Point2f::new(50, 41), 50)));
}

#[test]
fn body_policies_prefer_primary() {
    assert_eq!(policy().aim_chest(&both()), Some((Point2f::new(50, 58), 58)));
    assert_eq!(policy().aim_abdomen(&both()), Some((Point2f::new(50, 85), 85)));
}

#[test]
fn body_policies_fall_back_to_secondary() {
    assert_eq!(policy().aim_chest(&only_head()), Some((Point2f::new(25, 72), 52)));
    assert_eq!(policy().aim_abdomen(&only_head()), Some((Point2f::new(25, 96), 76)));
}

#[test]
fn no_target_without_regions() {
    let empty = Bboxes::new();
    for m in [Mode::Head, Mode::Neck, Mode::Chest, Mode::Abdomen] {
        assert_eq!(aim_with(m, &empty), None);
    }
}

#[test]
fn switching_mode_takes_effect_on_next_aim() {
    let register = AimMode::from_mode(Mode::Chest);
    let shared = register.clone();
    let b = both();
    assert_eq!(register.aim(&b), policy().aim_chest(&b));
    shared.set_mode(Mode::Head);
    assert_eq!(register.aim(&b), policy().aim_head(&b));
    shared.set_mode(Mode::Neck);
    assert_eq!(register.mode(), Mode::Neck);
    assert_eq!(register.aim(&b), policy().aim_neck(&b));
    assert_eq!(register.name(), "Neck");
}

#[test]
fn stored_mode_values_wrap() {
    assert_eq!(Mode::from_u8(6), Mode::Chest);
    assert_eq!(Mode::from_u8(255), Mode::Abdomen);
    assert_eq!(AimMode::from_u8(5).mode(), Mode::Neck);
    for m in [Mode::Head, Mode::Neck, Mode::Chest, Mode::Abdomen] {
        assert_eq!(Mode::from_u8(m.to_u8()), m);
    }
    assert_eq!(Mode::Abdomen.name(), "Abdomen");
}
