//! Targeting policies and the shared targeting-mode register.
use crate::detect::Bboxes;
use crate::geometry::{Bbox, Point2f, Ratio, max_int};
use std::sync::atomic::{AtomicU8, Ordering};
use std::sync::Arc;
use vstd::prelude::*;

verus! {

/// Number of targeting modes; stored values are reduced modulo this.
pub const AIM_MODE_LENGTH: u8 = 4;

/// Height of the upper target region within the whole body.
pub const SCALE_HEAD_Y_NUM: u32 = 1;

pub const SCALE_HEAD_Y_DEN: u32 = 3;

pub const SCALE_NECK_Y_NUM: u32 = 5;

pub const SCALE_NECK_Y_DEN: u32 = 12;

pub const SCALE_CHEST_Y_NUM: u32 = 7;

pub const SCALE_CHEST_Y_DEN: u32 = 12;

pub const SCALE_ABDOMEN_Y_NUM: u32 = 17;

pub const SCALE_ABDOMEN_Y_DEN: u32 = 20;

/// The targeting policy.
#[derive(Clone, Copy, Debug, PartialEq, Eq, Structural)]
pub enum Mode {
    Head,
    Neck,
    Chest,
    Abdomen,
}

pub open spec fn mode_index(m: Mode) -> int {
    match m {
        Mode::Head => 0,
        Mode::Neck => 1,
        Mode::Chest => 2,
        Mode::Abdomen => 3,
    }
}

/// The mode stored as `v`: values wrap around the four modes.
pub open spec fn mode_of(v: int) -> Mode {
    let r = v % 4;
    if r == 0 {
        Mode::Head
    } else if r == 1 {
        Mode::Neck
    } else if r == 2 {
        Mode::Chest
    } else {
        Mode::Abdomen
    }
}

impl Mode {
    /// The mode for a stored value, taken modulo the number of modes.
    pub fn from_u8(v: u8) -> (r: Mode)
        ensures
            r == mode_of(v as int),
    {
        match v % AIM_MODE_LENGTH {
            0 => Mode::Head,
            1 => Mode::Neck,
            2 => Mode::Chest,
            _ => Mode::Abdomen,
        }
    }

    /// The value under which the mode is stored.
    pub fn to_u8(self) -> (r: u8)
        ensures
            r == mode_index(self),
            mode_of(r as int) == self,
    {
        match self {
            Mode::Head => 0,
            Mode::Neck => 1,
            Mode::Chest => 2,
            Mode::Abdomen => 3,
        }
    }

    pub fn name(self) -> (r: &'static str)
        ensures
            r@ == mode_name(self),
    {
        match self {
            Mode::Head => "Head",
            Mode::Neck => "Neck",
            Mode::Chest => "Chest",
            Mode::Abdomen => "Abdomen",
        }
    }
}

pub open spec fn mode_name(m: Mode) -> Seq<char> {
    match m {
        Mode::Head => "Head"@,
        Mode::Neck => "Neck"@,
        Mode::Chest => "Chest"@,
        Mode::Abdomen => "Abdomen"@,
    }
}

pub open spec fn ratio(num: u32, den: u32) -> Ratio {
    Ratio { num, den }
}

pub open spec fn one() -> Ratio {
    Ratio { num: 1, den: 1 }
}

/// Aim point and tolerance radius.
pub type Aim = (Point2f, u32);

/// Centre horizontally, `s` of the half-height down; tolerance is the larger
/// of the half-width and `s` of the half-height.
pub open spec fn scaled_target(b: Bbox, s: Ratio) -> Aim {
    (
        b.center_spec(one(), s),
        max_int(b.width as int / 2, Bbox::half_scaled(b.height as int, s)) as u32,
    )
}

/// Centre horizontally, a third of the height above the bottom edge.
pub open spec fn head_target(b: Bbox) -> Aim {
    (
        Point2f { x: (b.xmin + b.width / 2) as i64, y: (b.bottom() - b.height / 3) as i64 },
        max_int(b.width as int / 2, b.height as int / 2) as u32,
    )
}

/// Centre horizontally, on the bottom edge.
pub open spec fn edge_target(b: Bbox) -> Aim {
    (
        Point2f { x: (b.xmin + b.width / 2) as i64, y: b.bottom() as i64 },
        max_int(b.width as int / 2, b.height as int / 2) as u32,
    )
}

/// A body scale carried over to the upper region: `s` divided by the upper
/// region's share of the body.
pub open spec fn over_head(s: Ratio) -> Ratio {
    Ratio { num: (s.num * SCALE_HEAD_Y_DEN) as u32, den: (s.den * SCALE_HEAD_Y_NUM) as u32 }
}

/// Body policy: the nearest primary region, else the nearest secondary one.
pub open spec fn low_target(c0: Seq<Bbox>, c1: Seq<Bbox>, s: Ratio) -> Option<Aim> {
    if c0.len() > 0 {
        Some(scaled_target(c0[0], s))
    } else if c1.len() > 0 {
        Some(scaled_target(c1[0], over_head(s)))
    } else {
        None
    }
}

/// What each policy aims at, given the proximity-ordered lists.
pub open spec fn aim_spec(m: Mode, c0: Seq<Bbox>, c1: Seq<Bbox>) -> Option<Aim> {
    match m {
        Mode::Head => if c1.len() > 0 {
            Some(head_target(c1[0]))
        } else if c0.len() > 0 {
            Some(scaled_target(c0[0], ratio(SCALE_HEAD_Y_NUM, SCALE_HEAD_Y_DEN)))
        } else {
            None
        },
        Mode::Neck => if c1.len() > 0 {
            Some(edge_target(c1[0]))
        } else if c0.len() > 0 {
            Some(scaled_target(c0[0], ratio(SCALE_NECK_Y_NUM, SCALE_NECK_Y_DEN)))
        } else {
            None
        },
        Mode::Chest => low_target(c0, c1, ratio(SCALE_CHEST_Y_NUM, SCALE_CHEST_Y_DEN)),
        Mode::Abdomen => low_target(c0, c1, ratio(SCALE_ABDOMEN_Y_NUM, SCALE_ABDOMEN_Y_DEN)),
    }
}

proof fn lemma_half_scaled_small(v: int, s: Ratio)
    requires
        0 <= v <= 0xffff,
        s.den > 0,
        s.num <= 0x10000,
    ensures
        0 <= v * s.num <= 0xffff0000,
        0 <= Bbox::half_scaled(v, s) <= 0xffff0000,
{
    assert(0 <= v * s.num <= 0xffff0000) by (nonlinear_arith)
        requires
            0 <= v <= 0xffff,
            0 <= s.num <= 0x10000,
    ;
    assert(0 <= (v * s.num) / (2 * s.den as int) <= v * s.num) by (nonlinear_arith)
        requires
            v * s.num >= 0,
            s.den > 0,
    ;
}

fn scaled_target_exec(b: &Bbox, s: Ratio) -> (r: Aim)
    requires
        s.den > 0,
        s.num <= 0x10000,
    ensures
        r == scaled_target(*b, s),
{
    proof {
        lemma_half_scaled_small(b.width as int, one());
        lemma_half_scaled_small(b.height as int, s);
    }
    let p = b.cxcy_scale(None, Some(s));
    let half_w = (b.width / 2) as u32;
    let down = (b.height as u64 * s.num as u64) / (2 * s.den as u64);
    let tol = if half_w as u64 >= down {
        half_w
    } else {
        down as u32
    };
    (p, tol)
}

fn head_target_exec(b: &Bbox) -> (r: Aim)
    ensures
        r == head_target(*b),
{
    let x = b.xmin as i64 + (b.width / 2) as i64;
    let y = b.ymax() - (b.height / 3) as i64;
    let half_w = b.width / 2;
    let half_h = b.height / 2;
    let tol = if half_w >= half_h {
        half_w
    } else {
        half_h
    };
    (Point2f::new(x, y), tol as u32)
}

fn edge_target_exec(b: &Bbox) -> (r: Aim)
    ensures
        r == edge_target(*b),
{
    let x = b.xmin as i64 + (b.width / 2) as i64;
    let half_w = b.width / 2;
    let half_h = b.height / 2;
    let tol = if half_w >= half_h {
        half_w
    } else {
        half_h
    };
    (Point2f::new(x, b.ymax()), tol as u32)
}

fn low_target_exec(bboxes: &Bboxes, s: Ratio) -> (r: Option<Aim>)
    requires
        s.den > 0,
        s.num <= 0x100,
        s.den <= 0x100,
    ensures
        r == low_target(bboxes.class_0@, bboxes.class_1@, s),
{
    if bboxes.class_0.len() > 0 {
        Some(scaled_target_exec(&bboxes.class_0[0], s))
    } else if bboxes.class_1.len() > 0 {
        let t = Ratio { num: s.num * SCALE_HEAD_Y_DEN, den: s.den * SCALE_HEAD_Y_NUM };
        Some(scaled_target_exec(&bboxes.class_1[0], t))
    } else {
        None
    }
}

/// The policy of `mode` applied to `bboxes`.
pub fn aim_with(mode: Mode, bboxes: &Bboxes) -> (r: Option<Aim>)
    ensures
        r == aim_spec(mode, bboxes.class_0@, bboxes.class_1@),
        r.is_none() <==> bboxes.class_0@.len() == 0 && bboxes.class_1@.len() == 0,
{
    match mode {
        Mode::Head => {
            if bboxes.class_1.len() > 0 {
                Some(head_target_exec(&bboxes.class_1[0]))
            } else if bboxes.class_0.len() > 0 {
                Some(
                    scaled_target_exec(
                        &bboxes.class_0[0],
                        Ratio::new(SCALE_HEAD_Y_NUM, SCALE_HEAD_Y_DEN),
                    ),
                )
            } else {
                None
            }
        },
        Mode::Neck => {
            if bboxes.class_1.len() > 0 {
                Some(edge_target_exec(&bboxes.class_1[0]))
            } else if bboxes.class_0.len() > 0 {
                Some(
                    scaled_target_exec(
                        &bboxes.class_0[0],
                        Ratio::new(SCALE_NECK_Y_NUM, SCALE_NECK_Y_DEN),
                    ),
                )
            } else {
                None
            }
        },
        Mode::Chest => low_target_exec(bboxes, Ratio::new(SCALE_CHEST_Y_NUM, SCALE_CHEST_Y_DEN)),
        Mode::Abdomen => low_target_exec(
            bboxes,
            Ratio::new(SCALE_ABDOMEN_Y_NUM, SCALE_ABDOMEN_Y_DEN),
        ),
    }
}

/// Shared targeting-mode register: a clone refers to the same register, and
/// a store is seen by the next load in any thread.
#[derive(Clone)]
pub struct AimMode(Arc<AtomicU8>);

impl AimMode {
    pub fn from_mode(mode: Mode) -> (r: AimMode) {
        AimMode(Arc::new(AtomicU8::new(mode.to_u8())))
    }

    /// A register holding `mode`, reduced modulo the number of modes.
    pub fn from_u8(mode: u8) -> (r: AimMode) {
        AimMode(Arc::new(AtomicU8::new(mode % AIM_MODE_LENGTH)))
    }

    /// The current mode. The register is shared with every clone and with
    /// other threads, so no contract can name the value it holds: callers
    /// that need an exact result pass the mode read here to `aim_with`.
    pub fn mode(&self) -> (r: Mode) {
        Mode::from_u8(self.0.load(Ordering::Acquire))
    }

    pub fn set_mode(&self, mode: Mode) {
        self.0.store(mode.to_u8(), Ordering::Release);
    }

    /// The policy of the current mode applied to `bboxes`; no target exactly
    /// when both lists are empty.
    pub fn aim(&self, bboxes: &Bboxes) -> (r: Option<Aim>)
        ensures
            exists|m: Mode| r == aim_spec(m, bboxes.class_0@, bboxes.class_1@),
            r.is_none() <==> bboxes.class_0@.len() == 0 && bboxes.class_1@.len() == 0,
    {
        let m = self.mode();
        aim_with(m, bboxes)
    }

    /// Upper policy: centre of the nearest secondary region, a third of its
    /// height above its bottom edge; else the nearest primary region scaled to
    /// the upper share of the body.
    pub fn aim_head(&self, bboxes: &Bboxes) -> (r: Option<Aim>)
        ensures
            r == aim_spec(Mode::Head, bboxes.class_0@, bboxes.class_1@),
    {
        aim_with(Mode::Head, bboxes)
    }

    /// Boundary policy: the bottom edge of the nearest secondary region; else the
    /// nearest primary region scaled to the neck share of the body.
    pub fn aim_neck(&self, bboxes: &Bboxes) -> (r: Option<Aim>)
        ensures
            r == aim_spec(Mode::Neck, bboxes.class_0@, bboxes.class_1@),
    {
        aim_with(Mode::Neck, bboxes)
    }

    /// Mid-body policy.
    pub fn aim_chest(&self, bboxes: &Bboxes) -> (r: Option<Aim>)
        ensures
            r == aim_spec(Mode::Chest, bboxes.class_0@, bboxes.class_1@),
    {
        aim_with(Mode::Chest, bboxes)
    }

    /// Lower-body policy.
    pub fn aim_abdomen(&self, bboxes: &Bboxes) -> (r: Option<Aim>)
        ensures
            r == aim_spec(Mode::Abdomen, bboxes.class_0@, bboxes.class_1@),
    {
        aim_with(Mode::Abdomen, bboxes)
    }

    /// Name of the current mode; see `mode` for why nothing more is stated.
    pub fn name(&self) -> (r: &'static str) {
        self.mode().name()
    }
}

} // verus!
