//! Control-plane events, shared control registers and the decoding of the
//! device's button reports.
use crate::aim::{Mode, mode_name};
use crate::command::append_str;
use std::sync::atomic::{AtomicU32, Ordering};
use std::sync::Arc;
use vstd::prelude::*;
use vstd::string::StringSliceAdditionalSpecFns;

verus! {

/// Shared counter of shots left to fire; zero means firing is off.
#[derive(Clone, Debug)]
pub struct AutoShoot(Arc<AtomicU32>);

impl AutoShoot {
    pub fn new(n: u32) -> (r: AutoShoot) {
        AutoShoot(Arc::new(AtomicU32::new(n)))
    }

    pub fn set(&self, n: u32) {
        self.0.store(n, Ordering::Release);
    }

    pub fn get(&self) -> (r: u32) {
        self.0.load(Ordering::Acquire)
    }

    pub fn disable(&self) -> (r: bool) {
        self.get() == 0
    }

    pub fn enable(&self) -> (r: bool) {
        !self.disable()
    }

    /// Take `value` shots off the counter, stopping at zero. The counter is
    /// shared with every clone and with other threads, so what it holds is
    /// stated only of the step itself, in `remaining_after`.
    pub fn sub(&self, value: u32) {
        let remain = self.get();
        if remain >= value {
            self.0.fetch_sub(value, Ordering::AcqRel);
        } else if remain > 0 {
            self.set(remaining_after(remain, value));
        }
    }

    pub fn sub_1(&self) {
        self.sub(1);
    }
}

/// The shots left after firing `value` of `remain`: never below zero.
pub fn remaining_after(remain: u32, value: u32) -> (r: u32)
    ensures
        r == (if remain >= value {
            remain - value
        } else {
            0
        }),
{
    if remain >= value {
        remain - value
    } else {
        0
    }
}

/// A request of the control plane.
#[derive(Clone, Copy, Debug, PartialEq, Eq, Structural)]
pub enum Event {
    AimOff,
    AimOn,
    AimModeHead,
    AimModeNeck,
    AimModeChest,
    AimModeAbdomen,
    UseTrigger,
    UseAutoAim,
}

pub open spec fn bytes_of(s: &str) -> Seq<u8> {
    s.spec_bytes()
}

/// The names under which each event is accepted.
pub open spec fn names_aim_off(t: Seq<u8>) -> bool {
    t == bytes_of("aim_off")
        || t == bytes_of("aimOff")
        || t == bytes_of("AimOff")
        || t == bytes_of("off")
        || t == bytes_of("Off")
        || t == bytes_of("OFF")
        || t == bytes_of("0")
}

pub open spec fn names_aim_on(t: Seq<u8>) -> bool {
    t == bytes_of("aim_on")
        || t == bytes_of("aimOn")
        || t == bytes_of("AimOn")
        || t == bytes_of("on")
        || t == bytes_of("On")
        || t == bytes_of("ON")
        || t == bytes_of("1")
}

pub open spec fn names_aim_mode_head(t: Seq<u8>) -> bool {
    t == bytes_of("aim_mode_head")
        || t == bytes_of("aimModeHead")
        || t == bytes_of("AimModeHead")
        || t == bytes_of("head")
        || t == bytes_of("Head")
        || t == bytes_of("2")
}

pub open spec fn names_aim_mode_neck(t: Seq<u8>) -> bool {
    t == bytes_of("aim_mode_neck")
        || t == bytes_of("aimModeNeck")
        || t == bytes_of("AimModeNeck")
        || t == bytes_of("neck")
        || t == bytes_of("Neck")
        || t == bytes_of("3")
}

pub open spec fn names_aim_mode_chest(t: Seq<u8>) -> bool {
    t == bytes_of("aim_mode_chest")
        || t == bytes_of("aimModeChest")
        || t == bytes_of("AimModeChest")
        || t == bytes_of("chest")
        || t == bytes_of("Chest")
        || t == bytes_of("4")
}

pub open spec fn names_aim_mode_abdomen(t: Seq<u8>) -> bool {
    t == bytes_of("aim_mode_abdomen")
        || t == bytes_of("aimModeAbdomen")
        || t == bytes_of("AimModeAbdomen")
        || t == bytes_of("abdomen")
        || t == bytes_of("Abdomen")
        || t == bytes_of("5")
}

pub open spec fn names_use_trigger(t: Seq<u8>) -> bool {
    t == bytes_of("trigger")
        || t == bytes_of("Trigger")
        || t == bytes_of("6")
}

pub open spec fn names_use_auto_aim(t: Seq<u8>) -> bool {
    t == bytes_of("auto_aim")
        || t == bytes_of("autoAim")
        || t == bytes_of("AutoAim")
        || t == bytes_of("7")
}

/// The event that the text `t` names, if any.
pub open spec fn event_named(t: Seq<u8>) -> Option<Event> {
    if names_aim_off(t) {
        Some(Event::AimOff)
    } else if names_aim_on(t) {
        Some(Event::AimOn)
    } else if names_aim_mode_head(t) {
        Some(Event::AimModeHead)
    } else if names_aim_mode_neck(t) {
        Some(Event::AimModeNeck)
    } else if names_aim_mode_chest(t) {
        Some(Event::AimModeChest)
    } else if names_aim_mode_abdomen(t) {
        Some(Event::AimModeAbdomen)
    } else if names_use_trigger(t) {
        Some(Event::UseTrigger)
    } else if names_use_auto_aim(t) {
        Some(Event::UseAutoAim)
    } else {
        None
    }
}

/// Whether `a` and `b` hold the same bytes.
fn same_text(a: &str, b: &str) -> (r: bool)
    ensures
        r == (a.spec_bytes() == b.spec_bytes()),
{
    let x = a.as_bytes();
    let y = b.as_bytes();
    if x.len() != y.len() {
        return false;
    }
    let mut i: usize = 0;
    while i < x.len()
        invariant
            x@ == a.spec_bytes(),
            y@ == b.spec_bytes(),
            x@.len() == y@.len(),
            0 <= i <= x@.len(),
            forall|j: int| 0 <= j < i ==> x@[j] == y@[j],
        decreases x@.len() - i,
    {
        if x[i] != y[i] {
            return false;
        }
        i = i + 1;
    }
    assert(x@ =~= y@);
    true
}

fn is_aim_off(t: &str) -> (r: bool)
    ensures
        r == names_aim_off(t.spec_bytes()),
{
    same_text(t, "aim_off")
        || same_text(t, "aimOff")
        || same_text(t, "AimOff")
        || same_text(t, "off")
        || same_text(t, "Off")
        || same_text(t, "OFF")
        || same_text(t, "0")
}

fn is_aim_on(t: &str) -> (r: bool)
    ensures
        r == names_aim_on(t.spec_bytes()),
{
    same_text(t, "aim_on")
        || same_text(t, "aimOn")
        || same_text(t, "AimOn")
        || same_text(t, "on")
        || same_text(t, "On")
        || same_text(t, "ON")
        || same_text(t, "1")
}

fn is_aim_mode_head(t: &str) -> (r: bool)
    ensures
        r == names_aim_mode_head(t.spec_bytes()),
{
    same_text(t, "aim_mode_head")
        || same_text(t, "aimModeHead")
        || same_text(t, "AimModeHead")
        || same_text(t, "head")
        || same_text(t, "Head")
        || same_text(t, "2")
}

fn is_aim_mode_neck(t: &str) -> (r: bool)
    ensures
        r == names_aim_mode_neck(t.spec_bytes()),
{
    same_text(t, "aim_mode_neck")
        || same_text(t, "aimModeNeck")
        || same_text(t, "AimModeNeck")
        || same_text(t, "neck")
        || same_text(t, "Neck")
        || same_text(t, "3")
}

fn is_aim_mode_chest(t: &str) -> (r: bool)
    ensures
        r == names_aim_mode_chest(t.spec_bytes()),
{
    same_text(t, "aim_mode_chest")
        || same_text(t, "aimModeChest")
        || same_text(t, "AimModeChest")
        || same_text(t, "chest")
        || same_text(t, "Chest")
        || same_text(t, "4")
}

fn is_aim_mode_abdomen(t: &str) -> (r: bool)
    ensures
        r == names_aim_mode_abdomen(t.spec_bytes()),
{
    same_text(t, "aim_mode_abdomen")
        || same_text(t, "aimModeAbdomen")
        || same_text(t, "AimModeAbdomen")
        || same_text(t, "abdomen")
        || same_text(t, "Abdomen")
        || same_text(t, "5")
}

fn is_use_trigger(t: &str) -> (r: bool)
    ensures
        r == names_use_trigger(t.spec_bytes()),
{
    same_text(t, "trigger")
        || same_text(t, "Trigger")
        || same_text(t, "6")
}

fn is_use_auto_aim(t: &str) -> (r: bool)
    ensures
        r == names_use_auto_aim(t.spec_bytes()),
{
    same_text(t, "auto_aim")
        || same_text(t, "autoAim")
        || same_text(t, "AutoAim")
        || same_text(t, "7")
}

impl Event {
    /// The event named by `value`; the text itself when it names none.
    pub fn try_from(value: &str) -> (r: Result<Event, String>)
        ensures
            event_named(value.spec_bytes()) matches Some(e) ==> r == Ok::<Event, String>(e),
            event_named(value.spec_bytes()) is None ==> (r matches Err(s) && s@ == value@),
    {
        if is_aim_off(value) {
            Ok(Event::AimOff)
        } else if is_aim_on(value) {
            Ok(Event::AimOn)
        } else if is_aim_mode_head(value) {
            Ok(Event::AimModeHead)
        } else if is_aim_mode_neck(value) {
            Ok(Event::AimModeNeck)
        } else if is_aim_mode_chest(value) {
            Ok(Event::AimModeChest)
        } else if is_aim_mode_abdomen(value) {
            Ok(Event::AimModeAbdomen)
        } else if is_use_trigger(value) {
            Ok(Event::UseTrigger)
        } else if is_use_auto_aim(value) {
            Ok(Event::UseAutoAim)
        } else {
            let mut s = String::new();
            append_str(&mut s, value);
            Err(s)
        }
    }
}

/// What an event changes in the control registers; `None` leaves a
/// register as it is.
#[derive(Clone, Copy, Debug, PartialEq, Eq, Structural)]
pub struct ControlUpdate {
    pub use_trigger: Option<bool>,
    pub use_auto_aim: Option<bool>,
    pub mode: Option<Mode>,
}

pub open spec fn effect_of(e: Event) -> ControlUpdate {
    match e {
        Event::AimOff => ControlUpdate { use_trigger: None, use_auto_aim: Some(false), mode: None },
        Event::AimOn => ControlUpdate { use_trigger: None, use_auto_aim: Some(true), mode: None },
        Event::AimModeHead => ControlUpdate {
            use_trigger: None,
            use_auto_aim: None,
            mode: Some(Mode::Head),
        },
        Event::AimModeNeck => ControlUpdate {
            use_trigger: None,
            use_auto_aim: None,
            mode: Some(Mode::Neck),
        },
        Event::AimModeChest => ControlUpdate {
            use_trigger: None,
            use_auto_aim: None,
            mode: Some(Mode::Chest),
        },
        Event::AimModeAbdomen => ControlUpdate {
            use_trigger: None,
            use_auto_aim: None,
            mode: Some(Mode::Abdomen),
        },
        Event::UseTrigger => ControlUpdate {
            use_trigger: Some(true),
            use_auto_aim: Some(true),
            mode: None,
        },
        Event::UseAutoAim => ControlUpdate {
            use_trigger: Some(false),
            use_auto_aim: Some(true),
            mode: None,
        },
    }
}

impl Event {
    /// The change of the control registers that the event asks for.
    pub fn effect(self) -> (r: ControlUpdate)
        ensures
            r == effect_of(self),
    {
        match self {
            Event::AimOff => ControlUpdate { use_trigger: None, use_auto_aim: Some(false), mode: None },
            Event::AimOn => ControlUpdate { use_trigger: None, use_auto_aim: Some(true), mode: None },
            Event::AimModeHead => ControlUpdate {
                use_trigger: None,
                use_auto_aim: None,
                mode: Some(Mode::Head),
            },
            Event::AimModeNeck => ControlUpdate {
                use_trigger: None,
                use_auto_aim: None,
                mode: Some(Mode::Neck),
            },
            Event::AimModeChest => ControlUpdate {
                use_trigger: None,
                use_auto_aim: None,
                mode: Some(Mode::Chest),
            },
            Event::AimModeAbdomen => ControlUpdate {
                use_trigger: None,
                use_auto_aim: None,
                mode: Some(Mode::Abdomen),
            },
            Event::UseTrigger => ControlUpdate {
                use_trigger: Some(true),
                use_auto_aim: Some(true),
                mode: None,
            },
            Event::UseAutoAim => ControlUpdate {
                use_trigger: Some(false),
                use_auto_aim: Some(true),
                mode: None,
            },
        }
    }
}

pub open spec fn status_spec(use_trigger: bool, use_auto_aim: bool, mode: Mode) -> Seq<char> {
    (if use_trigger {
        "Trigger"@
    } else if use_auto_aim {
        "Auto [ON]"@
    } else {
        "Auto [OFF]"@
    }) + ","@ + mode_name(mode)
}

/// The status line reported to the control plane: the firing policy, then
/// the targeting mode.
pub fn status_text(use_trigger: bool, use_auto_aim: bool, mode: Mode) -> (r: String)
    ensures
        r@ == status_spec(use_trigger, use_auto_aim, mode),
{
    let mut s = String::new();
    append_str(
        &mut s,
        if use_trigger {
            "Trigger"
        } else if use_auto_aim {
            "Auto [ON]"
        } else {
            "Auto [OFF]"
        },
    );
    append_str(&mut s, ",");
    append_str(&mut s, mode.name());
    assert(s@ =~= status_spec(use_trigger, use_auto_aim, mode));
    s
}

/// Bit of button `i` in a button report.
pub open spec fn mask(i: int) -> u8 {
    if i == 0 {
        1
    } else if i == 1 {
        2
    } else if i == 2 {
        4
    } else if i == 3 {
        8
    } else {
        16
    }
}

fn mask_exec(i: usize) -> (r: u8)
    requires
        i < 5,
    ensures
        r == mask(i as int),
{
    match i {
        0 => 1,
        1 => 2,
        2 => 4,
        3 => 8,
        _ => 16,
    }
}

/// A byte is a button report unless it is a line break or a printable
/// character.
pub open spec fn is_report(v: u8) -> bool {
    v != 0x0A && v != 0x0D && v < 32
}

/// Tracks the five buttons from the report bytes the device sends.
#[derive(Clone, Copy, Debug, PartialEq, Eq)]
pub struct ButtonDecoder {
    pub last_value: u8,
    pub pressed: [bool; 5],
}

impl ButtonDecoder {
    /// The state after report byte `v`: the buttons whose bit changed take
    /// the new bit; other bytes, and repeats, change nothing.
    pub open spec fn next(self, v: u8) -> (u8, Seq<bool>) {
        if is_report(v) && (self.last_value ^ v) != 0 {
            (
                v,
                Seq::new(
                    5,
                    |i: int|
                        if (self.last_value ^ v) & mask(i) != 0 {
                            v & mask(i) != 0
                        } else {
                            self.pressed@[i]
                        },
                ),
            )
        } else {
            (self.last_value, self.pressed@)
        }
    }

    pub fn new() -> (r: ButtonDecoder)
        ensures
            r.last_value == 0,
            r.pressed@ == seq![false, false, false, false, false],
    {
        let r = ButtonDecoder { last_value: 0, pressed: [false; 5] };
        assert(r.pressed@ =~= seq![false, false, false, false, false]);
        r
    }

    pub fn feed(&mut self, v: u8)
        ensures
            (final(self).last_value, final(self).pressed@) == old(self).next(v),
    {
        if v != 0x0A && v != 0x0D && v < 32 {
            let changed = self.last_value ^ v;
            if changed > 0 {
                let ghost before = *self;
                let mut i: usize = 0;
                while i < 5
                    invariant
                        0 <= i <= 5,
                        self.last_value == before.last_value,
                        changed == before.last_value ^ v,
                        forall|j: int|
                            0 <= j < i ==> self.pressed@[j] == (if changed & mask(j) != 0 {
                                v & mask(j) != 0
                            } else {
                                before.pressed@[j]
                            }),
                        forall|j: int| i <= j < 5 ==> self.pressed@[j] == before.pressed@[j],
                    decreases 5 - i,
                {
                    let m = mask_exec(i);
                    if changed & m > 0 {
                        self.pressed[i] = v & m > 0;
                    }
                    i = i + 1;
                }
                self.last_value = v;
                assert(self.pressed@ =~= before.next(v).1);
            }
        }
    }

    pub fn is_pressing(&self, button: usize) -> (r: bool)
        requires
            button < 5,
        ensures
            r == self.pressed@[button as int],
    {
        self.pressed[button]
    }
}

/// Tracks the two switches of the auxiliary button board: bytes `0` and `1`
/// release and press the first, `2` and `3` the second; other bytes are
/// ignored.
#[derive(Clone, Copy, Debug, PartialEq, Eq, Structural)]
pub struct SwitchDecoder {
    pub first: bool,
    pub second: bool,
}

impl SwitchDecoder {
    pub open spec fn next(self, v: u8) -> SwitchDecoder {
        if v == 48 {
            SwitchDecoder { first: false, ..self }
        } else if v == 49 {
            SwitchDecoder { first: true, ..self }
        } else if v == 50 {
            SwitchDecoder { second: false, ..self }
        } else if v == 51 {
            SwitchDecoder { second: true, ..self }
        } else {
            self
        }
    }

    pub open spec fn after(self, bytes: Seq<u8>) -> SwitchDecoder
        decreases bytes.len(),
    {
        if bytes.len() == 0 {
            self
        } else {
            self.after(bytes.drop_last()).next(bytes.last())
        }
    }

    /// Apply the bytes in order.
    pub fn feed(&mut self, bytes: &[u8])
        ensures
            *final(self) == old(self).after(bytes@),
    {
        let ghost start = *self;
        let mut i: usize = 0;
        while i < bytes.len()
            invariant
                0 <= i <= bytes@.len(),
                *self == start.after(bytes@.take(i as int)),
            decreases bytes@.len() - i,
        {
            let v = bytes[i];
            if v == 48 {
                self.first = false;
            } else if v == 49 {
                self.first = true;
            } else if v == 50 {
                self.second = false;
            } else if v == 51 {
                self.second = true;
            }
            assert(bytes@.take(i as int + 1).drop_last() =~= bytes@.take(i as int));
            i = i + 1;
        }
        assert(bytes@.take(i as int) =~= bytes@);
    }
}

/// Times a button press, to act once each time the button has been held
/// for the hold duration.
#[derive(Clone, Copy, Debug, PartialEq, Eq, Structural)]
pub struct HoldTimer {
    /// When the current press began, while one is being timed.
    pub started: Option<u64>,
}

pub open spec fn elapsed(now: u64, since: u64) -> int {
    if now >= since {
        now - since
    } else {
        0
    }
}

impl HoldTimer {
    /// The timer after a poll at `now` that found the button `pressed`, and
    /// whether to act: a press starts the timer, a release drops it, and a
    /// press held for `hold` acts and starts over.
    pub open spec fn next(self, pressed: bool, now: u64, hold: u64) -> (HoldTimer, bool) {
        match self.started {
            None => if pressed {
                (HoldTimer { started: Some(now) }, false)
            } else {
                (self, false)
            },
            Some(t) => if !pressed {
                (HoldTimer { started: None }, false)
            } else if elapsed(now, t) >= hold {
                (HoldTimer { started: None }, true)
            } else {
                (self, false)
            },
        }
    }

    pub fn new() -> (r: HoldTimer)
        ensures
            r.started is None,
    {
        HoldTimer { started: None }
    }

    pub fn poll(&mut self, pressed: bool, now: u64, hold: u64) -> (fire: bool)
        ensures
            (*final(self), fire) == old(self).next(pressed, now, hold),
    {
        match self.started {
            None => {
                if pressed {
                    self.started = Some(now);
                }
                false
            },
            Some(t) => {
                if !pressed {
                    self.started = None;
                    false
                } else {
                    let e = if now >= t {
                        now - t
                    } else {
                        0
                    };
                    if e >= hold {
                        self.started = None;
                        true
                    } else {
                        false
                    }
                }
            },
        }
    }
}

/// Baud rates the device can be switched to.
pub open spec fn baud_ok(baud: u32) -> bool {
    baud == 115200 || baud == 2000000 || baud == 4000000
}

pub fn baud_allowed(baud: u32) -> (r: bool)
    ensures
        r == baud_ok(baud),
{
    baud == 115200 || baud == 2000000 || baud == 4000000
}

/// `needle` occurs in `hay` at some position.
pub open spec fn occurs(hay: Seq<u8>, needle: Seq<u8>) -> bool {
    exists|i: int|
        0 <= i && i + needle.len() <= hay.len() && #[trigger] hay.subrange(i, i + needle.len())
            == needle
}

/// Whether the bytes of `needle` occur in `hay`.
pub fn contains_text(hay: &[u8], needle: &str) -> (r: bool)
    ensures
        r == occurs(hay@, needle.spec_bytes()),
{
    let n = needle.as_bytes();
    if n.len() > hay.len() {
        return false;
    }
    if n.len() == 0 {
        assert(hay@.subrange(0, 0 + needle.spec_bytes().len() as int) =~= needle.spec_bytes());
        return true;
    }
    let hl = hay.len();
    let last = hl - n.len();
    let mut i: usize = 0;
    while i <= last
        invariant
            n@ == needle.spec_bytes(),
            n@.len() > 0,
            hl == hay@.len(),
            last + n@.len() == hay@.len(),
            0 <= i <= last + 1,
            forall|k: int| 0 <= k < i ==> #[trigger] hay@.subrange(k, k + n@.len()) != n@,
        decreases last + 1 - i,
    {
        let mut j: usize = 0;
        let mut same = true;
        while j < n.len()
            invariant
                0 <= j <= n@.len(),
                i <= last,
                n@.len() > 0,
                hl == hay@.len(),
                last + n@.len() == hay@.len(),
                same == forall|m: int| 0 <= m < j ==> hay@[i + m] == n@[m],
            decreases n@.len() - j,
        {
            if hay[i + j] != n[j] {
                same = false;
            }
            j = j + 1;
        }
        if same {
            assert(hay@.subrange(i as int, i + n@.len()) =~= n@);
            return true;
        }
        assert(hay@.subrange(i as int, i + n@.len()) != n@) by {
            let m = choose|m: int| 0 <= m < n@.len() && hay@[i + m] != n@[m];
            assert(hay@.subrange(i as int, i + n@.len())[m] != n@[m]);
        }
        i = i + 1;
    }
    false
}

/// Whether a reply of the device identifies it as the expected model.
pub fn response_confirms(reply: &[u8]) -> (r: bool)
    ensures
        r == occurs(reply@, "km.MAKCU".spec_bytes()),
{
    contains_text(reply, "km.MAKCU")
}

} // verus!
