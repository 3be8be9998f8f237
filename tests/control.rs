use aimbot::aim::Mode;
use aimbot::control::{
    baud_allowed, contains_text, remaining_after, response_confirms, status_text, AutoShoot, ButtonDecoder,
    ControlUpdate, Event, HoldTimer, SwitchDecoder,
};
use aimbot::relay::{relay_step, FrameRelay, RelayAction, RelayState};

#[test]
fn frame_relay_keeps_newest_only() {
    let mut q: FrameRelay<String> = FrameRelay::new();
    assert!(q.is_empty());
    assert_eq!(q.force_push("F1".to_string()), None);
    assert_eq!(q.force_push("F2".to_string()), Some("F1".to_string()));
    assert_eq!(q.pop(), Some("F2".to_string()));
    assert_eq!(q.pop(), None);
}

#[test]
fn relay_reconnects_then_gives_up() {
    let (s, a) = relay_step(RelayState::Capturing, true, 2);
    assert_eq!((s, a), (RelayState::Capturing, RelayAction::PushFrame));
    let (s, a) = relay_step(s, false, 2);
    assert_eq!((s, a), (RelayState::Reconnecting(0), RelayAction::Reconnect));
    let (s, a) = relay_step(s, false, 2);
    assert_eq!((s, a), (RelayState::Reconnecting(1), RelayAction::WaitThenReconnect));
    let (s, a) = relay_step(s, false, 2);
    assert_eq!((s, a), (RelayState::Stopped, RelayAction::Stop));
    assert_eq!(relay_step(s, true, 2), (RelayState::Stopped, RelayAction::Stop));
}

#[test]
fn relay_resumes_after_reconnect() {
    let (s, a) = relay_step(RelayState::Reconnecting(1), true, 12);
    assert_eq!((s, a), (RelayState::Capturing, RelayAction::Capture));
    assert_eq!(
        relay_step(RelayState::Capturing, false, 0),
        (RelayState::Stopped, RelayAction::Stop)
    );
}

#[test]
fn events_by_name() {
    assert_eq!(Event::try_from("aim_off"), Ok(Event::AimOff));
    assert_eq!(Event::try_from("OFF"), Ok(Event::AimOff));
    assert_eq!(Event::try_from("1"), Ok(Event::AimOn));
    assert_eq!(Event::try_from("AimModeHead"), Ok(Event::AimModeHead));
    assert_eq!(Event::try_from("neck"), Ok(Event::AimModeNeck));
    assert_eq!(Event::try_from("4"), Ok(Event::AimModeChest));
    assert_eq!(Event::try_from("aimModeAbdomen"), Ok(Event::AimModeAbdomen));
    assert_eq!(Event::try_from("Trigger"), Ok(Event::UseTrigger));
    assert_eq!(Event::try_from("auto_aim"), Ok(Event::UseAutoAim));
    assert_eq!(Event::try_from("bogus"), Err("bogus".to_string()));
    assert_eq!(Event::try_from(""), Err(String::new()));
    assert_eq!(Event::try_from("aim_offx"), Err("aim_offx".to_string()));
}

#[test]
fn event_effects() {
    assert_eq!(
        Event::UseTrigger.effect(),
        ControlUpdate { use_trigger: Some(true), use_auto_aim: Some(true), mode: None }
    );
    assert_eq!(
        Event::AimOff.effect(),
        ControlUpdate { use_trigger: None, use_auto_aim: Some(false), mode: None }
    );
    assert_eq!(Event::AimModeAbdomen.effect().mode, Some(Mode::Abdomen));
    assert_eq!(Event::UseAutoAim.effect().use_trigger, Some(false));
}

#[test]
fn status_line() {
    assert_eq!(status_text(false, true, Mode::Chest), "Auto [ON],Chest");
    assert_eq!(status_text(true, false, Mode::Head), "Trigger,Head");
    assert_eq!(status_text(false, false, Mode::Neck), "Auto [OFF],Neck");
}

#[test]
fn button_reports() {
    let mut d = ButtonDecoder::new();
    d.feed(0b00001);
    assert!(d.is_pressing(0) && !d.is_pressing(1));
    d.feed(0x0A);
    d.feed(b'A');
    assert_eq!(d.last_value, 1);
    d.feed(0b00011);
    assert_eq!(d.pressed, [true, true, false, false, false]);
    d.feed(0b10000);
    assert_eq!(d.pressed, [false, false, false, false, true]);
    d.feed(0);
    assert_eq!(d.pressed, [false; 5]);
}

#[test]
fn switch_reports() {
    let mut s = SwitchDecoder { first: false, second: false };
    s.feed(b"1x3");
    assert_eq!(s, SwitchDecoder { first: true, second: true });
    s.feed(b"20");
    assert_eq!(s, SwitchDecoder { first: false, second: false });
    s.feed(b"");
    assert_eq!(s, SwitchDecoder { first: false, second: false });
}

#[test]
fn hold_timer_fires_after_hold() {
    let mut h = HoldTimer::new();
    assert!(!h.poll(true, 1000, 200));
    assert!(!h.poll(true, 1100, 200));
    assert!(h.poll(true, 1200, 200));
    assert!(!h.poll(true, 1210, 200));
    assert!(!h.poll(false, 1300, 200));
    assert_eq!(h.started, None);
}

#[test]
fn device_checks() {
    assert!(baud_allowed(115200));
    assert!(baud_allowed(4000000));
    assert!(!baud_allowed(9600));
    assert!(response_confirms(b"km.version()\r\nkm.MAKCU\r\n"));
    assert!(!response_confirms(b"km.MAKC"));
    assert!(contains_text(b"abc", ""));
    assert!(contains_text(b"abc", "bc"));
    assert!(!contains_text(b"ab", "abc"));
}

#[test]
fn shot_counter() {
    let a = AutoShoot::new(3);
    let b = a.clone();
    a.sub_1();
    assert_eq!(b.get(), 2);
    a.sub(5);
    assert_eq!(b.get(), 0);
    assert!(b.disable() && !b.enable());
    a.sub(1);
    assert_eq!(a.get(), 0);
    a.set(4);
    a.sub(4);
    assert_eq!(a.get(), 0);
}

#[test]
fn shots_left_never_below_zero() {
    assert_eq!(remaining_after(5, 2), 3);
    assert_eq!(remaining_after(2, 2), 0);
    assert_eq!(remaining_after(1, 4), 0);
}
