use rkvm2::evdev::{EventWriter, RawEvent, TimeVal, EV_ABS, EV_KEY, EV_REL, EV_SYN, REL_WHEEL, REL_X, REL_Y};
use rkvm2::message::{ButtonEvent, InputEvent, InputEventType, KeyEvent, MouseMoveEvent, Timestamp};

fn raw(type_: u16, code: u16, value: i32) -> RawEvent {
    RawEvent { type_, code, value, time: TimeVal { tv_sec: 0, tv_usec: 0 } }
}

fn ev(t: InputEventType) -> InputEvent {
    InputEvent { input_event_type: Some(t) }
}

#[test]
fn events_become_evdev_records() {
    assert_eq!(ev(InputEventType::Key(KeyEvent { key: 30, down: true })).to_raw(), raw(EV_KEY, 30, 1));
    assert_eq!(ev(InputEventType::Key(KeyEvent { key: 30, down: false })).to_raw(), raw(EV_KEY, 30, 0));
    assert_eq!(
        ev(InputEventType::Button(ButtonEvent { button: 272, down: true })).to_raw(),
        raw(EV_KEY, 272, 1)
    );
    assert_eq!(ev(InputEventType::Wheel(MouseMoveEvent { delta: -1 })).to_raw(), raw(EV_REL, REL_WHEEL, -1));
    assert_eq!(ev(InputEventType::X(MouseMoveEvent { delta: 5 })).to_raw(), raw(EV_REL, REL_X, 5));
    assert_eq!(ev(InputEventType::Y(MouseMoveEvent { delta: -7 })).to_raw(), raw(EV_REL, REL_Y, -7));
}

#[test]
fn evdev_records_become_events() {
    let mut r = raw(EV_KEY, 42, 1);
    r.time = TimeVal { tv_sec: 12, tv_usec: 345 };
    let (e, t) = InputEvent::from_raw(r).unwrap();
    assert_eq!(e, ev(InputEventType::Key(KeyEvent { key: 42, down: true })));
    assert_eq!(t, Timestamp { seconds: 12, nanos: 345_000 });
    let (e, _) = InputEvent::from_raw(raw(EV_KEY, 42, 0)).unwrap();
    assert_eq!(e, ev(InputEventType::Key(KeyEvent { key: 42, down: false })));
    let (e, _) = InputEvent::from_raw(raw(EV_REL, REL_WHEEL, 2)).unwrap();
    assert_eq!(e, ev(InputEventType::Wheel(MouseMoveEvent { delta: 2 })));
    let (e, _) = InputEvent::from_raw(raw(EV_REL, REL_X, -3)).unwrap();
    assert_eq!(e, ev(InputEventType::X(MouseMoveEvent { delta: -3 })));
    let (e, _) = InputEvent::from_raw(raw(EV_REL, REL_Y, 4)).unwrap();
    assert_eq!(e, ev(InputEventType::Y(MouseMoveEvent { delta: 4 })));
}

#[test]
fn autorepeat_and_sync_records_are_skipped() {
    assert_eq!(InputEvent::from_raw(raw(EV_KEY, 42, 2)), None);
    assert_eq!(InputEvent::from_raw(raw(EV_SYN, 0, 0)), None);
    assert_eq!(InputEvent::from_raw(raw(EV_REL, 6, 1)), None);
}

#[test]
fn writer_starts_at_origin_and_ends_each_write_with_sync() {
    let mut w = EventWriter::new();
    let syn = raw(EV_SYN, 0, 0);
    assert_eq!(w.take_queued(), vec![raw(EV_ABS, 0, 0), syn, raw(EV_ABS, 1, 0), syn]);
    w.write(ev(InputEventType::Key(KeyEvent { key: 30, down: true })));
    w.write_raw(raw(EV_REL, REL_X, 9));
    assert_eq!(w.take_queued(), vec![raw(EV_KEY, 30, 1), syn, raw(EV_REL, REL_X, 9), syn]);
    assert!(w.take_queued().is_empty());
}
