use rkvm2::message::{InputEvent, InputEventType, KeyEvent, Message, Payload, Timestamp, Header};
use rkvm2::notification::NotificationSlot;
use rkvm2::relay::{InputRelay, RelayAction};
use rkvm2::supervisor::{LinkAction, LinkEvent, Supervisor};

#[test]
fn supervisor_reconnects_after_failures() {
    let mut s = Supervisor::new();
    assert!(!s.connected());
    assert_eq!(s.on_event(LinkEvent::<u8>::ConnectFailed), LinkAction::PauseThenConnect);
    assert_eq!(s.on_event(LinkEvent::<u8>::Connected), LinkAction::Wait);
    assert_eq!(s.on_event(LinkEvent::Inbound(1u8)), LinkAction::Forward(1));
    assert_eq!(s.on_event(LinkEvent::Outbound(2u8)), LinkAction::Send(2));
    assert_eq!(s.on_event(LinkEvent::<u8>::SendFailed), LinkAction::Connect);
    assert!(!s.connected());
    assert_eq!(s.on_event(LinkEvent::Outbound(3u8)), LinkAction::Wait);
    assert_eq!(s.on_event(LinkEvent::<u8>::Connected), LinkAction::Wait);
    assert_eq!(s.on_event(LinkEvent::<u8>::InboundFailed), LinkAction::Connect);
    assert_eq!(s.on_event(LinkEvent::<u8>::ForwardRefused), LinkAction::Stop);
}

#[test]
fn only_the_last_notification_stays_live() {
    let mut slot = NotificationSlot::new();
    let mut closed = Vec::new();
    for h in 1..=4u32 {
        if let Some(prev) = slot.replace(h) {
            closed.push(prev);
        }
    }
    assert_eq!(closed, vec![1, 2, 3]);
    assert_eq!(slot.replace(5), Some(4));
}

fn key_event(code: i32) -> InputEvent {
    InputEvent { input_event_type: Some(InputEventType::Key(KeyEvent { key: code, down: true })) }
}

#[test]
fn commander_relay_numbers_device_events() {
    let mut r = InputRelay::new(true);
    let t = Timestamp { seconds: 1, nanos: 2 };
    for n in 1..=2u64 {
        match r.on_device_event(key_event(30), t) {
            RelayAction::Send(m) => {
                assert_eq!(m.header.as_ref().unwrap().sequence, n);
                assert_eq!(m.header.unwrap().time, Some(t));
                assert_eq!(m.payload, Some(Payload::InputEvent(key_event(30))));
            }
            other => panic!("unexpected {:?}", other),
        }
    }
}

#[test]
fn peer_relay_plays_events() {
    let mut r = InputRelay::new(false);
    let t = Timestamp { seconds: 1, nanos: 2 };
    assert_eq!(r.on_device_event(key_event(30), t), RelayAction::Play(key_event(30)));
    let m = |seq: u64| Message {
        header: Some(Header { from_id: String::new(), to_id: String::new(), sequence: seq, time: None }),
        payload: Some(Payload::InputEvent(key_event(31))),
    };
    assert_eq!(r.on_message(&m(1)), Some((key_event(31), true)));
    assert_eq!(r.on_message(&m(3)), Some((key_event(31), false)));
    assert_eq!(r.on_message(&m(4)), Some((key_event(31), true)));
    let ping = Message { header: None, payload: None };
    assert_eq!(r.on_message(&ping), None);
}
