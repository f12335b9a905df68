use rkvm2::config::Config;
use rkvm2::coordinator::{Coordinator, Effect};
use rkvm2::keys::{KEY_RIGHT_ALT, KEY_RIGHT_CTRL, KEY_TAB};
use rkvm2::message::{
    ActiveNodeChangedEvent, ClipboardEvent, Header, InputEvent, InputEventType, KeyEvent, Message,
    MouseMoveEvent, Payload, PingEvent,
};

const SEC: u64 = 1_000_000_000;

fn config(commander: bool) -> Config {
    Config {
        broadcast_address: String::new(),
        switch_keys: Vec::new(),
        commander_keys: Vec::new(),
        commander,
        socket_gid: 0,
    }
    .with_defaults()
}

fn header(from: &str, to: &str) -> Header {
    Header { from_id: from.to_string(), to_id: to.to_string(), sequence: 0, time: None }
}

fn ping_from(from: &str, commander: bool, active: &str) -> Message {
    Message {
        header: Some(header(from, "")),
        payload: Some(Payload::PingEvent(PingEvent {
            commander,
            active_node: active.to_string(),
        })),
    }
}

fn tick() -> Message {
    Message {
        header: None,
        payload: Some(Payload::PingEvent(PingEvent { commander: false, active_node: String::new() })),
    }
}

fn key(code: i32, down: bool) -> Message {
    Message {
        header: None,
        payload: Some(Payload::InputEvent(InputEvent {
            input_event_type: Some(InputEventType::Key(KeyEvent { key: code, down })),
        })),
    }
}

fn switch_to(header: Option<Header>, name: &str) -> Message {
    Message {
        header,
        payload: Some(Payload::ActiveNodeChangedEvent(ActiveNodeChangedEvent {
            name: name.to_string(),
        })),
    }
}

fn key_up(code: i32) -> Effect {
    Effect::ToInput(key(code, false))
}

fn loopback(e: &Effect) -> Message {
    match e {
        Effect::ToLoopback(m) => m.clone(),
        other => panic!("expected a loopback message, got {:?}", other),
    }
}

/// Commander "A" that has heard "B" ping for two seconds.
fn commander_with_peer() -> Coordinator {
    let mut a = Coordinator::new("A".to_string(), config(true), 0);
    for t in 0..3u64 {
        assert!(a.handle_message(ping_from("B", false, ""), t * SEC).is_empty());
    }
    a
}

/// Commander "A" that has switched to "B"; returns the effects of the switch.
fn switched_to_b() -> (Coordinator, Vec<Effect>) {
    let mut a = commander_with_peer();
    a.handle_message(key(KEY_RIGHT_CTRL, true), 2 * SEC);
    let e = a.handle_message(key(KEY_TAB, true), 2 * SEC);
    let request = loopback(&e[0]);
    let e = a.handle_message(request, 2 * SEC);
    (a, e)
}

#[test]
fn two_host_switch() {
    let mut a = commander_with_peer();
    assert_eq!(a.node_names(), vec!["A".to_string(), "B".to_string()]);
    assert_eq!(a.active_node(), Some(0));

    let e = a.handle_message(key(KEY_RIGHT_CTRL, true), 2 * SEC);
    assert_eq!(e, vec![Effect::ToInput(key(KEY_RIGHT_CTRL, true))]);
    let e = a.handle_message(key(KEY_TAB, true), 2 * SEC);
    assert_eq!(a.pressed_keys(), vec![KEY_RIGHT_CTRL, KEY_TAB]);
    assert_eq!(
        e,
        vec![Effect::ToLoopback(switch_to(None, "B")), Effect::ToInput(key(KEY_TAB, true))]
    );

    let e = a.handle_message(loopback(&e[0]), 2 * SEC);
    assert_eq!(
        e,
        vec![
            Effect::ShareClipboard,
            key_up(KEY_RIGHT_CTRL),
            key_up(KEY_TAB),
            Effect::Notify("Switched to B".to_string()),
            Effect::ToNet(switch_to(Some(header("A", "")), "B")),
        ]
    );
    assert_eq!(a.active_node(), Some(1));
    assert!(a.pressed_keys().is_empty());

    let mut moved = key(30, true);
    let e = a.handle_message(moved.clone(), 3 * SEC);
    moved.header = Some(header("A", "B"));
    assert_eq!(e, vec![Effect::ToNet(moved)]);
}

#[test]
fn switch_back_via_commander_keys() {
    let (mut a, _) = switched_to_b();
    a.handle_message(key(KEY_RIGHT_CTRL, true), 3 * SEC);
    let e = a.handle_message(key(KEY_RIGHT_ALT, true), 3 * SEC);
    assert_eq!(e[0], Effect::ToLoopback(switch_to(None, "A")));
    let e = a.handle_message(loopback(&e[0]), 3 * SEC);
    assert_eq!(
        e,
        vec![
            Effect::Notify("I'm over here!".to_string()),
            Effect::ToNet(switch_to(Some(header("A", "")), "A")),
        ]
    );
    assert_eq!(a.active_node(), Some(0));
    let e = a.handle_message(key(30, true), 3 * SEC);
    assert_eq!(e, vec![Effect::ToInput(key(30, true))]);
}

#[test]
fn peer_timeout() {
    let (mut a, _) = switched_to_b();
    // B was last heard at 2 s; exactly 3 s later it is still alive.
    let e = a.handle_message(tick(), 5 * SEC);
    assert_eq!(a.node_names().len(), 2);
    assert_eq!(e.len(), 1);
    let e = a.handle_message(tick(), 5 * SEC + 1);
    assert_eq!(a.node_names(), vec!["A".to_string()]);
    assert_eq!(a.active_node(), None);
    let ping = Message {
        header: Some(header("A", "")),
        payload: Some(Payload::PingEvent(PingEvent { commander: true, active_node: String::new() })),
    };
    assert_eq!(e, vec![Effect::ToLoopback(switch_to(None, "A")), Effect::ToNet(ping)]);
    let e = a.handle_message(loopback(&e[0]), 6 * SEC);
    assert_eq!(a.active_node(), Some(0));
    assert!(!e.contains(&Effect::ShareClipboard));
    assert_eq!(e[0], Effect::Notify("I'm over here!".to_string()));
}

#[test]
fn ping_driven_convergence() {
    let mut c = Coordinator::new("C".to_string(), config(false), 0);
    assert_eq!(c.active_node(), None);
    assert!(c.handle_message(ping_from("B", false, ""), 0).is_empty());
    let e = c.handle_message(ping_from("A", true, "B"), 0);
    let request = switch_to(Some(header("A", "")), "B");
    assert_eq!(e, vec![Effect::ToLoopback(request.clone())]);
    let e = c.handle_message(request, 0);
    assert_eq!(e, vec![Effect::Notify("Switched to B".to_string())]);
    assert_eq!(c.active_node(), Some(1));
    // The same ping again asks for nothing.
    assert!(c.handle_message(ping_from("A", true, "B"), SEC).is_empty());
    assert_eq!(c.active_node(), Some(1));
}

#[test]
fn clipboard_round_trip() {
    let (a, e) = switched_to_b();
    assert_eq!(e[0], Effect::ShareClipboard);
    let sent = a.clipboard_message("hello".to_string());
    assert_eq!(
        sent,
        Message {
            header: Some(header("A", "")),
            payload: Some(Payload::ClipboardEvent(ClipboardEvent {
                data: b"hello".to_vec(),
                mime_type: String::new(),
            })),
        }
    );
    let mut b = Coordinator::new("B".to_string(), config(false), 0);
    let e = b.handle_message(sent, 0);
    assert_eq!(e, vec![Effect::SetClipboard("hello".to_string())]);
}

#[test]
fn clipboard_with_invalid_utf8_is_decoded_lossily() {
    let mut b = Coordinator::new("B".to_string(), config(false), 0);
    let m = Message {
        header: Some(header("A", "")),
        payload: Some(Payload::ClipboardEvent(ClipboardEvent {
            data: vec![b'h', 0xff, b'i'],
            mime_type: String::new(),
        })),
    };
    let e = b.handle_message(m, 0);
    assert_eq!(e, vec![Effect::SetClipboard("h\u{FFFD}i".to_string())]);
}

#[test]
fn self_echo_guard() {
    let (mut a, _) = switched_to_b();
    let before = (a.node_names(), a.active_node(), a.pressed_keys());
    let echoes = vec![
        switch_to(Some(header("A", "")), "A"),
        ping_from("A", true, "B"),
        Message { header: Some(header("A", "B")), payload: key(5, true).payload },
    ];
    for m in echoes {
        assert!(a.handle_message(m, 3 * SEC).is_empty());
        assert_eq!((a.node_names(), a.active_node(), a.pressed_keys()), before);
    }
}

#[test]
fn message_for_another_node_is_dropped() {
    let (mut a, _) = switched_to_b();
    let before = (a.node_names(), a.active_node(), a.pressed_keys());
    let m = Message { header: Some(header("B", "C")), payload: key(5, true).payload };
    assert!(a.handle_message(m, 3 * SEC).is_empty());
    assert!(a.handle_message(switch_to(Some(header("B", "C")), "A"), 3 * SEC).is_empty());
    assert_eq!((a.node_names(), a.active_node(), a.pressed_keys()), before);
}

#[test]
fn switch_out_releases_every_pressed_key() {
    let mut a = commander_with_peer();
    for k in [30, 31, 32] {
        a.handle_message(key(k, true), 2 * SEC);
    }
    let e = a.handle_message(switch_to(None, "B"), 2 * SEC);
    let released: Vec<&Effect> = e.iter().filter(|x| matches!(x, Effect::ToInput(_))).collect();
    assert_eq!(released, vec![&key_up(30), &key_up(31), &key_up(32)]);
    assert!(a.pressed_keys().is_empty());
}

#[test]
fn chord_fires_on_exact_set_only() {
    let mut a = commander_with_peer();
    a.handle_message(key(KEY_TAB, true), 2 * SEC);
    a.handle_message(key(50, true), 2 * SEC);
    let e = a.handle_message(key(KEY_RIGHT_CTRL, true), 2 * SEC);
    assert_eq!(e, vec![Effect::ToInput(key(KEY_RIGHT_CTRL, true))]);
    // Releasing the extra key leaves exactly the chord, which fires.
    let e = a.handle_message(key(50, false), 2 * SEC);
    assert_eq!(e[0], Effect::ToLoopback(switch_to(None, "B")));
}

#[test]
fn repeated_key_down_does_not_fire_again() {
    let mut a = commander_with_peer();
    a.handle_message(key(KEY_RIGHT_CTRL, true), 2 * SEC);
    let e = a.handle_message(key(KEY_TAB, true), 2 * SEC);
    assert_eq!(e.len(), 2);
    let e = a.handle_message(key(KEY_TAB, true), 2 * SEC);
    assert_eq!(e, vec![Effect::ToInput(key(KEY_TAB, true))]);
}

#[test]
fn non_commander_does_not_fire_bindings() {
    let mut b = Coordinator::new("B".to_string(), config(false), 0);
    b.handle_message(ping_from("A", true, ""), 0);
    b.handle_message(key(KEY_RIGHT_CTRL, true), 0);
    let e = b.handle_message(key(KEY_TAB, true), 0);
    // No active node yet: input falls back to the local endpoint.
    assert_eq!(e, vec![Effect::ToInput(key(KEY_TAB, true))]);
}

#[test]
fn expiry_spares_commander_and_local_node() {
    let mut b = Coordinator::new("B".to_string(), config(false), 0);
    b.handle_message(ping_from("A", true, ""), 0);
    b.handle_message(ping_from("C", false, ""), 0);
    b.handle_message(tick(), 10 * SEC);
    assert_eq!(b.node_names(), vec!["B".to_string(), "A".to_string()]);
}

#[test]
fn expiry_keeps_active_node_when_another_expires() {
    let mut a = Coordinator::new("A".to_string(), config(true), 0);
    a.handle_message(ping_from("B", false, ""), 0);
    a.handle_message(ping_from("C", false, ""), 4 * SEC);
    a.handle_message(switch_to(None, "C"), 4 * SEC);
    assert_eq!(a.active_node(), Some(2));
    let e = a.handle_message(tick(), 4 * SEC);
    assert_eq!(a.node_names(), vec!["A".to_string(), "C".to_string()]);
    assert_eq!(a.active_node(), Some(1));
    let ping = Message {
        header: Some(header("A", "")),
        payload: Some(Payload::PingEvent(PingEvent { commander: true, active_node: "C".to_string() })),
    };
    assert_eq!(e, vec![Effect::ToNet(ping)]);
}

#[test]
fn active_node_recovery_on_non_commander() {
    let mut c = Coordinator::new("C".to_string(), config(false), 0);
    c.handle_message(ping_from("A", true, ""), 0);
    c.handle_message(ping_from("B", false, ""), 0);
    c.handle_message(ping_from("A", true, "B"), 0);
    c.handle_message(switch_to(Some(header("A", "")), "B"), 0);
    assert_eq!(c.active_node(), Some(2));
    let e = c.handle_message(tick(), 4 * SEC);
    assert_eq!(c.active_node(), None);
    assert_eq!(e[0], Effect::ToLoopback(switch_to(None, "A")));
    c.handle_message(loopback(&e[0]), 4 * SEC);
    assert_eq!(c.active_node(), Some(1));
}

#[test]
fn network_input_is_played_only_when_addressed_here() {
    let mut b = Coordinator::new("B".to_string(), config(false), 0);
    let to_me = Message { header: Some(header("A", "B")), payload: key(5, true).payload };
    let e = b.handle_message(to_me.clone(), 0);
    assert_eq!(e, vec![Effect::ToInput(to_me)]);
    let broadcast = Message { header: Some(header("A", "")), payload: key(6, true).payload };
    assert!(b.handle_message(broadcast, 0).is_empty());
}

#[test]
fn remote_active_on_non_commander_drops_local_input() {
    let mut c = Coordinator::new("C".to_string(), config(false), 0);
    c.handle_message(ping_from("B", false, ""), 0);
    c.handle_message(switch_to(Some(header("A", "")), "B"), 0);
    let wheel = Message {
        header: None,
        payload: Some(Payload::InputEvent(InputEvent {
            input_event_type: Some(InputEventType::Wheel(MouseMoveEvent { delta: 3 })),
        })),
    };
    assert!(c.handle_message(wheel, 0).is_empty());
}

#[test]
fn unknown_switch_target_and_same_target_are_ignored() {
    let mut a = commander_with_peer();
    assert!(a.handle_message(switch_to(None, "Z"), 0).is_empty());
    assert!(a.handle_message(switch_to(None, "A"), 0).is_empty());
    assert_eq!(a.active_node(), Some(0));
}

#[test]
fn switch_from_network_is_not_rebroadcast() {
    let mut b = Coordinator::new("B".to_string(), config(false), 0);
    b.handle_message(ping_from("A", true, ""), 0);
    let e = b.handle_message(switch_to(Some(header("A", "")), "B"), 0);
    assert_eq!(e, vec![Effect::Notify("I'm over here!".to_string())]);
}

#[test]
fn message_without_payload_does_nothing() {
    let mut a = commander_with_peer();
    assert!(a.handle_message(Message { header: None, payload: None }, 0).is_empty());
}
