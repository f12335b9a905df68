use rkvm2::config::Config;
use rkvm2::keys::{KEY_RIGHT_ALT, KEY_RIGHT_CTRL, KEY_TAB};

#[test]
fn empty_settings_get_defaults() {
    let c = Config {
        broadcast_address: String::new(),
        switch_keys: Vec::new(),
        commander_keys: Vec::new(),
        commander: true,
        socket_gid: 7,
    }
    .with_defaults();
    assert_eq!(c.broadcast_address, "192.168.24.255:45321");
    assert_eq!(c.switch_keys, vec![KEY_RIGHT_CTRL, KEY_TAB]);
    assert_eq!(c.commander_keys, vec![KEY_RIGHT_CTRL, KEY_RIGHT_ALT]);
    assert!(c.commander);
    assert_eq!(c.socket_gid, 7);
}

#[test]
fn given_settings_are_kept() {
    let c = Config {
        broadcast_address: "10.0.0.255:1".to_string(),
        switch_keys: vec![1, 2, 3],
        commander_keys: vec![4],
        commander: false,
        socket_gid: 0,
    }
    .with_defaults();
    assert_eq!(c.broadcast_address, "10.0.0.255:1");
    assert_eq!(c.switch_keys, vec![1, 2, 3]);
    assert_eq!(c.commander_keys, vec![4]);
}
