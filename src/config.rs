use vstd::prelude::*;
use crate::keys::{KEY_RIGHT_ALT, KEY_RIGHT_CTRL, KEY_TAB};

verus! {

/// Settings of one host.
pub struct Config {
    /// Where the peers broadcast to and listen on, as `host:port`.
    pub broadcast_address: String,
    /// The chord that switches to the next node.
    pub switch_keys: Vec<i32>,
    /// The chord that switches back to the commander.
    pub commander_keys: Vec<i32>,
    /// Whether this host captures the input that is shared.
    pub commander: bool,
    /// Group that owns the local input socket.
    pub socket_gid: u32,
}

pub open spec fn default_broadcast_address() -> Seq<char> {
    "192.168.24.255:45321"@
}

pub open spec fn default_switch_keys() -> Seq<i32> {
    seq![KEY_RIGHT_CTRL, KEY_TAB]
}

pub open spec fn default_commander_keys() -> Seq<i32> {
    seq![KEY_RIGHT_CTRL, KEY_RIGHT_ALT]
}

impl Config {
    /// Fills every setting that was left empty with its default.
    pub fn with_defaults(self) -> (r: Config)
        ensures
            r.broadcast_address@ == (if self.broadcast_address@.len() == 0 {
                default_broadcast_address()
            } else {
                self.broadcast_address@
            }),
            r.switch_keys@ == (if self.switch_keys@.len() == 0 {
                default_switch_keys()
            } else {
                self.switch_keys@
            }),
            r.commander_keys@ == (if self.commander_keys@.len() == 0 {
                default_commander_keys()
            } else {
                self.commander_keys@
            }),
            r.commander == self.commander,
            r.socket_gid == self.socket_gid,
    {
        let mut config = self;
        if config.broadcast_address.as_str().is_empty() {
            config.broadcast_address = "192.168.24.255:45321".to_owned();
        }
        if config.switch_keys.is_empty() {
            config.switch_keys.push(KEY_RIGHT_CTRL);
            config.switch_keys.push(KEY_TAB);
            assert(config.switch_keys@ =~= default_switch_keys());
        }
        if config.commander_keys.is_empty() {
            config.commander_keys.push(KEY_RIGHT_CTRL);
            config.commander_keys.push(KEY_RIGHT_ALT);
            assert(config.commander_keys@ =~= default_commander_keys());
        }
        config
    }
}

} // verus!
