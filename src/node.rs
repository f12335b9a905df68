use vstd::prelude::*;

verus! {

/// Nanoseconds after which a silent peer is dropped from the table.
pub const EXPIRY_NANOS: u64 = 3_000_000_000;

/// One participant of the keyboard/mouse share, as seen by this host.
///
/// Time is counted in nanoseconds on a monotonic clock chosen by the caller.
pub struct Node {
    pub commander: bool,
    pub local: bool,
    pub name: String,
    pub last_heard_from: u64,
}

/// Mathematical view of a [`Node`].
pub ghost struct NodeView {
    pub commander: bool,
    pub local: bool,
    pub name: Seq<char>,
    pub last_heard_from: u64,
}

impl View for Node {
    type V = NodeView;

    open spec fn view(&self) -> NodeView {
        NodeView {
            commander: self.commander,
            local: self.local,
            name: self.name@,
            last_heard_from: self.last_heard_from,
        }
    }
}

/// Time elapsed from `then` to `now`, zero when `now` lies before `then`.
pub open spec fn elapsed(then: u64, now: u64) -> int {
    if now >= then { now - then } else { 0 }
}

/// A node expires when it is neither the commander nor this host and has been
/// silent for longer than the expiry window.
pub open spec fn node_expired(n: NodeView, now: u64) -> bool {
    !n.commander && !n.local && elapsed(n.last_heard_from, now) > EXPIRY_NANOS
}

impl Node {
    pub fn expired(&self, now: u64) -> (r: bool)
        ensures
            r == node_expired(self@, now),
    {
        !self.commander && !self.local && now.saturating_sub(self.last_heard_from) > EXPIRY_NANOS
    }
}

} // verus!
