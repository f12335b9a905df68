//! The coordinator as a state machine over mathematical values: one message in,
//! the next state and the list of effects out.

use vstd::prelude::*;
use crate::keys::same_key_set;
use crate::message::{
    key_up_view, outgoing_header, switch_request_view, HeaderView, InputEvent, InputEventType,
    MessageView, PayloadView,
};
use crate::node::{node_expired, NodeView};
use crate::search::first_index;
use crate::text::lossy_text;

verus! {

pub ghost struct BindingView {
    pub keys: Seq<i32>,
    pub node_index: Option<int>,
}

pub ghost struct CoordinatorView {
    pub nodes: Seq<NodeView>,
    pub keys: Seq<i32>,
    pub active: Option<int>,
    pub bindings: Seq<BindingView>,
}

/// Something the caller has to carry out after a message was handled.
pub ghost enum EffectView {
    /// Hand the message to the local input endpoint.
    ToInput(MessageView),
    /// Broadcast the message on the network.
    ToNet(MessageView),
    /// Feed the message back to the coordinator.
    ToLoopback(MessageView),
    /// Read the local clipboard and broadcast its text.
    ShareClipboard,
    /// Put the text on the local clipboard.
    SetClipboard(Seq<char>),
    /// Show the text as a desktop notification.
    Notify(Seq<char>),
}

pub open spec fn named(name: Seq<char>) -> spec_fn(NodeView) -> bool {
    |n: NodeView| n.name == name
}

pub open spec fn is_commander() -> spec_fn(NodeView) -> bool {
    |n: NodeView| n.commander
}

pub open spec fn is_key(key: i32) -> spec_fn(i32) -> bool {
    |k: i32| k == key
}

pub open spec fn is_live(now: u64) -> spec_fn(NodeView) -> bool {
    |n: NodeView| !node_expired(n, now)
}

pub open spec fn over_here() -> Seq<char> {
    "I'm over here!"@
}

pub open spec fn switched_to(name: Seq<char>) -> Seq<char> {
    "Switched to "@ + name
}

impl CoordinatorView {
    /// The name of this host.
    pub open spec fn name(self) -> Seq<char> {
        self.nodes[0].name
    }

    pub open spec fn wf(self) -> bool {
        &&& self.nodes.len() >= 1
        &&& forall|i: int| 0 <= i < self.nodes.len() ==> (#[trigger] self.nodes[i].local <==> i == 0)
        &&& forall|i: int, j: int|
            0 <= i < self.nodes.len() && 0 <= j < self.nodes.len() && i != j
                ==> #[trigger] self.nodes[i].name != #[trigger] self.nodes[j].name
        &&& self.keys.no_duplicates()
        &&& self.active matches Some(a) ==> 0 <= a < self.nodes.len()
    }
}

/// The origin of an admitted message (empty when it comes from this host), or
/// `None` when the message is this host's own echo or addressed to another node.
pub open spec fn admission(s: CoordinatorView, header: Option<HeaderView>) -> Option<Seq<char>> {
    match header {
        None => Some(Seq::empty()),
        Some(h) => if h.from_id == s.name() || (h.to_id.len() != 0 && h.to_id != s.name()) {
            None
        } else {
            Some(h.from_id)
        },
    }
}

/// A ping from the peer `origin`: refresh or add its node, and follow the
/// commander's choice of active node.
pub open spec fn peer_ping(
    s: CoordinatorView,
    origin: Seq<char>,
    commander: bool,
    active_node: Seq<char>,
    now: u64,
) -> (CoordinatorView, Seq<EffectView>) {
    let nodes = match first_index(s.nodes, named(origin)) {
        Some(i) => s.nodes.update(i, NodeView { commander, last_heard_from: now, ..s.nodes[i] }),
        None => s.nodes.push(
            NodeView { commander, local: false, name: origin, last_heard_from: now },
        ),
    };
    let effects = if commander {
        match first_index(nodes, named(active_node)) {
            Some(x) => if s.active == Some(x) {
                Seq::empty()
            } else {
                seq![
                    EffectView::ToLoopback(
                        switch_request_view(
                            Some(outgoing_header(origin, Seq::empty())),
                            active_node,
                        ),
                    ),
                ]
            },
            None => Seq::empty(),
        }
    } else {
        Seq::empty()
    };
    (CoordinatorView { nodes, ..s }, effects)
}

/// The periodic tick: expire silent peers, fall back to the commander when the
/// active node went silent, and announce this host.
pub open spec fn tick(s: CoordinatorView, now: u64) -> (CoordinatorView, Seq<EffectView>) {
    let active_expired = match s.active {
        Some(a) => node_expired(s.nodes[a], now),
        None => false,
    };
    let recover = if active_expired {
        match first_index(s.nodes, is_commander()) {
            Some(c) => seq![EffectView::ToLoopback(switch_request_view(None, s.nodes[c].name))],
            None => Seq::empty(),
        }
    } else {
        Seq::empty()
    };
    let active = match s.active {
        Some(a) => if active_expired {
            None
        } else {
            Some(s.nodes.take(a).filter(is_live(now)).len() as int)
        },
        None => None,
    };
    let me = s.nodes[0];
    let announced = match s.active {
        Some(a) => if me.commander && !active_expired {
            s.nodes[a].name
        } else {
            Seq::empty()
        },
        None => Seq::empty(),
    };
    let ping = MessageView {
        header: Some(outgoing_header(me.name, Seq::empty())),
        payload: Some(PayloadView::Ping { commander: me.commander, active_node: announced }),
    };
    (
        CoordinatorView { nodes: s.nodes.filter(is_live(now)), active, ..s },
        recover.push(EffectView::ToNet(ping)),
    )
}

/// The pressed keys after `e`.
pub open spec fn pressed_after(keys: Seq<i32>, e: InputEvent) -> Seq<i32> {
    match e.input_event_type {
        Some(InputEventType::Key(k)) => if k.down {
            if keys.contains(k.key) {
                keys
            } else {
                keys.push(k.key)
            }
        } else {
            match first_index(keys, is_key(k.key)) {
                Some(i) => keys.remove(i),
                None => keys,
            }
        },
        _ => keys,
    }
}

/// `e` presses a key that was up or releases one that was down.
pub open spec fn keys_changed(keys: Seq<i32>, e: InputEvent) -> bool {
    match e.input_event_type {
        Some(InputEventType::Key(k)) => if k.down {
            !keys.contains(k.key)
        } else {
            keys.contains(k.key)
        },
        _ => false,
    }
}

/// The node a binding switches to: its own index, or the one after the active node.
pub open spec fn binding_target(b: BindingView, active: Option<int>, len: int) -> int {
    match b.node_index {
        Some(i) => i,
        None => match active {
            Some(a) => (a + 1) % len,
            None => 0,
        },
    }
}

/// The switch request a binding makes, which it makes only when the pressed keys
/// are exactly its trigger.
pub open spec fn binding_effect(s: CoordinatorView, b: BindingView) -> Seq<EffectView> {
    let t = binding_target(b, s.active, s.nodes.len() as int);
    if same_key_set(b.keys, s.keys) && 0 <= t < s.nodes.len() {
        seq![EffectView::ToLoopback(switch_request_view(None, s.nodes[t].name))]
    } else {
        Seq::empty()
    }
}

pub open spec fn binding_effects(s: CoordinatorView, bs: Seq<BindingView>) -> Seq<EffectView>
    decreases bs.len(),
{
    if bs.len() == 0 {
        Seq::empty()
    } else {
        binding_effects(s, bs.drop_last()) + binding_effect(s, bs.last())
    }
}

/// Where an input event goes.
pub open spec fn route(s: CoordinatorView, m: MessageView, from_net: bool) -> Seq<EffectView> {
    if from_net {
        match m.header {
            Some(h) => if h.to_id == s.name() {
                seq![EffectView::ToInput(m)]
            } else {
                Seq::empty()
            },
            None => Seq::empty(),
        }
    } else {
        match s.active {
            Some(a) => if s.nodes[a].local {
                seq![EffectView::ToInput(m)]
            } else if s.nodes[0].commander {
                seq![
                    EffectView::ToNet(
                        MessageView {
                            header: Some(outgoing_header(s.name(), s.nodes[a].name)),
                            payload: m.payload,
                        },
                    ),
                ]
            } else {
                Seq::empty()
            },
            None => seq![EffectView::ToInput(m)],
        }
    }
}

pub open spec fn input(s: CoordinatorView, m: MessageView, e: InputEvent, from_net: bool) -> (
    CoordinatorView,
    Seq<EffectView>,
) {
    let s1 = CoordinatorView { keys: pressed_after(s.keys, e), ..s };
    let fired = if keys_changed(s.keys, e) && s.nodes[0].commander {
        binding_effects(s1, s.bindings)
    } else {
        Seq::empty()
    };
    (s1, fired + route(s, m, from_net))
}

/// The synthetic release of each key, in order, for the local input endpoint.
pub open spec fn releases(keys: Seq<i32>) -> Seq<EffectView> {
    keys.map_values(|k: i32| EffectView::ToInput(key_up_view(k)))
}

/// Make the node called `name` the active one.
pub open spec fn switch(s: CoordinatorView, from_net: bool, name: Seq<char>) -> (
    CoordinatorView,
    Seq<EffectView>,
) {
    match first_index(s.nodes, named(name)) {
        None => (s, Seq::empty()),
        Some(t) => if s.active == Some(t) {
            (s, Seq::empty())
        } else {
            let leaving = s.active == Some(0int);
            let release = if leaving {
                seq![EffectView::ShareClipboard] + releases(s.keys)
            } else {
                Seq::empty()
            };
            let note = EffectView::Notify(
                if t == 0 {
                    over_here()
                } else {
                    switched_to(name)
                },
            );
            let announce = if from_net {
                Seq::empty()
            } else {
                seq![
                    EffectView::ToNet(
                        switch_request_view(Some(outgoing_header(s.name(), Seq::empty())), name),
                    ),
                ]
            };
            let keys = if leaving {
                Seq::empty()
            } else {
                s.keys
            };
            (CoordinatorView { active: Some(t), keys, ..s }, release.push(note) + announce)
        },
    }
}

/// The coordinator's answer to one message at time `now`.
pub open spec fn step(s: CoordinatorView, m: MessageView, now: u64) -> (
    CoordinatorView,
    Seq<EffectView>,
) {
    match admission(s, m.header) {
        None => (s, Seq::empty()),
        Some(origin) => {
            let from_net = origin.len() != 0;
            match m.payload {
                None => (s, Seq::empty()),
                Some(PayloadView::Ping { commander, active_node }) => if from_net {
                    peer_ping(s, origin, commander, active_node, now)
                } else {
                    tick(s, now)
                },
                Some(PayloadView::Input(e)) => input(s, m, e, from_net),
                Some(PayloadView::ActiveNodeChanged { name }) => switch(s, from_net, name),
                Some(PayloadView::Clipboard { data, mime_type }) => (
                    s,
                    seq![EffectView::SetClipboard(lossy_text(data))],
                ),
            }
        },
    }
}

} // verus!
