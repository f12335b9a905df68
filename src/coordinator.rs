use vstd::prelude::*;
use crate::config::Config;
use crate::keys::{contains_key, same_keys};
use crate::message::{
    outgoing_header, switch_request_view, ClipboardEvent, Header, InputEvent, InputEventType,
    Message, MessageView, Payload, PingEvent,
};
use crate::model::{
    binding_effect, binding_effects, binding_target, input, is_commander, is_key, is_live,
    keys_changed, named, peer_ping, pressed_after, releases, route, step, switch, tick,
    BindingView, CoordinatorView, EffectView,
};
use crate::node::{node_expired, Node, NodeView};
use crate::search::{
    first_index, lemma_filter_index, lemma_filter_origin, lemma_first_index_at,
    lemma_first_index_none, opt_int,
};
use crate::text::decode_text;
use vstd::utf8::encode_utf8;

verus! {

/// Something the caller has to carry out after a message was handled; see
/// [`EffectView`] for the meaning of each.
#[derive(Clone, Debug, PartialEq, Eq)]
pub enum Effect {
    ToInput(Message),
    ToNet(Message),
    ToLoopback(Message),
    ShareClipboard,
    SetClipboard(String),
    Notify(String),
}

impl View for Effect {
    type V = EffectView;

    open spec fn view(&self) -> EffectView {
        match self {
            Effect::ToInput(m) => EffectView::ToInput(m@),
            Effect::ToNet(m) => EffectView::ToNet(m@),
            Effect::ToLoopback(m) => EffectView::ToLoopback(m@),
            Effect::ShareClipboard => EffectView::ShareClipboard,
            Effect::SetClipboard(t) => EffectView::SetClipboard(t@),
            Effect::Notify(t) => EffectView::Notify(t@),
        }
    }
}

pub open spec fn effects_view(e: Seq<Effect>) -> Seq<EffectView> {
    e.map_values(|x: Effect| x@)
}

pub open spec fn nodes_view(n: Seq<Node>) -> Seq<NodeView> {
    n.map_values(|x: Node| x@)
}

/// What a key binding does: switch to a fixed node, or to the one after the
/// active node.
#[derive(Clone, Copy, Debug, PartialEq, Eq, Structural)]
pub struct ActiveNodeChangeAction {
    pub node_index: Option<usize>,
}

/// A chord of keys and the switch it triggers.
pub struct KeyBinding {
    pub keys: Vec<i32>,
    pub action: ActiveNodeChangeAction,
}

impl View for KeyBinding {
    type V = BindingView;

    open spec fn view(&self) -> BindingView {
        BindingView { keys: self.keys@, node_index: opt_int(self.action.node_index) }
    }
}

pub open spec fn bindings_view(b: Seq<KeyBinding>) -> Seq<BindingView> {
    b.map_values(|x: KeyBinding| x@)
}

/// The routing and switching engine. It owns the node table, the active node,
/// the pressed keys and the key bindings; every change to them goes through
/// [`Coordinator::handle_message`].
pub struct Coordinator {
    nodes: Vec<Node>,
    keys: Vec<i32>,
    active_node: Option<usize>,
    key_bindings: Vec<KeyBinding>,
}

impl View for Coordinator {
    type V = CoordinatorView;

    closed spec fn view(&self) -> CoordinatorView {
        CoordinatorView {
            nodes: nodes_view(self.nodes@),
            keys: self.keys@,
            active: opt_int(self.active_node),
            bindings: bindings_view(self.key_bindings@),
        }
    }
}

impl ActiveNodeChangeAction {
    pub fn for_next_node() -> (r: Self)
        ensures
            r.node_index is None,
    {
        ActiveNodeChangeAction { node_index: None }
    }

    pub fn for_node(node_index: usize) -> (r: Self)
        ensures
            r.node_index == Some(node_index),
    {
        ActiveNodeChangeAction { node_index: Some(node_index) }
    }

    /// The switch request for the node this action names, when that node exists.
    pub fn act(&self, c: &Coordinator) -> (r: Option<Message>)
        requires
            c@.wf(),
        ensures
            ({
                let t = binding_target(
                    BindingView { keys: Seq::empty(), node_index: opt_int(self.node_index) },
                    c@.active,
                    c@.nodes.len() as int,
                );
                match r {
                    Some(m) => 0 <= t < c@.nodes.len() && m@ == switch_request_view(
                        None,
                        c@.nodes[t].name,
                    ),
                    None => !(0 <= t < c@.nodes.len()),
                }
            }),
    {
        let len = c.nodes.len();
        let target = match self.node_index {
            Some(i) => i,
            None => match c.active_node {
                Some(a) => (a + 1) % len,
                None => 0,
            },
        };
        if target < len {
            Some(Message::switch_request(None, c.nodes[target].name.clone()))
        } else {
            None
        }
    }
}

impl KeyBinding {
    pub fn new(keys: Vec<i32>, action: ActiveNodeChangeAction) -> (r: Self)
        ensures
            r.keys@ == keys@,
            r.action == action,
    {
        KeyBinding { keys, action }
    }

    /// The switch request this binding makes under the coordinator's pressed keys.
    pub fn act(&self, c: &Coordinator) -> (r: Option<Message>)
        requires
            c@.wf(),
        ensures
            binding_effect(c@, self@) == match r {
                Some(m) => seq![EffectView::ToLoopback(m@)],
                None => Seq::<EffectView>::empty(),
            },
    {
        if same_keys(&self.keys, &c.keys) {
            self.action.act(c)
        } else {
            None
        }
    }
}

impl Coordinator {
    /// A coordinator for the host `name`, with this host as the only node. A
    /// commander starts out active itself; any other host has no active node.
    pub fn new(name: String, config: Config, now: u64) -> (r: Coordinator)
        ensures
            r@.wf(),
            r@.nodes == seq![
                NodeView {
                    commander: config.commander,
                    local: true,
                    name: name@,
                    last_heard_from: now,
                },
            ],
            r@.keys == Seq::<i32>::empty(),
            r@.active == (if config.commander {
                Some(0int)
            } else {
                None
            }),
            r@.bindings == seq![
                BindingView { keys: config.switch_keys@, node_index: None },
                BindingView { keys: config.commander_keys@, node_index: Some(0int) },
            ],
    {
        let commander = config.commander;
        let mut nodes: Vec<Node> = Vec::new();
        nodes.push(Node { commander, local: true, name, last_heard_from: now });
        let mut key_bindings: Vec<KeyBinding> = Vec::new();
        key_bindings.push(
            KeyBinding::new(config.switch_keys, ActiveNodeChangeAction::for_next_node()),
        );
        key_bindings.push(
            KeyBinding::new(config.commander_keys, ActiveNodeChangeAction::for_node(0)),
        );
        let r = Coordinator {
            nodes,
            keys: Vec::new(),
            active_node: if commander {
                Some(0)
            } else {
                None
            },
            key_bindings,
        };
        assert(r@.nodes =~= seq![
            NodeView { commander: config.commander, local: true, name: name@, last_heard_from: now },
        ]);
        assert(r@.bindings =~= seq![
            BindingView { keys: config.switch_keys@, node_index: None },
            BindingView { keys: config.commander_keys@, node_index: Some(0int) },
        ]);
        r
    }

    /// The name of this host.
    pub fn name(&self) -> (r: &String)
        requires
            self@.wf(),
        ensures
            r@ == self@.name(),
    {
        &self.nodes[0].name
    }

    /// The index of the active node in the node table, if there is one.
    pub fn active_node(&self) -> (r: Option<usize>)
        ensures
            opt_int(r) == self@.active,
    {
        self.active_node
    }

    /// The names in the node table, this host first.
    pub fn node_names(&self) -> (r: Vec<String>)
        ensures
            r@.len() == self@.nodes.len(),
            forall|i: int| 0 <= i < r@.len() ==> #[trigger] r@[i]@ == self@.nodes[i].name,
    {
        let mut r: Vec<String> = Vec::new();
        let mut i: usize = 0;
        while i < self.nodes.len()
            invariant
                0 <= i <= self.nodes@.len(),
                r@.len() == i,
                forall|j: int| 0 <= j < i ==> #[trigger] r@[j]@ == self@.nodes[j].name,
            decreases self.nodes@.len() - i,
        {
            r.push(self.nodes[i].name.clone());
            i = i + 1;
        }
        r
    }

    /// The keys currently held down, in the order they went down.
    pub fn pressed_keys(&self) -> (r: Vec<i32>)
        ensures
            r@ == self@.keys,
    {
        let mut r: Vec<i32> = Vec::new();
        let mut i: usize = 0;
        while i < self.keys.len()
            invariant
                0 <= i <= self.keys@.len(),
                r@ == self.keys@.take(i as int),
            decreases self.keys@.len() - i,
        {
            r.push(self.keys[i]);
            i = i + 1;
            assert(r@ =~= self.keys@.take(i as int));
        }
        assert(self.keys@.take(i as int) =~= self.keys@);
        r
    }

    fn is_active(&self, i: usize) -> (r: bool)
        ensures
            r == (self@.active == Some(i as int)),
    {
        match self.active_node {
            Some(a) => a == i,
            None => false,
        }
    }

    fn find_node(&self, name: &String) -> (r: Option<usize>)
        ensures
            opt_int(r) == first_index(self@.nodes, named(name@)),
    {
        let mut i: usize = 0;
        while i < self.nodes.len()
            invariant
                0 <= i <= self.nodes@.len(),
                forall|j: int| 0 <= j < i ==> !named(name@)(#[trigger] self@.nodes[j]),
            decreases self.nodes@.len() - i,
        {
            if self.nodes[i].name == *name {
                proof {
                    lemma_first_index_at(self@.nodes, named(name@), i as int);
                }
                return Some(i);
            }
            i = i + 1;
        }
        proof {
            lemma_first_index_none(self@.nodes, named(name@));
        }
        None
    }

    fn find_commander(&self) -> (r: Option<usize>)
        ensures
            opt_int(r) == first_index(self@.nodes, is_commander()),
    {
        let mut i: usize = 0;
        while i < self.nodes.len()
            invariant
                0 <= i <= self.nodes@.len(),
                forall|j: int| 0 <= j < i ==> !is_commander()(#[trigger] self@.nodes[j]),
            decreases self.nodes@.len() - i,
        {
            if self.nodes[i].commander {
                proof {
                    lemma_first_index_at(self@.nodes, is_commander(), i as int);
                }
                return Some(i);
            }
            i = i + 1;
        }
        proof {
            lemma_first_index_none(self@.nodes, is_commander());
        }
        None
    }

    /// The broadcast of this host's clipboard text, to be sent when the caller
    /// carries out [`Effect::ShareClipboard`].
    pub fn clipboard_message(&self, text: String) -> (r: Message)
        requires
            self@.wf(),
        ensures
            r@ == (MessageView {
                header: Some(outgoing_header(self@.name(), Seq::empty())),
                payload: Some(
                    crate::message::PayloadView::Clipboard {
                        data: encode_utf8(text@),
                        mime_type: Seq::empty(),
                    },
                ),
            }),
    {
        let data = vstd::slice::slice_to_vec(text.as_str().as_bytes());
        Message {
            header: Some(Header::outgoing(self.nodes[0].name.clone(), String::new())),
            payload: Some(Payload::ClipboardEvent(ClipboardEvent { data, mime_type: String::new() })),
        }
    }
}

impl Coordinator {
    fn handle_active_node_changed(&mut self, from_net: bool, name: &String) -> (effects: Vec<
        Effect,
    >)
        requires
            old(self)@.wf(),
        ensures
            final(self)@.wf(),
            (final(self)@, effects_view(effects@)) == switch(old(self)@, from_net, name@),
    {
        let mut effects: Vec<Effect> = Vec::new();
        let target = match self.find_node(name) {
            Some(t) => t,
            None => {
                assert(effects_view(effects@) =~= Seq::<EffectView>::empty());
                return effects;
            },
        };
        if self.is_active(target) {
            assert(effects_view(effects@) =~= Seq::<EffectView>::empty());
            return effects;
        }
        let ghost s = self@;
        proof {
            lemma_first_index_some_named(s.nodes, name@);
        }
        let leaving = self.is_active(0);
        if leaving {
            effects.push(Effect::ShareClipboard);
            let mut i: usize = 0;
            while i < self.keys.len()
                invariant
                    self@ == s,
                    0 <= i <= self.keys@.len(),
                    effects_view(effects@) =~= seq![EffectView::ShareClipboard] + releases(
                        s.keys.take(i as int),
                    ),
                decreases self.keys@.len() - i,
            {
                let ghost before = effects_view(effects@);
                effects.push(Effect::ToInput(Message::key_up(self.keys[i])));
                assert(effects_view(effects@) =~= before.push(
                    EffectView::ToInput(crate::message::key_up_view(s.keys[i as int])),
                ));
                assert(releases(s.keys.take(i + 1)) =~= releases(s.keys.take(i as int)).push(
                    EffectView::ToInput(crate::message::key_up_view(s.keys[i as int])),
                ));
                i = i + 1;
            }
            assert(s.keys.take(i as int) =~= s.keys);
            self.keys.clear();
        }
        let ghost released = effects_view(effects@);
        self.active_node = Some(target);
        let note = if target == 0 {
            "I'm over here!".to_owned()
        } else {
            let mut t = "Switched to ".to_owned();
            t.append(name.as_str());
            t
        };
        effects.push(Effect::Notify(note));
        if !from_net {
            let header = Header::outgoing(self.nodes[0].name.clone(), String::new());
            effects.push(Effect::ToNet(Message::switch_request(Some(header), name.clone())));
        }
        proof {
            let (s2, e2) = switch(s, from_net, name@);
            assert(self@.keys =~= s2.keys);
            assert(self@ =~= s2);
            assert(effects_view(effects@) =~= e2);
        }
        effects
    }

    fn handle_clipboard(&self, clipboard: &ClipboardEvent) -> (effects: Vec<Effect>)
        ensures
            effects_view(effects@) == seq![
                EffectView::SetClipboard(crate::text::lossy_text(clipboard.data@)),
            ],
    {
        let mut effects: Vec<Effect> = Vec::new();
        effects.push(Effect::SetClipboard(decode_text(&clipboard.data)));
        assert(effects_view(effects@) =~= seq![
            EffectView::SetClipboard(crate::text::lossy_text(clipboard.data@)),
        ]);
        effects
    }
}

impl Coordinator {
    /// Drops every expired node and keeps the active index on the same node,
    /// or clears it when that node was dropped.
    fn retain_live(&mut self, now: u64)
        requires
            old(self)@.wf(),
        ensures
            final(self)@.nodes == old(self)@.nodes.filter(is_live(now)),
            final(self)@.active == (match old(self)@.active {
                Some(a) => if node_expired(old(self)@.nodes[a], now) {
                    None
                } else {
                    Some(old(self)@.nodes.take(a).filter(is_live(now)).len() as int)
                },
                None => None,
            }),
            final(self)@.keys == old(self)@.keys,
            final(self)@.bindings == old(self)@.bindings,
    {
        let ghost s = self@;
        let mut i: usize = 0;
        let mut k: usize = 0;
        let mut new_active: Option<usize> = None;
        let total = self.nodes.len();
        while i < self.nodes.len()
            invariant
                s.nodes.len() == total,
                self@.keys == s.keys,
                self@.bindings == s.bindings,
                s.active == opt_int(self.active_node),
                0 <= i <= k <= s.nodes.len(),
                self@.nodes.len() - i == s.nodes.len() - k,
                self@.nodes.take(i as int) == s.nodes.take(k as int).filter(is_live(now)),
                self@.nodes.skip(i as int) == s.nodes.skip(k as int),
                opt_int(new_active) == (match s.active {
                    Some(a) => if a < k && !node_expired(s.nodes[a], now) {
                        Some(s.nodes.take(a).filter(is_live(now)).len() as int)
                    } else {
                        None
                    },
                    None => None,
                }),
                s.active matches Some(a) ==> 0 <= a < s.nodes.len(),
            decreases self@.nodes.len() - i,
        {
            let ghost before = self@.nodes;
            assert(before[i as int] == s.nodes[k as int]) by {
                assert(before.skip(i as int)[0] == s.nodes.skip(k as int)[0]);
            }
            assert(s.nodes.take(k + 1).drop_last() =~= s.nodes.take(k as int));
            proof {
                reveal(Seq::filter);
            }
            let ghost cut = s.nodes.take(k + 1);
            assert(cut.last() == s.nodes[k as int]);
            assert(before[i as int] == self.nodes@[i as int]@);
            assert(is_live(now)(s.nodes[k as int]) == !node_expired(s.nodes[k as int], now));
            if self.nodes[i].expired(now) {
                assert(!is_live(now)(s.nodes[k as int]));
                assert(cut.filter(is_live(now)) == s.nodes.take(k as int).filter(is_live(now)));
                self.nodes.remove(i);
                assert(self@.nodes =~= before.remove(i as int));
                assert(self@.nodes.take(i as int) =~= before.take(i as int));
                assert forall|m: int| 0 <= m < self@.nodes.skip(i as int).len() implies
                    #[trigger] self@.nodes.skip(i as int)[m] == s.nodes.skip(k + 1)[m] by {
                    assert(before.skip(i as int)[m + 1] == s.nodes.skip(k as int)[m + 1]);
                }
                assert(self@.nodes.skip(i as int) =~= s.nodes.skip(k + 1));
            } else {
                if self.is_active(k) {
                    assert(self@.nodes.take(i as int).len() == i);
                    new_active = Some(i);
                } else {
                    assert(s.active != Some(k as int));
                }
                assert(is_live(now)(s.nodes[k as int]));
                assert(cut.filter(is_live(now)) == s.nodes.take(k as int).filter(is_live(now)).push(s.nodes[k as int]));
                i = i + 1;
                assert(self@.nodes.take(i as int) =~= before.take(i - 1).push(before[i - 1]));
                assert forall|m: int| 0 <= m < self@.nodes.skip(i as int).len() implies
                    #[trigger] self@.nodes.skip(i as int)[m] == s.nodes.skip(k + 1)[m] by {
                    assert(before.skip(i - 1)[m + 1] == s.nodes.skip(k as int)[m + 1]);
                }
                assert(self@.nodes.skip(i as int) =~= s.nodes.skip(k + 1));
            }
            k = k + 1;
        }
        assert(self@.nodes.take(i as int) =~= self@.nodes);
        assert(s.nodes.take(k as int) =~= s.nodes);
        self.active_node = new_active;
    }

    fn handle_tick(&mut self, now: u64) -> (effects: Vec<Effect>)
        requires
            old(self)@.wf(),
        ensures
            final(self)@.wf(),
            (final(self)@, effects_view(effects@)) == tick(old(self)@, now),
    {
        let ghost s = self@;
        let mut effects: Vec<Effect> = Vec::new();
        let active_expired = match self.active_node {
            Some(a) => self.nodes[a].expired(now),
            None => false,
        };
        if active_expired {
            match self.find_commander() {
                Some(c) => {
                    effects.push(
                        Effect::ToLoopback(
                            Message::switch_request(None, self.nodes[c].name.clone()),
                        ),
                    );
                },
                None => {},
            }
        }
        let me_commander = self.nodes[0].commander;
        let me_name = self.nodes[0].name.clone();
        let announced = match self.active_node {
            Some(a) => if me_commander && !active_expired {
                self.nodes[a].name.clone()
            } else {
                String::new()
            },
            None => String::new(),
        };
        let ghost recover = effects_view(effects@);
        self.retain_live(now);
        let ping = Message {
            header: Some(Header::outgoing(me_name, String::new())),
            payload: Some(Payload::PingEvent(PingEvent { commander: me_commander, active_node: announced })),
        };
        effects.push(Effect::ToNet(ping));
        proof {
            let (s2, e2) = tick(s, now);
            assert(effects_view(effects@) =~= e2);
            assert(self@ =~= s2);
            lemma_tick_wf(s, now);
        }
        effects
    }
}

impl Coordinator {
    fn handle_peer_ping(&mut self, origin: &String, ping: &PingEvent, now: u64) -> (effects: Vec<
        Effect,
    >)
        requires
            old(self)@.wf(),
            origin@ != old(self)@.name(),
        ensures
            final(self)@.wf(),
            (final(self)@, effects_view(effects@)) == peer_ping(
                old(self)@,
                origin@,
                ping.commander,
                ping.active_node@,
                now,
            ),
    {
        let ghost s = self@;
        match self.find_node(origin) {
            Some(i) => {
                proof {
                    lemma_first_index_some_named(s.nodes, origin@);
                }
                let local = self.nodes[i].local;
                let name = self.nodes[i].name.clone();
                self.nodes[i] = Node { commander: ping.commander, local, name, last_heard_from: now };
                proof {
                    assert(self@.nodes =~= s.nodes.update(
                        i as int,
                        NodeView { commander: ping.commander, last_heard_from: now, ..s.nodes[i as int] },
                    ));
                }
            },
            None => {
                proof {
                    if exists|j: int| 0 <= j < s.nodes.len() && s.nodes[j].name == origin@ {
                        let j = choose|j: int| 0 <= j < s.nodes.len() && s.nodes[j].name == origin@;
                        crate::search::lemma_first_index_exists(s.nodes, named(origin@), j);
                    }
                }
                self.nodes.push(
                    Node {
                        commander: ping.commander,
                        local: false,
                        name: origin.clone(),
                        last_heard_from: now,
                    },
                );
                proof {
                    assert(self@.nodes =~= s.nodes.push(
                        NodeView {
                            commander: ping.commander,
                            local: false,
                            name: origin@,
                            last_heard_from: now,
                        },
                    ));
                }
            },
        }
        let mut effects: Vec<Effect> = Vec::new();
        if ping.commander {
            match self.find_node(&ping.active_node) {
                Some(x) => {
                    if !self.is_active(x) {
                        let header = Header::outgoing(origin.clone(), String::new());
                        effects.push(
                            Effect::ToLoopback(
                                Message::switch_request(Some(header), ping.active_node.clone()),
                            ),
                        );
                    }
                },
                None => {},
            }
        }
        proof {
            let (s2, e2) = peer_ping(s, origin@, ping.commander, ping.active_node@, now);
            assert(self@ =~= s2);
            assert(effects_view(effects@) =~= e2);
        }
        effects
    }
}

fn no_effects() -> (r: Vec<Effect>)
    ensures
        effects_view(r@) == Seq::<EffectView>::empty(),
{
    let r: Vec<Effect> = Vec::new();
    assert(effects_view(r@) =~= Seq::<EffectView>::empty());
    r
}

impl Coordinator {
    fn key_index(&self, key: i32) -> (r: Option<usize>)
        ensures
            opt_int(r) == first_index(self@.keys, is_key(key)),
    {
        let mut i: usize = 0;
        while i < self.keys.len()
            invariant
                0 <= i <= self.keys@.len(),
                forall|j: int| 0 <= j < i ==> !is_key(key)(#[trigger] self@.keys[j]),
            decreases self.keys@.len() - i,
        {
            if self.keys[i] == key {
                proof {
                    lemma_first_index_at(self@.keys, is_key(key), i as int);
                }
                return Some(i);
            }
            i = i + 1;
        }
        proof {
            lemma_first_index_none(self@.keys, is_key(key));
        }
        None
    }

    /// Records a key going down or up; says whether the pressed keys changed.
    fn track_keys(&mut self, event: InputEvent) -> (changed: bool)
        requires
            old(self)@.wf(),
        ensures
            final(self)@.wf(),
            final(self)@ == (CoordinatorView {
                keys: pressed_after(old(self)@.keys, event),
                ..old(self)@
            }),
            changed == keys_changed(old(self)@.keys, event),
    {
        let ghost s = self@;
        match event.input_event_type {
            Some(InputEventType::Key(k)) => {
                if k.down {
                    if contains_key(&self.keys, k.key) {
                        false
                    } else {
                        self.keys.push(k.key);
                        assert(self@ =~= CoordinatorView { keys: pressed_after(s.keys, event), ..s });
                        true
                    }
                } else {
                    match self.key_index(k.key) {
                        Some(i) => {
                            proof {
                                crate::search::lemma_first_index_some(s.keys, is_key(k.key));
                                assert(s.keys.contains(k.key));
                            }
                            self.keys.remove(i);
                            proof {
                                let r = s.keys.remove(i as int);
                                assert forall|a: int, b: int|
                                    0 <= a < r.len() && 0 <= b < r.len() && a != b implies r[a]
                                    != r[b] by {
                                    let oa = if a < i { a } else { a + 1 };
                                    let ob = if b < i { b } else { b + 1 };
                                    assert(r[a] == s.keys[oa]);
                                    assert(r[b] == s.keys[ob]);
                                }
                                assert(self@ =~= CoordinatorView { keys: pressed_after(s.keys, event), ..s });
                            }
                            true
                        },
                        None => {
                            proof {
                                if s.keys.contains(k.key) {
                                    let j = choose|j: int| 0 <= j < s.keys.len() && s.keys[j] == k.key;
                                    crate::search::lemma_first_index_exists(s.keys, is_key(k.key), j);
                                }
                            }
                            false
                        },
                    }
                }
            },
            _ => false,
        }
    }

    fn handle_input(&mut self, message: Message, event: InputEvent, from_net: bool) -> (effects: Vec<
        Effect,
    >)
        requires
            old(self)@.wf(),
            message@.payload == Some(crate::message::PayloadView::Input(event)),
        ensures
            final(self)@.wf(),
            (final(self)@, effects_view(effects@)) == input(old(self)@, message@, event, from_net),
    {
        let ghost s = self@;
        let changed = self.track_keys(event);
        let ghost s1 = self@;
        let mut effects: Vec<Effect> = Vec::new();
        assert(effects_view(effects@) =~= Seq::<EffectView>::empty());
        if changed && self.nodes[0].commander {
            let mut j: usize = 0;
            while j < self.key_bindings.len()
                invariant
                    self@ == s1,
                    s1.wf(),
                    0 <= j <= s1.bindings.len(),
                    effects_view(effects@) == binding_effects(s1, s1.bindings.take(j as int)),
                decreases s1.bindings.len() - j,
            {
                let ghost before = effects_view(effects@);
                assert(s1.bindings.take(j + 1).drop_last() =~= s1.bindings.take(j as int));
                assert(s1.bindings[j as int] == self.key_bindings@[j as int]@);
                match self.key_bindings[j].act(self) {
                    Some(m) => {
                        effects.push(Effect::ToLoopback(m));
                        assert(effects_view(effects@) =~= before.push(EffectView::ToLoopback(m@)));
                    },
                    None => {},
                }
                j = j + 1;
                assert(effects_view(effects@) =~= binding_effects(s1, s1.bindings.take(j as int)));
            }
            assert(s1.bindings.take(j as int) =~= s1.bindings);
        }
        let ghost fired = effects_view(effects@);
        if from_net {
            let to_me = match &message.header {
                Some(h) => h.to_id == self.nodes[0].name,
                None => false,
            };
            if to_me {
                effects.push(Effect::ToInput(message));
            }
        } else {
            match self.active_node {
                Some(a) => {
                    if self.nodes[a].local {
                        effects.push(Effect::ToInput(message));
                    } else if self.nodes[0].commander {
                        let to_id = self.nodes[a].name.clone();
                        let header = Header::outgoing(self.nodes[0].name.clone(), to_id);
                        effects.push(
                            Effect::ToNet(Message { header: Some(header), payload: message.payload }),
                        );
                    }
                },
                None => {
                    effects.push(Effect::ToInput(message));
                },
            }
        }
        proof {
            let (s2, e2) = input(s, message@, event, from_net);
            assert(effects_view(effects@) =~= fired + route(s, message@, from_net));
            assert(effects_view(effects@) =~= e2);
        }
        effects
    }

    /// Handles one message at time `now` (nanoseconds on the caller's monotonic
    /// clock) and returns the effects the caller has to carry out, in order.
    pub fn handle_message(&mut self, message: Message, now: u64) -> (effects: Vec<Effect>)
        requires
            old(self)@.wf(),
        ensures
            final(self)@.wf(),
            (final(self)@, effects_view(effects@)) == step(old(self)@, message@, now),
    {
        let mut origin = String::new();
        match &message.header {
            Some(h) => {
                if h.from_id == self.nodes[0].name {
                    return no_effects();
                }
                if !h.to_id.as_str().is_empty() && h.to_id != self.nodes[0].name {
                    return no_effects();
                }
                origin = h.from_id.clone();
            },
            None => {},
        }
        let from_net = !origin.as_str().is_empty();
        match &message.payload {
            None => no_effects(),
            Some(Payload::PingEvent(p)) => {
                if from_net {
                    self.handle_peer_ping(&origin, p, now)
                } else {
                    self.handle_tick(now)
                }
            },
            Some(Payload::InputEvent(e)) => {
                let event = *e;
                self.handle_input(message, event, from_net)
            },
            Some(Payload::ActiveNodeChangedEvent(a)) => {
                self.handle_active_node_changed(from_net, &a.name)
            },
            Some(Payload::ClipboardEvent(c)) => self.handle_clipboard(c),
        }
    }
}

/// The tick keeps the table well formed.
pub proof fn lemma_tick_wf(s: CoordinatorView, now: u64)
    requires
        s.wf(),
    ensures
        tick(s, now).0.wf(),
{
    let keep = is_live(now);
    let t = tick(s, now).0;
    let f = s.nodes.filter(keep);
    assert(keep(s.nodes[0]));
    assert(s.nodes.take(0).filter(keep) =~= Seq::<NodeView>::empty()) by {
        reveal(Seq::filter);
    }
    lemma_filter_index(s.nodes, keep, 0);
    assert forall|j: int| 0 <= j < f.len() implies (#[trigger] f[j].local <==> j == 0) by {
        let i = lemma_filter_origin(s.nodes, keep, j);
        if i == 0 {
            assert(s.nodes.take(i) =~= s.nodes.take(0));
        }
    }
    assert forall|j1: int, j2: int|
        0 <= j1 < f.len() && 0 <= j2 < f.len() && j1 != j2 implies #[trigger] f[j1].name
        != #[trigger] f[j2].name by {
        let i1 = lemma_filter_origin(s.nodes, keep, j1);
        let i2 = lemma_filter_origin(s.nodes, keep, j2);
    }
    if let Some(a) = s.active {
        if !node_expired(s.nodes[a], now) {
            lemma_filter_index(s.nodes, keep, a);
        }
    }
}

/// A node found by name satisfies the name test at its index.
proof fn lemma_first_index_some_named(nodes: Seq<NodeView>, name: Seq<char>)
    ensures
        first_index(nodes, named(name)) matches Some(t) ==> 0 <= t < nodes.len() && nodes[t].name
            == name,
{
    if first_index(nodes, named(name)) is Some {
        crate::search::lemma_first_index_some(nodes, named(name));
    }
}

} // verus!
