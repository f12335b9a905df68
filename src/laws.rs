//! Properties of the coordinator that hold over every well-formed state.

use vstd::prelude::*;
use crate::message::{key_up_view, outgoing_header, switch_request_view, MessageView, PayloadView};
use crate::model::{
    admission, binding_effect, binding_target, is_commander, is_live, named, releases, step,
    BindingView, CoordinatorView, EffectView,
};
use crate::node::node_expired;
use crate::search::{
    first_index, lemma_filter_index, lemma_filter_origin, lemma_first_index_at,
    lemma_first_index_exists, lemma_first_index_some,
};

verus! {

/// A message that names this host as its sender is this host's own echo: it
/// changes nothing and causes nothing.
pub proof fn lemma_self_echo_ignored(s: CoordinatorView, m: MessageView, now: u64)
    requires
        s.wf(),
        m.header matches Some(h) && h.from_id == s.name(),
    ensures
        step(s, m, now) == (s, Seq::<EffectView>::empty()),
{
}

/// A message addressed to another node changes nothing and causes nothing.
pub proof fn lemma_foreign_address_ignored(s: CoordinatorView, m: MessageView, now: u64)
    requires
        s.wf(),
        m.header matches Some(h) && h.to_id.len() != 0 && h.to_id != s.name(),
    ensures
        step(s, m, now) == (s, Seq::<EffectView>::empty()),
{
}

/// A message this host sends to itself: no header, or one with an empty sender
/// that addresses every node or this host.
pub open spec fn is_local(s: CoordinatorView, m: MessageView) -> bool {
    admission(s, m.header) == Some(Seq::<char>::empty())
}

/// The tick of the ping timer.
pub open spec fn is_tick(s: CoordinatorView, m: MessageView) -> bool {
    is_local(s, m) && m.payload matches Some(PayloadView::Ping { .. })
}

/// On a tick, every expired node leaves the table and every other node stays.
pub proof fn lemma_expiry(s: CoordinatorView, m: MessageView, now: u64)
    requires
        s.wf(),
        is_tick(s, m),
    ensures
        ({
            let t = step(s, m, now).0;
            &&& forall|i: int, j: int|
                0 <= i < s.nodes.len() && 0 <= j < t.nodes.len() && node_expired(
                    #[trigger] s.nodes[i],
                    now,
                ) ==> #[trigger] t.nodes[j].name != s.nodes[i].name
            &&& forall|i: int|
                0 <= i < s.nodes.len() && !node_expired(#[trigger] s.nodes[i], now) ==> t.nodes.contains(
                    s.nodes[i],
                )
        }),
{
    let t = step(s, m, now).0;
    assert(t.nodes == s.nodes.filter(is_live(now)));
    assert forall|i: int, j: int|
        0 <= i < s.nodes.len() && 0 <= j < t.nodes.len() && node_expired(#[trigger] s.nodes[i], now)
            implies #[trigger] t.nodes[j].name != s.nodes[i].name by {
        let o = lemma_filter_origin(s.nodes, is_live(now), j);
        assert(o != i);
    }
    assert forall|i: int|
        0 <= i < s.nodes.len() && !node_expired(#[trigger] s.nodes[i], now) implies t.nodes.contains(
            s.nodes[i],
        ) by {
        lemma_filter_index(s.nodes, is_live(now), i);
    }
}

/// Switching away from this host releases every pressed key: the input
/// endpoint receives one synthetic key-up for each pressed key, in the order
/// they went down, and nothing else, and no key stays pressed.
pub proof fn lemma_release_on_switch_out(s: CoordinatorView, m: MessageView, now: u64)
    requires
        s.wf(),
        s.active == Some(0int),
        admission(s, m.header) is Some,
        m.payload matches Some(PayloadView::ActiveNodeChanged { .. }),
        first_index(s.nodes, named(m.payload->0->ActiveNodeChanged_name)) matches Some(t) && t > 0,
    ensures
        ({
            let (s2, e) = step(s, m, now);
            &&& s2.keys.len() == 0
            &&& s2.active != Some(0int)
            &&& e.len() > s.keys.len()
            &&& forall|i: int|
                0 <= i < s.keys.len() ==> e[i + 1] == EffectView::ToInput(
                    key_up_view(#[trigger] s.keys[i]),
                )
            &&& forall|i: int|
                0 <= i < e.len() && !(1 <= i <= s.keys.len()) ==> !(#[trigger] e[i] is ToInput)
        }),
{
    let (s2, e) = step(s, m, now);
    let k = s.keys.len();
    assert forall|i: int| 0 <= i < k implies e[i + 1] == EffectView::ToInput(
        key_up_view(#[trigger] s.keys[i]),
    ) by {
        assert(releases(s.keys)[i] == EffectView::ToInput(key_up_view(s.keys[i])));
    }
}

/// When the active node expires and the table holds a commander, the tick asks
/// for a switch to the commander, and once that request is handled the active
/// node is the commander.
pub proof fn lemma_active_recovery(
    s: CoordinatorView,
    tick_msg: MessageView,
    now: u64,
    later: u64,
)
    requires
        s.wf(),
        is_tick(s, tick_msg),
        s.active matches Some(a) && node_expired(s.nodes[a], now),
        first_index(s.nodes, is_commander()) is Some,
    ensures
        ({
            let c = first_index(s.nodes, is_commander())->0;
            let (s1, e1) = step(s, tick_msg, now);
            let request = switch_request_view(None, s.nodes[c].name);
            let s2 = step(s1, request, later).0;
            &&& e1[0] == EffectView::ToLoopback(request)
            &&& s2.active matches Some(x) && 0 <= x < s2.nodes.len() && s2.nodes[x] == s.nodes[c]
        }),
{
    let c = first_index(s.nodes, is_commander())->0;
    lemma_first_index_some(s.nodes, is_commander());
    let (s1, e1) = step(s, tick_msg, now);
    crate::coordinator::lemma_tick_wf(s, now);
    assert(s1 == crate::model::tick(s, now).0);
    assert(s1.active is None);
    lemma_filter_index(s.nodes, is_live(now), c);
    let x = s.nodes.take(c).filter(is_live(now)).len() as int;
    assert(s1.nodes[x] == s.nodes[c]);
    assert forall|j: int| 0 <= j < x implies !named(s.nodes[c].name)(#[trigger] s1.nodes[j]) by {
        assert(s1.nodes[j].name != s1.nodes[x].name);
    }
    lemma_first_index_at(s1.nodes, named(s.nodes[c].name), x);
}

/// A commander's ping that names a node this host knows, other than its active
/// node, leads to exactly one switch: the ping asks for it, handling the request
/// makes that node active, and the same ping again asks for nothing more.
pub proof fn lemma_ping_convergence(
    s: CoordinatorView,
    ping: MessageView,
    now: u64,
    later: u64,
    again: u64,
)
    requires
        s.wf(),
        ping.header matches Some(h) && h.from_id.len() != 0 && admission(s, ping.header) is Some,
        ping.payload matches Some(PayloadView::Ping { commander, .. }) && commander,
        first_index(s.nodes, named(ping.payload->0->Ping_active_node)) matches Some(x)
            && s.active != Some(x),
    ensures
        ({
            let origin = ping.header->0.from_id;
            let target = ping.payload->0->Ping_active_node;
            let x = first_index(s.nodes, named(target))->0;
            let (s1, e1) = step(s, ping, now);
            let request = switch_request_view(Some(outgoing_header(origin, Seq::empty())), target);
            let (s2, e2) = step(s1, request, later);
            let (s3, e3) = step(s2, ping, again);
            &&& e1 == seq![EffectView::ToLoopback(request)]
            &&& s2.active == Some(x)
            &&& s2.nodes[x].name == target
            &&& e3 == Seq::<EffectView>::empty()
            &&& s3.active == s2.active
        }),
{
    let origin = ping.header->0.from_id;
    let target = ping.payload->0->Ping_active_node;
    let x = first_index(s.nodes, named(target))->0;
    lemma_first_index_some(s.nodes, named(target));
    let (s1, e1) = step(s, ping, now);
    lemma_upsert_keeps_names(s, origin, true, now);
    assert forall|j: int| 0 <= j < x implies !named(target)(#[trigger] s1.nodes[j]) by {
        assert(s1.nodes[j].name == s.nodes[j].name);
    }
    lemma_first_index_at(s1.nodes, named(target), x);
    let request = switch_request_view(Some(outgoing_header(origin, Seq::empty())), target);
    let (s2, e2) = step(s1, request, later);
    assert(s2.nodes == s1.nodes);
    lemma_upsert_keeps_names(s2, origin, true, again);
    let s3 = step(s2, ping, again).0;
    assert forall|j: int| 0 <= j < x implies !named(target)(#[trigger] s3.nodes[j]) by {
        assert(s3.nodes[j].name == s2.nodes[j].name);
    }
    lemma_first_index_at(s3.nodes, named(target), x);
}

/// A ping from a peer keeps the table well formed and keeps every node's name
/// at its index.
proof fn lemma_upsert_keeps_names(s: CoordinatorView, origin: Seq<char>, commander: bool, now: u64)
    requires
        s.wf(),
        origin != s.name(),
    ensures
        ({
            let t = crate::model::peer_ping(s, origin, commander, Seq::empty(), now).0;
            &&& t.wf()
            &&& t.nodes.len() >= s.nodes.len()
            &&& t.active == s.active
            &&& forall|j: int| 0 <= j < s.nodes.len() ==> #[trigger] t.nodes[j].name == s.nodes[j].name
        }),
{
    let t = crate::model::peer_ping(s, origin, commander, Seq::empty(), now).0;
    match first_index(s.nodes, named(origin)) {
        Some(i) => {
            lemma_first_index_some(s.nodes, named(origin));
        },
        None => {
            if exists|j: int| 0 <= j < s.nodes.len() && s.nodes[j].name == origin {
                let j = choose|j: int| 0 <= j < s.nodes.len() && s.nodes[j].name == origin;
                lemma_first_index_exists(s.nodes, named(origin), j);
            }
        },
    }
}

/// A key binding fires only when the pressed keys are exactly its trigger:
/// a key held beyond the trigger keeps it silent, and the exact chord fires it
/// whenever its target node exists.
pub proof fn lemma_chord_equality(s: CoordinatorView, b: BindingView)
    requires
        s.wf(),
    ensures
        binding_effect(s, b).len() != 0 ==> b.keys.to_set() == s.keys.to_set(),
        (exists|k: i32| s.keys.contains(k) && !b.keys.contains(k)) ==> binding_effect(s, b).len()
            == 0,
        ({
            let t = binding_target(b, s.active, s.nodes.len() as int);
            b.keys.to_set() == s.keys.to_set() && 0 <= t < s.nodes.len() ==> binding_effect(s, b)
                == seq![EffectView::ToLoopback(switch_request_view(None, s.nodes[t].name))]
        }),
{
    if exists|k: i32| s.keys.contains(k) && !b.keys.contains(k) {
        let k = choose|k: i32| s.keys.contains(k) && !b.keys.contains(k);
        assert(s.keys.to_set().contains(k));
        assert(!b.keys.to_set().contains(k));
    }
}

} // verus!
