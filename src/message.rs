use vstd::prelude::*;

verus! {

/// A point in time as seconds and nanoseconds.
#[derive(Clone, Copy, Debug, PartialEq, Eq, Structural)]
pub struct Timestamp {
    pub seconds: i64,
    pub nanos: i32,
}

#[derive(Clone, Copy, Debug, PartialEq, Eq, Structural)]
pub struct KeyEvent {
    pub key: i32,
    pub down: bool,
}

#[derive(Clone, Copy, Debug, PartialEq, Eq, Structural)]
pub struct ButtonEvent {
    pub button: i32,
    pub down: bool,
}

#[derive(Clone, Copy, Debug, PartialEq, Eq, Structural)]
pub struct MouseMoveEvent {
    pub delta: i32,
}

/// What a captured input event reports.
#[derive(Clone, Copy, Debug, PartialEq, Eq, Structural)]
pub enum InputEventType {
    Key(KeyEvent),
    Button(ButtonEvent),
    Wheel(MouseMoveEvent),
    X(MouseMoveEvent),
    Y(MouseMoveEvent),
}

/// A captured or synthesised input event; the kind is absent when the sender
/// left it out.
#[derive(Clone, Copy, Debug, PartialEq, Eq, Structural)]
pub struct InputEvent {
    pub input_event_type: Option<InputEventType>,
}

/// Addressing of a message. An empty `to_id` addresses every node.
/// `sequence` and `time` are informational only.
#[derive(Clone, Debug, PartialEq, Eq)]
pub struct Header {
    pub from_id: String,
    pub to_id: String,
    pub sequence: u64,
    pub time: Option<Timestamp>,
}

#[derive(Clone, Debug, PartialEq, Eq)]
pub struct PingEvent {
    pub commander: bool,
    pub active_node: String,
}

#[derive(Clone, Debug, PartialEq, Eq)]
pub struct ActiveNodeChangedEvent {
    pub name: String,
}

#[derive(Clone, Debug, PartialEq, Eq)]
pub struct ClipboardEvent {
    pub data: Vec<u8>,
    pub mime_type: String,
}

#[derive(Clone, Debug, PartialEq, Eq)]
pub enum Payload {
    PingEvent(PingEvent),
    InputEvent(InputEvent),
    ActiveNodeChangedEvent(ActiveNodeChangedEvent),
    ClipboardEvent(ClipboardEvent),
}

/// Everything that travels between the coordinator, the input endpoint and the
/// network.
#[derive(Clone, Debug, PartialEq, Eq)]
pub struct Message {
    pub header: Option<Header>,
    pub payload: Option<Payload>,
}

pub ghost struct HeaderView {
    pub from_id: Seq<char>,
    pub to_id: Seq<char>,
    pub sequence: u64,
    pub time: Option<Timestamp>,
}

pub ghost enum PayloadView {
    Ping { commander: bool, active_node: Seq<char> },
    Input(InputEvent),
    ActiveNodeChanged { name: Seq<char> },
    Clipboard { data: Seq<u8>, mime_type: Seq<char> },
}

pub ghost struct MessageView {
    pub header: Option<HeaderView>,
    pub payload: Option<PayloadView>,
}

impl View for Header {
    type V = HeaderView;

    open spec fn view(&self) -> HeaderView {
        HeaderView {
            from_id: self.from_id@,
            to_id: self.to_id@,
            sequence: self.sequence,
            time: self.time,
        }
    }
}

impl View for Payload {
    type V = PayloadView;

    open spec fn view(&self) -> PayloadView {
        match self {
            Payload::PingEvent(p) => PayloadView::Ping {
                commander: p.commander,
                active_node: p.active_node@,
            },
            Payload::InputEvent(e) => PayloadView::Input(*e),
            Payload::ActiveNodeChangedEvent(a) => PayloadView::ActiveNodeChanged { name: a.name@ },
            Payload::ClipboardEvent(c) => PayloadView::Clipboard {
                data: c.data@,
                mime_type: c.mime_type@,
            },
        }
    }
}

impl View for Message {
    type V = MessageView;

    open spec fn view(&self) -> MessageView {
        MessageView {
            header: match self.header {
                Some(h) => Some(h@),
                None => None,
            },
            payload: match self.payload {
                Some(p) => Some(p@),
                None => None,
            },
        }
    }
}

/// A header that names this host as sender and `to_id` as recipient.
pub open spec fn outgoing_header(from_id: Seq<char>, to_id: Seq<char>) -> HeaderView {
    HeaderView { from_id, to_id, sequence: 0, time: None }
}

/// The synthetic release of `key`.
pub open spec fn key_up_view(key: i32) -> MessageView {
    MessageView {
        header: None,
        payload: Some(PayloadView::Input(InputEvent {
            input_event_type: Some(InputEventType::Key(KeyEvent { key, down: false })),
        })),
    }
}

/// A request to make the node called `name` the active one.
pub open spec fn switch_request_view(header: Option<HeaderView>, name: Seq<char>) -> MessageView {
    MessageView { header, payload: Some(PayloadView::ActiveNodeChanged { name }) }
}

impl Header {
    pub fn outgoing(from_id: String, to_id: String) -> (r: Header)
        ensures
            r@ == outgoing_header(from_id@, to_id@),
    {
        Header { from_id, to_id, sequence: 0, time: None }
    }
}

impl Message {
    pub fn key_up(key: i32) -> (r: Message)
        ensures
            r@ == key_up_view(key),
    {
        Message {
            header: None,
            payload: Some(Payload::InputEvent(InputEvent {
                input_event_type: Some(InputEventType::Key(KeyEvent { key, down: false })),
            })),
        }
    }

    pub fn switch_request(header: Option<Header>, name: String) -> (r: Message)
        ensures
            r@ == switch_request_view(
                match header {
                    Some(h) => Some(h@),
                    None => None,
                },
                name@,
            ),
    {
        Message {
            header,
            payload: Some(Payload::ActiveNodeChangedEvent(ActiveNodeChangedEvent { name })),
        }
    }
}

} // verus!
