//! Conversion between input events and the Linux evdev records that the
//! local input device reads and writes.

use vstd::prelude::*;
use crate::message::{InputEvent, InputEventType, KeyEvent, MouseMoveEvent, Timestamp};

verus! {

pub const EV_SYN: u16 = 0;
pub const EV_KEY: u16 = 1;
pub const EV_REL: u16 = 2;
pub const EV_ABS: u16 = 3;
pub const SYN_REPORT: u16 = 0;
pub const REL_X: u16 = 0;
pub const REL_Y: u16 = 1;
pub const REL_WHEEL: u16 = 8;
pub const ABS_X: u16 = 0;
pub const ABS_Y: u16 = 1;

#[derive(Clone, Copy, Debug, PartialEq, Eq, Structural)]
pub struct TimeVal {
    pub tv_sec: i64,
    pub tv_usec: i64,
}

/// One evdev record: type, code and value, with the time it was read.
#[derive(Clone, Copy, Debug, PartialEq, Eq, Structural)]
pub struct RawEvent {
    pub type_: u16,
    pub code: u16,
    pub value: i32,
    pub time: TimeVal,
}

pub open spec fn raw(type_: u16, code: u16, value: i32) -> RawEvent {
    RawEvent { type_, code, value, time: TimeVal { tv_sec: 0, tv_usec: 0 } }
}

/// The record that ends a batch of records.
pub open spec fn syn_report() -> RawEvent {
    raw(EV_SYN, SYN_REPORT, 0)
}

pub open spec fn flag(down: bool) -> i32 {
    if down {
        1
    } else {
        0
    }
}

/// The record written for an input event.
pub open spec fn raw_of(t: InputEventType) -> RawEvent {
    match t {
        InputEventType::Key(e) => raw(EV_KEY, e.key as u16, flag(e.down)),
        InputEventType::Button(e) => raw(EV_KEY, e.button as u16, flag(e.down)),
        InputEventType::Wheel(e) => raw(EV_REL, REL_WHEEL, e.delta),
        InputEventType::X(e) => raw(EV_REL, REL_X, e.delta),
        InputEventType::Y(e) => raw(EV_REL, REL_Y, e.delta),
    }
}

/// The input event a record read from the device stands for; autorepeats and
/// other records stand for none.
pub open spec fn event_of(r: RawEvent) -> Option<InputEventType> {
    if r.type_ == EV_REL && r.code == REL_WHEEL {
        Some(InputEventType::Wheel(MouseMoveEvent { delta: r.value }))
    } else if r.type_ == EV_REL && r.code == REL_X {
        Some(InputEventType::X(MouseMoveEvent { delta: r.value }))
    } else if r.type_ == EV_REL && r.code == REL_Y {
        Some(InputEventType::Y(MouseMoveEvent { delta: r.value }))
    } else if r.type_ == EV_KEY && (r.value == 0 || r.value == 1) {
        Some(InputEventType::Key(KeyEvent { key: r.code as i32, down: r.value == 1 }))
    } else {
        None
    }
}

impl InputEvent {
    pub fn to_raw(self) -> (r: RawEvent)
        requires
            self.input_event_type is Some,
        ensures
            r == raw_of(self.input_event_type->0),
    {
        let (type_, code, value) = match self.input_event_type {
            Some(InputEventType::Key(e)) => (EV_KEY, e.key as u16, if e.down { 1i32 } else { 0i32 }),
            Some(InputEventType::Button(e)) => (
                EV_KEY,
                e.button as u16,
                if e.down { 1i32 } else { 0i32 },
            ),
            Some(InputEventType::Wheel(e)) => (EV_REL, REL_WHEEL, e.delta),
            Some(InputEventType::X(e)) => (EV_REL, REL_X, e.delta),
            Some(InputEventType::Y(e)) => (EV_REL, REL_Y, e.delta),
            None => (EV_SYN, SYN_REPORT, 0i32),
        };
        RawEvent { type_, code, value, time: TimeVal { tv_sec: 0, tv_usec: 0 } }
    }

    /// The event a record read from the device stands for, with the time it was
    /// read.
    pub fn from_raw(r: RawEvent) -> (res: Option<(InputEvent, Timestamp)>)
        ensures
            match res {
                Some((e, t)) => {
                    &&& event_of(r) is Some
                    &&& e.input_event_type == event_of(r)
                    &&& t.seconds == r.time.tv_sec
                    &&& 0 <= r.time.tv_usec < 1_000_000 ==> t.nanos == r.time.tv_usec * 1000
                },
                None => event_of(r) is None,
            },
    {
        let kind = if r.type_ == EV_REL && r.code == REL_WHEEL {
            Some(InputEventType::Wheel(MouseMoveEvent { delta: r.value }))
        } else if r.type_ == EV_REL && r.code == REL_X {
            Some(InputEventType::X(MouseMoveEvent { delta: r.value }))
        } else if r.type_ == EV_REL && r.code == REL_Y {
            Some(InputEventType::Y(MouseMoveEvent { delta: r.value }))
        } else if r.type_ == EV_KEY && r.value == 0 {
            Some(InputEventType::Key(KeyEvent { key: r.code as i32, down: false }))
        } else if r.type_ == EV_KEY && r.value == 1 {
            Some(InputEventType::Key(KeyEvent { key: r.code as i32, down: true }))
        } else {
            None
        };
        match kind {
            None => None,
            Some(k) => {
                let nanos = if 0 <= r.time.tv_usec && r.time.tv_usec < 1_000_000 {
                    (r.time.tv_usec * 1000) as i32
                } else {
                    r.time.tv_usec.wrapping_mul(1000) as i32
                };
                Some(
                    (
                        InputEvent { input_event_type: Some(k) },
                        Timestamp { seconds: r.time.tv_sec, nanos },
                    ),
                )
            },
        }
    }
}

/// Collects the records to be written to the virtual input device, in order;
/// the caller hands them to the device with [`EventWriter::take_queued`].
pub struct EventWriter {
    queued: Vec<RawEvent>,
}

impl EventWriter {
    /// The records still to be written.
    pub closed spec fn pending(&self) -> Seq<RawEvent> {
        self.queued@
    }

    /// A writer for a freshly created device, whose pointer is first moved to
    /// the origin.
    pub fn new() -> (r: Self)
        ensures
            r.pending() == seq![raw(EV_ABS, ABS_X, 0), syn_report(), raw(EV_ABS, ABS_Y, 0), syn_report()],
    {
        let mut w = EventWriter { queued: Vec::new() };
        w.write_raw(RawEvent { type_: EV_ABS, code: ABS_X, value: 0, time: TimeVal { tv_sec: 0, tv_usec: 0 } });
        w.write_raw(RawEvent { type_: EV_ABS, code: ABS_Y, value: 0, time: TimeVal { tv_sec: 0, tv_usec: 0 } });
        assert(w.pending() =~= seq![raw(EV_ABS, ABS_X, 0), syn_report(), raw(EV_ABS, ABS_Y, 0), syn_report()]);
        w
    }

    pub fn write(&mut self, event: InputEvent)
        requires
            event.input_event_type is Some,
        ensures
            final(self).pending() == old(self).pending() + seq![
                raw_of(event.input_event_type->0),
                syn_report(),
            ],
    {
        self.write_raw(event.to_raw())
    }

    /// Queues `event` followed by the record that ends the batch.
    pub fn write_raw(&mut self, event: RawEvent)
        ensures
            final(self).pending() == old(self).pending() + seq![event, syn_report()],
    {
        self.queued.push(event);
        self.queued.push(RawEvent { type_: EV_SYN, code: SYN_REPORT, value: 0, time: TimeVal { tv_sec: 0, tv_usec: 0 } });
        assert(self.pending() =~= old(self).pending() + seq![event, syn_report()]);
    }

    /// Hands over the queued records and empties the queue.
    pub fn take_queued(&mut self) -> (r: Vec<RawEvent>)
        ensures
            r@ == old(self).pending(),
            final(self).pending() == Seq::<RawEvent>::empty(),
    {
        let mut r: Vec<RawEvent> = Vec::new();
        std::mem::swap(&mut r, &mut self.queued);
        r
    }
}

} // verus!
