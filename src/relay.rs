//! Decisions of the input daemon, which sits between the local input device and
//! the coordinator.

use vstd::prelude::*;
use crate::message::{Header, InputEvent, Message, Payload, Timestamp};

verus! {

/// What the input daemon does with an event read from the device.
#[derive(Clone, Debug, PartialEq, Eq)]
pub enum RelayAction {
    /// Send the message to the coordinator.
    Send(Message),
    /// Play the event on the local device.
    Play(InputEvent),
}

/// On the commander, events read from the device are numbered and sent to the
/// coordinator; elsewhere they are played back. Events the coordinator sends
/// are played on the device.
pub struct InputRelay {
    commander: bool,
    sequence_counter: u64,
    sequence_tracker: u64,
}

impl InputRelay {
    /// Whether this daemon runs on the commander.
    pub closed spec fn is_commander(&self) -> bool {
        self.commander
    }

    /// The number given to the last event sent.
    pub closed spec fn sent(&self) -> u64 {
        self.sequence_counter
    }

    /// The number of the last numbered event received.
    pub closed spec fn received(&self) -> u64 {
        self.sequence_tracker
    }

    pub fn new(commander: bool) -> (r: InputRelay)
        ensures
            r.is_commander() == commander,
            r.sent() == 0,
            r.received() == 0,
    {
        InputRelay { commander, sequence_counter: 0, sequence_tracker: 0 }
    }

    /// An event read from the local device at `time`. The numbering wraps
    /// around after the largest `u64`.
    pub fn on_device_event(&mut self, event: InputEvent, time: Timestamp) -> (r: RelayAction)
        ensures
            final(self).is_commander() == old(self).is_commander(),
            final(self).received() == old(self).received(),
            old(self).is_commander() ==> {
                &&& final(self).sent() == (if old(self).sent() == u64::MAX {
                    0
                } else {
                    old(self).sent() + 1
                })
                &&& r matches RelayAction::Send(m) && m@ == (crate::message::MessageView {
                    header: Some(
                        crate::message::HeaderView {
                            from_id: Seq::empty(),
                            to_id: Seq::empty(),
                            sequence: final(self).sent(),
                            time: Some(time),
                        },
                    ),
                    payload: Some(crate::message::PayloadView::Input(event)),
                })
            },
            !old(self).is_commander() ==> final(self).sent() == old(self).sent() && r
                == RelayAction::Play(event),
    {
        if self.commander {
            self.sequence_counter = if self.sequence_counter == u64::MAX {
                0
            } else {
                self.sequence_counter + 1
            };
            let header = Header {
                from_id: String::new(),
                to_id: String::new(),
                sequence: self.sequence_counter,
                time: Some(time),
            };
            RelayAction::Send(
                Message { header: Some(header), payload: Some(Payload::InputEvent(event)) },
            )
        } else {
            RelayAction::Play(event)
        }
    }

    /// A message from the coordinator: the input event to play, if it carries
    /// one, and whether its number follows the last one received.
    pub fn on_message(&mut self, m: &Message) -> (r: Option<(InputEvent, bool)>)
        ensures
            final(self).is_commander() == old(self).is_commander(),
            final(self).sent() == old(self).sent(),
            match m.payload {
                Some(Payload::InputEvent(e)) => match m.header {
                    Some(h) => {
                        &&& final(self).received() == h.sequence
                        &&& r == Some((e, h.sequence == old(self).received() + 1))
                    },
                    None => final(self).received() == old(self).received() && r == Some((e, true)),
                },
                _ => final(self).received() == old(self).received() && r is None,
            },
    {
        match &m.payload {
            Some(Payload::InputEvent(e)) => {
                match &m.header {
                    Some(h) => {
                        let in_order = self.sequence_tracker < u64::MAX && h.sequence
                            == self.sequence_tracker + 1;
                        self.sequence_tracker = h.sequence;
                        Some((*e, in_order))
                    },
                    None => Some((*e, true)),
                }
            },
            _ => None,
        }
    }
}

} // verus!
