use vstd::prelude::*;

use crate::bus::{has_id, Bus};
use crate::inbound::{classify_inbound, json_parses, Directive};

verus! {

/// What happened on one subscriber connection.
#[derive(Clone, Debug)]
pub enum SessionEvent {
    /// The client sent a text message.
    Text(String),
    /// The client sent a frame that is not text (binary, ping, pong).
    NonText,
    /// The client closed the connection.
    PeerClosed,
    /// Reading from the connection failed.
    ReadFailed,
    /// Writing a message to the connection failed.
    WriteFailed,
}

/// Whether the event ends the session: the inbound loop ended, or the
/// outbound loop could not write.
pub open spec fn ends_session(ev: SessionEvent) -> bool {
    match ev {
        SessionEvent::PeerClosed | SessionEvent::ReadFailed | SessionEvent::WriteFailed => true,
        _ => false,
    }
}

/// One live subscriber connection: the handle it holds on the bus, and
/// whether its loops still run.
pub struct Session {
    handle: u64,
    open: bool,
}

impl Session {
    pub closed spec fn handle_id(&self) -> u64 {
        self.handle
    }

    pub closed spec fn is_open(&self) -> bool {
        self.open
    }

    /// Starts a session for a new connection: subscribes a fresh handle on
    /// the bus, which sees only what is published from now on.
    pub fn open(bus: &mut Bus) -> (r: Session)
        requires
            old(bus).wf(),
            old(bus).next() < u64::MAX,
        ensures
            final(bus).wf(),
            final(bus).cap() == old(bus).cap(),
            r.is_open(),
            r.handle_id() == old(bus).next(),
            !has_id(old(bus).subs(), r.handle_id()),
            final(bus).subs() == old(bus).subs().push((r.handle_id(), Seq::<Seq<char>>::empty())),
    {
        let id = bus.subscribe();
        Session { handle: id, open: true }
    }

    /// The id of this session's handle on the bus.
    pub fn handle(&self) -> (r: u64)
        ensures
            r == self.handle_id(),
    {
        self.handle
    }

    /// Whether both loops of this session still run.
    pub fn running(&self) -> (r: bool)
        ensures
            r == self.is_open(),
    {
        self.open
    }

    /// Decides what the session does on `ev`. An event that ends either
    /// loop ends the session: the other loop is to be stopped, the handle is
    /// released from the bus and the connection closed (`Shutdown`). A text
    /// message is read as a control message; nothing else changes. Once
    /// ended, the session answers every event with `Shutdown` and touches
    /// nothing.
    pub fn on_event(&mut self, bus: &mut Bus, ev: SessionEvent) -> (r: Directive)
        requires
            old(bus).wf(),
        ensures
            final(bus).wf(),
            final(bus).cap() == old(bus).cap(),
            final(bus).next() == old(bus).next(),
            final(self).handle_id() == old(self).handle_id(),
            !old(self).is_open() ==> r == Directive::Shutdown && !final(self).is_open()
                && final(bus).subs() == old(bus).subs(),
            old(self).is_open() && ends_session(ev) ==> {
                &&& r == Directive::Shutdown
                &&& !final(self).is_open()
                &&& !has_id(final(bus).subs(), old(self).handle_id())
                &&& !has_id(old(bus).subs(), old(self).handle_id()) ==> final(bus).subs()
                    == old(bus).subs()
                &&& has_id(old(bus).subs(), old(self).handle_id()) ==> exists|i: int|
                    0 <= i < old(bus).subs().len() && old(bus).subs()[i].0 == old(self).handle_id()
                        && final(bus).subs() == old(bus).subs().remove(i)
            },
            old(self).is_open() && !ends_session(ev) ==> {
                &&& final(self).is_open()
                &&& final(bus).subs() == old(bus).subs()
                &&& r != Directive::Shutdown
                &&& match ev {
                    SessionEvent::Text(t) => (r == Directive::Malformed) == !json_parses(t@),
                    _ => r == Directive::Continue,
                }
            },
    {
        if !self.open {
            return Directive::Shutdown;
        }
        match ev {
            SessionEvent::Text(t) => classify_inbound(t.as_str()),
            SessionEvent::NonText => Directive::Continue,
            _ => {
                bus.unsubscribe(self.handle);
                self.open = false;
                Directive::Shutdown
            },
        }
    }

    /// The next message for the outbound loop to write: the oldest unread
    /// one of this session's handle. `None` when there is none, or when the
    /// session has ended.
    pub fn next_outbound(&self, bus: &mut Bus) -> (r: Option<String>)
        requires
            old(bus).wf(),
        ensures
            final(bus).wf(),
            final(bus).cap() == old(bus).cap(),
            final(bus).next() == old(bus).next(),
            !self.is_open() ==> r.is_none() && final(bus).subs() == old(bus).subs(),
            self.is_open() && !has_id(old(bus).subs(), self.handle_id()) ==> r.is_none()
                && final(bus).subs() == old(bus).subs(),
            self.is_open() ==> forall|i: int|
                0 <= i < old(bus).subs().len() && old(bus).subs()[i].0 == self.handle_id() ==> {
                    let q = old(bus).subs()[i].1;
                    if q.len() == 0 {
                        r.is_none() && final(bus).subs() == old(bus).subs()
                    } else {
                        r.is_some() && r.unwrap()@ == q[0] && final(bus).subs()
                            == old(bus).subs().update(i, (self.handle_id(), q.subrange(1, q.len() as int)))
                    }
                },
    {
        if !self.open {
            return None;
        }
        bus.try_recv(self.handle)
    }
}

} // verus!
