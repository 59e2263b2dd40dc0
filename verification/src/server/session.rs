//! One connection, from the moment it is accepted to the moment it is
//! closed.
//!
//! A connection that has been accepted must introduce itself: the first
//! frame that it sends has to be a client identity, and it has
//! [`HANDSHAKE_TIMEOUT_MS`] to arrive. A peer that is late, or that sends
//! anything else, is dropped and nobody hears of it. Once joined, a peer
//! may send chat messages only; the first thing that is not one ends the
//! session, and so does the end of the stream. A session that was joined
//! leaves exactly once.

use crate::network_message::client_identity::ClientIdentity;
use crate::network_message::framing::lemma_scan_stable;
use crate::network_message::framing::scan;
use crate::network_message::framing::spec_scan;
use crate::network_message::framing::Scan;
use crate::network_message::parse;
use crate::network_message::user_leave::UserLeave;
use crate::network_message::DecodeError;
use crate::network_message::Frame;
use crate::network_message::NetworkMessage;
use crate::server::admission::admits;
use crate::server::admission::join;
use crate::server::admission::Admission;
use crate::server::admission::Denial;
use crate::server::admission::MAX_ROSTER;
use crate::server::dispatcher::Event;
use crate::server::registry::has_id;
use crate::server::registry::Registry;
use crate::server::registry::Roster;
use vstd::prelude::*;

verus! {

/// How long an accepted connection is given to introduce itself.
pub const HANDSHAKE_TIMEOUT_MS: u64 = 1000;

/// Where a connection stands.
#[derive(Debug, Clone, Copy, PartialEq, Eq)]
pub enum Phase {
    /// Not accepted yet.
    Connecting,
    /// Accepted; its identity is awaited.
    AwaitingIdentity,
    /// Registered under this id.
    Joined { id: u32 },
    /// Over. Nothing more comes of it.
    Closed,
}

/// Why a connection is dropped during the handshake.
#[derive(Debug, Clone, Copy, PartialEq, Eq)]
pub enum Refusal {
    /// What the peer sent is no frame.
    Decode(DecodeError),
    /// The peer sent a frame, but not its identity.
    NotIdentity,
    /// The peer introduced itself, but the server has no place for it.
    Denied(Denial),
    /// No identity is awaited from this connection.
    NotAwaiting,
}

/// What the first bytes of a connection amount to.
#[derive(Debug, PartialEq)]
pub enum Opening {
    /// The first frame has not arrived in full.
    Pending,
    /// The first frame is this identity; it took this many bytes.
    Identity(ClientIdentity, usize),
    /// The connection is to be dropped.
    Refused(Refusal),
}

/// How a step of the handshake ended.
#[derive(Debug, PartialEq)]
pub enum Handshake {
    /// The first frame has not arrived in full; the timeout keeps running.
    Pending,
    /// The peer is registered.
    Admitted(Admission),
    /// The connection is to be dropped, and nobody is told.
    Refused(Refusal),
}

/// What a stream of a joined peer holds: the chat messages at its front,
/// in order, and either the bytes of a frame that is still incomplete, or
/// nothing where the stream broke the protocol.
pub struct Drained {
    pub chat: Seq<Frame>,
    pub rest: Option<Seq<u8>>,
}

/// Reads chat messages off the front of `stream` until the bytes run out
/// or something else than a chat message turns up.
pub open spec fn drain(stream: Seq<u8>) -> Drained
    decreases stream.len(),
    when stream.len() <= usize::MAX
{
    match spec_scan(stream) {
        Scan::Incomplete => Drained { chat: Seq::empty(), rest: Some(stream) },
        Scan::Invalid(_) => Drained { chat: Seq::empty(), rest: None },
        Scan::Complete(n) => match parse(stream.take(n as int)) {
            Ok(frame) => if frame is Message {
                let more = drain(stream.skip(n as int));
                Drained { chat: seq![frame] + more.chat, rest: more.rest }
            } else {
                Drained { chat: Seq::empty(), rest: None }
            },
            Err(_) => Drained { chat: Seq::empty(), rest: None },
        },
    }
}

/// The frames that a list of events is broadcast as.
pub open spec fn frames_of(events: Seq<Event>) -> Seq<Frame> {
    events.map_values(|event: Event| event@)
}

/// Decides what the first bytes of a connection amount to.
pub fn identify(stream: &[u8]) -> (opening: Opening)
    ensures
        match opening {
            Opening::Pending => spec_scan(stream@) is Incomplete,
            Opening::Identity(identity, n) => {
                &&& spec_scan(stream@) == Scan::Complete(n)
                &&& n <= stream@.len()
                &&& parse(stream@.take(n as int)) == Ok::<Frame, DecodeError>(identity@)
            },
            Opening::Refused(Refusal::Decode(e)) => {
                ||| spec_scan(stream@) == Scan::Invalid(e)
                ||| (spec_scan(stream@) matches Scan::Complete(n) && parse(
                    stream@.take(n as int),
                ) == Err::<Frame, DecodeError>(e))
            },
            Opening::Refused(Refusal::NotIdentity) => {
                &&& spec_scan(stream@) matches Scan::Complete(n)
                &&& parse(stream@.take(n as int)) matches Ok(frame)
                &&& !(frame is ClientIdentity)
            },
            Opening::Refused(_) => false,
        },
{
    match scan(stream) {
        Scan::Incomplete => Opening::Pending,
        Scan::Invalid(e) => Opening::Refused(Refusal::Decode(e)),
        Scan::Complete(n) => {
            assert(stream@.subrange(0, n as int) == stream@.take(n as int));
            match NetworkMessage::from_slice(&stream[0..n]) {
                Ok(NetworkMessage::ClientIdentity(identity)) => Opening::Identity(identity, n),
                Ok(_) => Opening::Refused(Refusal::NotIdentity),
                Err(e) => Opening::Refused(Refusal::Decode(e)),
            }
        },
    }
}

/// One connection. Its model is its phase and the bytes that have arrived
/// but do not make a whole frame yet.
#[derive(Debug)]
pub struct Session {
    phase: Phase,
    pending: Vec<u8>,
}

impl Session {
    /// Where the connection stands.
    pub closed spec fn spec_phase(&self) -> Phase {
        self.phase
    }

    /// The bytes that wait for the rest of their frame.
    pub closed spec fn spec_pending(&self) -> Seq<u8> {
        self.pending@
    }

    /// A connection that is not accepted yet.
    pub fn new() -> (session: Self)
        ensures
            session.spec_phase() is Connecting,
            session.spec_pending().len() == 0,
    {
        Session { phase: Phase::Connecting, pending: Vec::new() }
    }

    pub fn phase(&self) -> (phase: Phase)
        ensures
            phase == self.spec_phase(),
    {
        self.phase
    }

    /// The connection was accepted. From now on its identity is awaited,
    /// and the caller arms the timeout. Says whether this was the moment:
    /// a connection is accepted once.
    pub fn accepted(&mut self) -> (armed: bool)
        ensures
            armed == (old(self).spec_phase() is Connecting),
            final(self).spec_pending() == old(self).spec_pending(),
            final(self).spec_phase() == if armed {
                Phase::AwaitingIdentity
            } else {
                old(self).spec_phase()
            },
    {
        match self.phase {
            Phase::Connecting => {
                self.phase = Phase::AwaitingIdentity;
                true
            },
            _ => false,
        }
    }

    /// Tells the connection how long its identity has been awaited. Once
    /// [`HANDSHAKE_TIMEOUT_MS`] have passed the connection is closed, and
    /// nobody hears of it. A connection in any other phase is given all the
    /// time it takes.
    pub fn expire(&mut self, waited_ms: u64) -> (expired: bool)
        ensures
            expired == (old(self).spec_phase() is AwaitingIdentity && waited_ms
                >= HANDSHAKE_TIMEOUT_MS),
            expired ==> final(self).spec_phase() is Closed && final(self).spec_pending().len()
                == 0,
            !expired ==> final(self).spec_phase() == old(self).spec_phase()
                && final(self).spec_pending() == old(self).spec_pending(),
    {
        match self.phase {
            Phase::AwaitingIdentity => {
                if waited_ms >= HANDSHAKE_TIMEOUT_MS {
                    self.phase = Phase::Closed;
                    self.pending = Vec::new();
                    true
                } else {
                    false
                }
            },
            _ => false,
        }
    }

    /// Bytes arrived while the identity is awaited. Once the first frame is
    /// whole it decides: an identity is admitted if the registry has room,
    /// and the session is joined under a fresh id; anything else closes the
    /// connection, with the registry untouched and no event for anyone.
    pub fn handshake(&mut self, registry: &mut Registry, data: &[u8]) -> (end: Handshake)
        ensures
            !(old(self).spec_phase() is AwaitingIdentity) ==> {
                &&& end == Handshake::Refused(Refusal::NotAwaiting)
                &&& final(self).spec_phase() == old(self).spec_phase()
                &&& final(self).spec_pending() == old(self).spec_pending()
                &&& final(registry)@ == old(registry)@
            },
            old(self).spec_phase() is AwaitingIdentity ==> match end {
                Handshake::Pending => {
                    &&& spec_scan(old(self).spec_pending() + data@) is Incomplete
                    &&& final(self).spec_phase() is AwaitingIdentity
                    &&& final(self).spec_pending() == old(self).spec_pending() + data@
                    &&& final(registry)@ == old(registry)@
                },
                Handshake::Admitted(admission) => {
                    &&& spec_scan(old(self).spec_pending() + data@) matches Scan::Complete(n)
                    &&& parse((old(self).spec_pending() + data@).take(n as int)) matches Ok(
                        Frame::ClientIdentity { name },
                    )
                    &&& old(registry)@.len() <= MAX_ROSTER
                    &&& !has_id(old(registry)@, admission.id)
                    &&& admits(admission, old(registry)@, name, admission.id)
                    &&& final(registry)@ == old(registry)@.push((admission.id, name))
                    &&& final(self).spec_phase() == (Phase::Joined { id: admission.id })
                    &&& final(self).spec_pending() == (old(self).spec_pending() + data@).skip(
                        n as int,
                    )
                },
                Handshake::Refused(refusal) => {
                    &&& refusal_of(old(self).spec_pending() + data@, old(registry)@) == Some(
                        refusal,
                    )
                    &&& final(self).spec_phase() is Closed
                    &&& final(self).spec_pending().len() == 0
                    &&& final(registry)@ == old(registry)@
                },
            },
    {
        match self.phase {
            Phase::AwaitingIdentity => {},
            _ => {
                return Handshake::Refused(Refusal::NotAwaiting);
            },
        }
        self.pending.extend_from_slice(data);
        let ghost stream = self.pending@;
        assert(stream =~= old(self).spec_pending() + data@);
        match identify(self.pending.as_slice()) {
            Opening::Pending => Handshake::Pending,
            Opening::Identity(identity, n) => {
                match join(registry, &identity) {
                    Ok(admission) => {
                        let rest = self.pending.split_off(n);
                        self.pending = rest;
                        self.phase = Phase::Joined { id: admission.id };
                        Handshake::Admitted(admission)
                    },
                    Err(denial) => {
                        self.phase = Phase::Closed;
                        self.pending = Vec::new();
                        Handshake::Refused(Refusal::Denied(denial))
                    },
                }
            },
            Opening::Refused(refusal) => {
                self.phase = Phase::Closed;
                self.pending = Vec::new();
                Handshake::Refused(refusal)
            },
        }
    }

    /// Bytes arrived from a joined peer. Every chat message that is now
    /// whole becomes an event, in the order of the stream; what is left of
    /// an unfinished frame waits for the next bytes. The first thing that
    /// is not a chat message ends the session: the leave event follows the
    /// messages before it, and the rest of the stream is dropped. In any
    /// other phase nothing happens.
    pub fn receive(&mut self, data: &[u8]) -> (events: Vec<Event>)
        ensures
            match old(self).spec_phase() {
                Phase::Joined { id } => {
                    let read = drain(old(self).spec_pending() + data@);
                    match read.rest {
                        Some(rest) => {
                            &&& frames_of(events@) == read.chat
                            &&& final(self).spec_phase() == old(self).spec_phase()
                            &&& final(self).spec_pending() == rest
                        },
                        None => {
                            &&& frames_of(events@) == read.chat.push(Frame::UserLeave { id })
                            &&& final(self).spec_phase() is Closed
                            &&& final(self).spec_pending().len() == 0
                        },
                    }
                },
                _ => {
                    &&& events@.len() == 0
                    &&& final(self).spec_phase() == old(self).spec_phase()
                    &&& final(self).spec_pending() == old(self).spec_pending()
                },
            },
    {
        let mut events: Vec<Event> = Vec::new();
        let id = match self.phase {
            Phase::Joined { id } => id,
            _ => {
                return events;
            },
        };
        self.pending.extend_from_slice(data);
        let ghost stream = self.pending@;
        assert(stream =~= old(self).spec_pending() + data@);
        let len = self.pending.len();
        let mut cursor: usize = 0;
        let mut failed = false;
        let mut done = false;
        assert(stream.skip(0) =~= stream);
        while !done
            invariant
                stream == self.pending@,
                len == stream.len(),
                cursor <= len,
                !done ==> !failed,
                !done ==> drain(stream).chat == frames_of(events@) + drain(
                    stream.skip(cursor as int),
                ).chat,
                !done ==> drain(stream).rest == drain(stream.skip(cursor as int)).rest,
                done ==> drain(stream).chat == frames_of(events@),
                done ==> drain(stream).rest == if failed {
                    None
                } else {
                    Some(stream.skip(cursor as int))
                },
            decreases len - cursor + if done { 0int } else { 1int },
        {
            let ghost tail = stream.skip(cursor as int);
            let ghost before = frames_of(events@);
            let rest = &self.pending.as_slice()[cursor..len];
            match scan(rest) {
                Scan::Incomplete => {
                    assert(before + Seq::<Frame>::empty() =~= before);
                    done = true;
                },
                Scan::Invalid(_) => {
                    assert(before + Seq::<Frame>::empty() =~= before);
                    failed = true;
                    done = true;
                },
                Scan::Complete(n) => {
                    match NetworkMessage::from_slice(&rest[0..n]) {
                        Ok(NetworkMessage::Message(message)) => {
                            events.push(Event::ChatMessage(message));
                            cursor = cursor + n;
                            proof {
                                assert(tail.skip(n as int) =~= stream.skip(cursor as int));
                            }
                        },
                        _ => {
                            failed = true;
                            done = true;
                        },
                    }
                },
            }
        }
        if failed {
            events.push(Event::UserLeft(UserLeave::new(id)));
            self.phase = Phase::Closed;
            self.pending = Vec::new();
        } else {
            let rest = self.pending.split_off(cursor);
            self.pending = rest;
        }
        events
    }

    /// The connection is over: the peer hung up, a read failed, or the
    /// identity did not come in time. A session that was joined leaves, and
    /// this is the one time it does; any other connection goes unnoticed.
    pub fn close(&mut self) -> (event: Option<Event>)
        ensures
            final(self).spec_phase() is Closed,
            final(self).spec_pending().len() == 0,
            match old(self).spec_phase() {
                Phase::Joined { id } => event matches Some(leave) && leave@ == (Frame::UserLeave {
                    id,
                }),
                _ => event is None,
            },
    {
        let event = match self.phase {
            Phase::Joined { id } => Some(Event::UserLeft(UserLeave::new(id))),
            _ => None,
        };
        self.phase = Phase::Closed;
        self.pending = Vec::new();
        event
    }
}

/// The reason for which a connection with these first bytes is dropped, if
/// it is dropped: it sent no frame, or a frame that is not an identity, or
/// the registry was full when it introduced itself.
pub open spec fn refusal_of(stream: Seq<u8>, roster: Roster) -> Option<Refusal> {
    match spec_scan(stream) {
        Scan::Incomplete => None,
        Scan::Invalid(e) => Some(Refusal::Decode(e)),
        Scan::Complete(n) => match parse(stream.take(n as int)) {
            Ok(frame) => if !(frame is ClientIdentity) {
                Some(Refusal::NotIdentity)
            } else if roster.len() > MAX_ROSTER {
                Some(Refusal::Denied(Denial::RosterFull))
            } else {
                None
            },
            Err(e) => Some(Refusal::Decode(e)),
        },
    }
}

/// Reading a stream in pieces comes to the same as reading it at once:
/// the chat messages of the first piece, then whatever its unfinished end
/// and the second piece hold together. And a stream that has broken the
/// protocol is not mended by what follows.
pub proof fn lemma_drain_in_pieces(first: Seq<u8>, second: Seq<u8>)
    requires
        first.len() + second.len() <= usize::MAX,
    ensures
        match drain(first).rest {
            Some(rest) => {
                &&& drain(first + second).chat == drain(first).chat + drain(rest + second).chat
                &&& drain(first + second).rest == drain(rest + second).rest
            },
            None => drain(first + second) == drain(first),
        },
    decreases first.len(),
{
    let whole = first + second;
    match spec_scan(first) {
        Scan::Incomplete => {},
        Scan::Invalid(_) => {
            lemma_scan_stable(first, whole);
        },
        Scan::Complete(n) => {
            lemma_scan_stable(first, whole);
            assert(whole.take(n as int) =~= first.take(n as int));
            assert(whole.skip(n as int) =~= first.skip(n as int) + second);
            match parse(first.take(n as int)) {
                Ok(frame) => {
                    if frame is Message {
                        lemma_drain_in_pieces(first.skip(n as int), second);
                    }
                },
                Err(_) => {},
            }
        },
    }
}

} // verus!
