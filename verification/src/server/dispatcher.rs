//! The broadcast dispatcher: what each event makes the server send, to
//! whom, and what it does to the registry.
//!
//! Events are applied one at a time, in the order in which they arrived.
//! A join is told to every session but the one that joined; a leave first
//! takes the session out of the registry and is then told to all that
//! remain; a chat message goes to every session, its sender included.

use crate::network_message::message::Message;
use crate::network_message::user_join::UserJoin;
use crate::network_message::user_leave::UserLeave;
use crate::network_message::Frame;
use crate::network_message::NetworkMessage;
use crate::server::registry::has_id;
use crate::server::registry::ids_of;
use crate::server::registry::is_other;
use crate::server::registry::lemma_without_absent;
use crate::server::registry::lemma_without_members;
use crate::server::registry::without;
use crate::server::registry::Registry;
use crate::server::registry::Roster;
use vstd::prelude::*;

verus! {

/// What a session reader or the session manager hands to the dispatcher.
/// Its model is the frame that the event is broadcast as.
#[derive(Debug, PartialEq)]
pub enum Event {
    UserJoined(UserJoin),
    UserLeft(UserLeave),
    ChatMessage(Message),
}

impl View for Event {
    type V = Frame;

    open spec fn view(&self) -> Frame {
        match self {
            Event::UserJoined(join) => join@,
            Event::UserLeft(leave) => leave@,
            Event::ChatMessage(message) => message@,
        }
    }
}

impl Clone for Event {
    fn clone(&self) -> (copy: Self)
        ensures
            copy@ == self@,
    {
        match self {
            Event::UserJoined(join) => Event::UserJoined(join.clone()),
            Event::UserLeft(leave) => Event::UserLeft(leave.clone()),
            Event::ChatMessage(message) => Event::ChatMessage(message.clone()),
        }
    }
}

impl Event {
    /// The wire message that tells the peers of this event.
    pub fn into_message(self) -> (message: NetworkMessage)
        ensures
            message@ == self@,
    {
        match self {
            Event::UserJoined(join) => NetworkMessage::UserJoin(join),
            Event::UserLeft(leave) => NetworkMessage::UserLeave(leave),
            Event::ChatMessage(message) => NetworkMessage::Message(message),
        }
    }
}

/// A state of the registry that an event does not fit.
#[derive(Debug, Clone, Copy, PartialEq, Eq)]
pub enum Inconsistency {
    /// A leave named a session that is not registered, as a second leave of
    /// the same session does.
    AbsentSession(u32),
}

/// One broadcast: the frame, and the sessions to write it to, oldest first.
#[derive(Debug, PartialEq)]
pub struct Delivery {
    pub frame: Vec<u8>,
    pub recipients: Vec<u32>,
}

/// Whether the event fits the roster. Only a leave of a session that is
/// not registered does not.
pub open spec fn fits(roster: Roster, event: Frame) -> bool {
    event matches Frame::UserLeave { id } ==> has_id(roster, id)
}

/// The roster once the event is applied.
pub open spec fn roster_after(roster: Roster, event: Frame) -> Roster {
    match event {
        Frame::UserLeave { id } => without(roster, id),
        _ => roster,
    }
}

/// The sessions that are told of the event, oldest first.
pub open spec fn recipients_of(roster: Roster, event: Frame) -> Seq<u32> {
    match event {
        Frame::UserJoin { id, .. } => ids_of(without(roster, id)),
        Frame::UserLeave { id } => ids_of(without(roster, id)),
        _ => ids_of(roster),
    }
}

/// Applies one event: changes the registry as the event asks and says what
/// to send to whom. A leave of a session that is not registered changes
/// nothing, sends nothing, and is reported.
pub fn dispatch(registry: &mut Registry, event: Event) -> (r: Result<Delivery, Inconsistency>)
    ensures
        final(registry)@ == roster_after(old(registry)@, event@),
        match r {
            Ok(delivery) => {
                &&& fits(old(registry)@, event@)
                &&& delivery.frame@ == event@.encode()
                &&& delivery.recipients@ == recipients_of(old(registry)@, event@)
            },
            Err(Inconsistency::AbsentSession(absent)) => {
                &&& !fits(old(registry)@, event@)
                &&& event@ == (Frame::UserLeave { id: absent })
            },
        },
{
    match event {
        Event::UserJoined(join) => {
            let recipients = registry.ids_except(join.id());
            let frame = NetworkMessage::UserJoin(join).into_vec();
            Ok(Delivery { frame, recipients })
        },
        Event::UserLeft(leave) => {
            let id = leave.id();
            if registry.remove(id) {
                let recipients = registry.ids();
                let frame = NetworkMessage::UserLeave(leave).into_vec();
                Ok(Delivery { frame, recipients })
            } else {
                Err(Inconsistency::AbsentSession(id))
            }
        },
        Event::ChatMessage(message) => {
            let recipients = registry.ids();
            let frame = NetworkMessage::Message(message).into_vec();
            Ok(Delivery { frame, recipients })
        },
    }
}

/// The event by which a session whose stream could not be written is taken
/// out: the same as if its reader had seen it disconnect.
pub fn write_failed(id: u32) -> (event: Event)
    ensures
        event@ == (Frame::UserLeave { id }),
{
    Event::UserLeft(UserLeave::new(id))
}

/// Who is told of an event: of a chat message every registered session,
/// its sender among them; of a join or a leave every registered session
/// but the one that joined or left.
pub proof fn lemma_recipients(roster: Roster, event: Frame, session: u32)
    requires
        event is UserJoin || event is UserLeave || event is Message,
    ensures
        recipients_of(roster, event).contains(session) <==> has_id(roster, session) && match event {
            Frame::UserJoin { id, .. } => session != id,
            Frame::UserLeave { id } => session != id,
            _ => true,
        },
{
    let told = match event {
        Frame::UserJoin { id, .. } => without(roster, id),
        Frame::UserLeave { id } => without(roster, id),
        _ => roster,
    };
    match event {
        Frame::UserJoin { id, .. } => lemma_without_members(roster, id),
        Frame::UserLeave { id } => lemma_without_members(roster, id),
        _ => {},
    }
    if has_id(told, session) {
        let k = choose|k: int| 0 <= k < told.len() && #[trigger] told[k].0 == session;
        assert(ids_of(told)[k] == session);
    }
}

/// A join is told to exactly those who were there before, whether the
/// dispatcher comes to it before the new session is registered or after:
/// the new session itself never hears of its own joining.
pub proof fn lemma_join_told_to_earlier_sessions(before: Roster, name: Seq<char>, id: u32)
    requires
        !has_id(before, id),
    ensures
        recipients_of(before, Frame::UserJoin { name, id }) == ids_of(before),
        recipients_of(before.push((id, name)), Frame::UserJoin { name, id }) == ids_of(before),
{
    lemma_without_absent(before, id);
    before.lemma_filter_push((id, name), is_other(id));
}

/// A chat message is echoed to the session that sent it, as long as that
/// session is registered.
pub proof fn lemma_self_echo(roster: Roster, from: u32, content: Seq<char>)
    requires
        has_id(roster, from),
    ensures
        recipients_of(roster, Frame::Message { from, content }).contains(from),
{
    lemma_recipients(roster, Frame::Message { from, content }, from);
}

/// Once a session has left, no later event is told to it, until a session
/// of that id joins again.
pub proof fn lemma_leaver_hears_nothing(roster: Roster, id: u32, later: Frame)
    requires
        later is UserJoin || later is UserLeave || later is Message,
    ensures
        !recipients_of(roster_after(roster, Frame::UserLeave { id }), later).contains(id),
{
    lemma_without_members(roster, id);
    lemma_recipients(without(roster, id), later, id);
}

} // verus!
