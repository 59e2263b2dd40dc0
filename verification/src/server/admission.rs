//! Admitting a peer: the id it gets, what it is sent, and what the others
//! are told.
//!
//! A peer that has introduced itself is given an id that no registered
//! session has. It is sent its id first and the roster of those already
//! there second, it is registered as the youngest session, and a join event
//! goes to the dispatcher. The roster is limited by the one-byte count of
//! the frame that carries it: a server that already has more than
//! [`MAX_ROSTER`] sessions admits no one.

use crate::network_message::client_identity::ClientIdentity;
use crate::network_message::user_join::UserJoin;
use crate::network_message::Frame;
use crate::network_message::NetworkMessage;
use crate::server::dispatcher::Event;
use crate::server::registry::distinct_ids;
use crate::server::registry::has_id;
use crate::server::registry::lemma_without_members;
use crate::server::registry::lemma_without_present;
use crate::server::registry::without;
use crate::server::registry::Registry;
use crate::server::registry::Roster;
use vstd::prelude::*;

verus! {

/// The longest roster that can be sent to a new peer.
pub const MAX_ROSTER: usize = 255;

/// How often an id is drawn at random before the ids are searched in order.
pub const ID_DRAWS: usize = 16;

/// Why a peer is not admitted.
#[derive(Debug, Clone, Copy, PartialEq, Eq)]
pub enum Denial {
    /// More sessions are registered than a roster frame can list.
    RosterFull,
    /// The id proposed for the peer belongs to a registered session.
    IdTaken,
}

/// What admitting a peer comes to: its id, the two frames to send to it, in
/// this order, and the event to hand to the dispatcher.
#[derive(Debug, PartialEq)]
pub struct Admission {
    pub id: u32,
    pub personal_id: Vec<u8>,
    pub user_list: Vec<u8>,
    pub event: Event,
}

/// Whether `admission` is what admitting a peer of that name under that id
/// comes to, given the roster before.
pub open spec fn admits(admission: Admission, before: Roster, name: Seq<char>, id: u32) -> bool {
    &&& admission.id == id
    &&& admission.personal_id@ == (Frame::PersonalId { id }).encode()
    &&& admission.user_list@ == (Frame::UserList { users: before }).encode()
    &&& admission.event@ == (Frame::UserJoin { name, id })
}

/// Calls `rand::random`, which draws a value from the generator of the
/// current thread. Nothing is claimed of the value: any `u32` may come. The
/// generator is seeded by the operating system when a thread first uses it,
/// and `rand` panics if that fails.
#[verifier::external_body]
fn draw_id() -> (candidate: u32) {
    rand::random::<u32>()
}

/// Among the numbers up to the length of a roster there is one that no
/// session has as its id.
proof fn lemma_free_id(roster: Roster)
    requires
        distinct_ids(roster),
        roster.len() <= u32::MAX,
    ensures
        exists|free: int| 0 <= free <= roster.len() && !has_id(roster, #[trigger] (free as u32)),
    decreases roster.len(),
{
    let top = roster.len() as int;
    if has_id(roster, top as u32) {
        let at = choose|at: int| 0 <= at < roster.len() && #[trigger] roster[at].0 == top as u32;
        let rest = without(roster, top as u32);
        lemma_without_present(roster, top as u32, at);
        lemma_without_members(roster, top as u32);
        lemma_free_id(rest);
    }
}

/// An id that no registered session has: drawn at random, and, should
/// every draw hit a registered id, the smallest free one. There is none
/// only when every id is taken.
pub fn fresh_id(registry: &Registry) -> (id: Option<u32>)
    ensures
        id matches Some(fresh) ==> !has_id(registry@, fresh),
        id is None ==> registry@.len() > u32::MAX,
{
    let mut draws: usize = 0;
    while draws < ID_DRAWS
        invariant
            draws <= ID_DRAWS,
        decreases ID_DRAWS - draws,
    {
        let candidate = draw_id();
        if !registry.contains(candidate) {
            return Some(candidate);
        }
        draws += 1;
    }
    let sessions = registry.len();
    let mut candidate: u32 = 0;
    loop
        invariant
            sessions == registry@.len(),
            distinct_ids(registry@),
            candidate <= sessions,
            forall|taken: int|
                0 <= taken < candidate ==> has_id(registry@, #[trigger] (taken as u32)),
        decreases u32::MAX - candidate,
    {
        if !registry.contains(candidate) {
            return Some(candidate);
        }
        if candidate == u32::MAX || candidate as usize >= sessions {
            proof {
                if sessions <= u32::MAX {
                    lemma_free_id(registry@);
                }
            }
            return None;
        }
        candidate += 1;
    }
}

/// Admits a peer under the id `id`: registers it as the youngest session
/// and says what to send to it and what to tell the dispatcher. Where the
/// registry is full or the id is taken, nothing changes.
pub fn join_as(registry: &mut Registry, identity: &ClientIdentity, id: u32) -> (r: Result<
    Admission,
    Denial,
>)
    ensures
        match r {
            Ok(admission) => {
                &&& old(registry)@.len() <= MAX_ROSTER
                &&& !has_id(old(registry)@, id)
                &&& admits(admission, old(registry)@, identity.spec_name(), id)
                &&& final(registry)@ == old(registry)@.push((id, identity.spec_name()))
            },
            Err(denial) => {
                &&& final(registry)@ == old(registry)@
                &&& denial == if old(registry)@.len() > MAX_ROSTER {
                    Denial::RosterFull
                } else {
                    Denial::IdTaken
                }
                &&& old(registry)@.len() > MAX_ROSTER || has_id(old(registry)@, id)
            },
        },
{
    if registry.len() > MAX_ROSTER {
        return Err(Denial::RosterFull);
    }
    let users = registry.roster();
    let name = identity.name();
    if !registry.insert(id, name.clone()) {
        return Err(Denial::IdTaken);
    }
    let personal_id = NetworkMessage::personal_id(id).into_vec();
    let user_list = NetworkMessage::user_list(users).into_vec();
    let event = Event::UserJoined(UserJoin::new(name.clone(), id));
    Ok(Admission { id, personal_id, user_list, event })
}

/// Admits a peer under an id that no registered session has. It is refused
/// only where the registry is full.
pub fn join(registry: &mut Registry, identity: &ClientIdentity) -> (r: Result<Admission, Denial>)
    ensures
        match r {
            Ok(admission) => {
                &&& old(registry)@.len() <= MAX_ROSTER
                &&& !has_id(old(registry)@, admission.id)
                &&& admits(admission, old(registry)@, identity.spec_name(), admission.id)
                &&& final(registry)@ == old(registry)@.push(
                    (admission.id, identity.spec_name()),
                )
            },
            Err(denial) => {
                &&& final(registry)@ == old(registry)@
                &&& denial == Denial::RosterFull
                &&& old(registry)@.len() > MAX_ROSTER
            },
        },
{
    if registry.len() > MAX_ROSTER {
        return Err(Denial::RosterFull);
    }
    match fresh_id(registry) {
        Some(id) => join_as(registry, identity, id),
        None => Err(Denial::RosterFull),
    }
}

} // verus!
