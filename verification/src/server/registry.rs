//! The registry: the sessions that are joined right now, in the order in
//! which they joined, no id twice.

use crate::network_message::names_fit;
use crate::wire::fits_u8;
use vstd::prelude::*;

verus! {

/// The model of a registry: ids and display names, oldest session first.
pub type Roster = Seq<(u32, Seq<char>)>;

/// Whether a session of that id is in the roster.
pub open spec fn has_id(roster: Roster, id: u32) -> bool {
    exists|i: int| 0 <= i < roster.len() && #[trigger] roster[i].0 == id
}

/// Whether no id occurs twice in the roster.
pub open spec fn distinct_ids(roster: Roster) -> bool {
    forall|i: int, j: int|
        0 <= i < j < roster.len() ==> #[trigger] roster[i].0 != #[trigger] roster[j].0
}

/// The ids of the roster, in its order.
pub open spec fn ids_of(roster: Roster) -> Seq<u32> {
    roster.map_values(|session: (u32, Seq<char>)| session.0)
}

/// The test that keeps every session but the one of `id`.
pub open spec fn is_other(id: u32) -> spec_fn((u32, Seq<char>)) -> bool {
    |session: (u32, Seq<char>)| session.0 != id
}

/// The roster without the session of `id`, the others in their order.
pub open spec fn without(roster: Roster, id: u32) -> Roster {
    roster.filter(is_other(id))
}

/// Taking out an id that is not there changes nothing.
pub proof fn lemma_without_absent(roster: Roster, id: u32)
    requires
        !has_id(roster, id),
    ensures
        without(roster, id) == roster,
    decreases roster.len(),
{
    reveal(Seq::filter);
    if roster.len() > 0 {
        let front = roster.drop_last();
        assert forall|i: int| 0 <= i < front.len() implies #[trigger] front[i].0 != id by {}
        lemma_without_absent(front, id);
    }
}

/// Where no id occurs twice, taking out an id removes the one session that
/// has it and moves no other.
pub proof fn lemma_without_present(roster: Roster, id: u32, at: int)
    requires
        distinct_ids(roster),
        0 <= at < roster.len(),
        roster[at].0 == id,
    ensures
        without(roster, id) == roster.remove(at),
    decreases roster.len(),
{
    reveal(Seq::filter);
    let front = roster.drop_last();
    if at == roster.len() - 1 {
        assert forall|i: int| 0 <= i < front.len() implies #[trigger] front[i].0 != id by {}
        lemma_without_absent(front, id);
    } else {
        assert forall|i: int, j: int| 0 <= i < j < front.len() implies #[trigger] front[i].0
            != #[trigger] front[j].0 by {}
        lemma_without_present(front, id, at);
    }
}

/// What is left after taking out an id: the id is gone, every other session
/// is still there, and no id has become double.
pub proof fn lemma_without_members(roster: Roster, id: u32)
    ensures
        !has_id(without(roster, id), id),
        forall|other: u32|
            other != id ==> (has_id(without(roster, id), other) <==> has_id(roster, other)),
        distinct_ids(roster) ==> distinct_ids(without(roster, id)),
        names_fit(roster) ==> names_fit(without(roster, id)),
        without(roster, id).len() <= roster.len(),
    decreases roster.len(),
{
    reveal(Seq::filter);
    if roster.len() > 0 {
        let front = roster.drop_last();
        let kept = without(front, id);
        let out = without(roster, id);
        lemma_without_members(front, id);
        assert forall|other: u32| other != id implies (has_id(out, other) <==> has_id(
            roster,
            other,
        )) by {
            if has_id(out, other) {
                let k = choose|k: int| 0 <= k < out.len() && #[trigger] out[k].0 == other;
                if k < kept.len() {
                    assert(has_id(front, other));
                }
            }
            if has_id(roster, other) {
                let j = choose|j: int| 0 <= j < roster.len() && #[trigger] roster[j].0 == other;
                if j < front.len() {
                    assert(front[j].0 == other);
                    assert(has_id(front, other));
                    let k = choose|k: int| 0 <= k < kept.len() && #[trigger] kept[k].0 == other;
                    assert(out[k].0 == other);
                } else {
                    assert(out[out.len() - 1].0 == other);
                }
            }
        }
        if distinct_ids(roster) {
            assert forall|i: int, j: int| 0 <= i < j < front.len() implies #[trigger] front[i].0
                != #[trigger] front[j].0 by {}
            assert forall|i: int, j: int| 0 <= i < j < out.len() implies #[trigger] out[i].0
                != #[trigger] out[j].0 by {
                if j == kept.len() && out[i].0 == out[j].0 {
                    // Then the last session of `roster` shares its id with an earlier one.
                    let last = roster.last();
                    assert(has_id(kept, kept[i].0));
                    assert(has_id(front, last.0));
                    let m = choose|m: int| 0 <= m < front.len() && #[trigger] front[m].0 == last.0;
                    assert(roster[m].0 == roster[roster.len() - 1].0);
                }
            }
        }
        if names_fit(roster) {
            assert forall|i: int| 0 <= i < front.len() implies fits_u8(#[trigger] front[i].1) by {}
        }
    }
}

/// The sessions that are joined right now. Its model is the [`Roster`].
#[derive(Debug)]
pub struct Registry {
    sessions: Vec<(u32, String)>,
}

impl View for Registry {
    type V = Roster;

    closed spec fn view(&self) -> Roster {
        self.sessions.deep_view()
    }
}

impl Registry {
    #[verifier::type_invariant]
    spec fn sound(&self) -> bool {
        distinct_ids(self.sessions.deep_view()) && names_fit(self.sessions.deep_view())
    }

    /// A registry without sessions.
    pub fn new() -> (registry: Self)
        ensures
            registry@.len() == 0,
    {
        let sessions: Vec<(u32, String)> = Vec::with_capacity(50);
        Registry { sessions }
    }

    /// The number of sessions.
    pub fn len(&self) -> (n: usize)
        ensures
            n == self@.len(),
            distinct_ids(self@),
            names_fit(self@),
    {
        proof {
            use_type_invariant(self);
        }
        self.sessions.len()
    }

    /// Whether a session of that id is registered.
    pub fn contains(&self, id: u32) -> (found: bool)
        ensures
            found == has_id(self@, id),
    {
        let mut i: usize = 0;
        while i < self.sessions.len()
            invariant
                i <= self.sessions@.len(),
                forall|k: int| 0 <= k < i ==> #[trigger] self@[k].0 != id,
            decreases self.sessions@.len() - i,
        {
            if self.sessions[i].0 == id {
                assert(self@[i as int].0 == id);
                return true;
            }
            i += 1;
        }
        false
    }

    /// A copy of the roster: ids and names, oldest session first.
    pub fn roster(&self) -> (users: Vec<(u32, String)>)
        ensures
            users.deep_view() == self@,
            distinct_ids(self@),
            names_fit(self@),
    {
        proof {
            use_type_invariant(self);
        }
        let mut users: Vec<(u32, String)> = Vec::with_capacity(self.sessions.len());
        let mut i: usize = 0;
        while i < self.sessions.len()
            invariant
                i <= self.sessions@.len(),
                users.deep_view() == self@.take(i as int),
            decreases self.sessions@.len() - i,
        {
            let ghost before = users.deep_view();
            users.push((self.sessions[i].0, self.sessions[i].1.clone()));
            assert(self@.take(i + 1) =~= before.push(self@[i as int]));
            i += 1;
        }
        users
    }

    /// The ids of all sessions, oldest first.
    pub fn ids(&self) -> (ids: Vec<u32>)
        ensures
            ids@ == ids_of(self@),
    {
        let mut ids: Vec<u32> = Vec::with_capacity(self.sessions.len());
        let mut i: usize = 0;
        while i < self.sessions.len()
            invariant
                i <= self.sessions@.len(),
                ids@ == ids_of(self@.take(i as int)),
            decreases self.sessions@.len() - i,
        {
            ids.push(self.sessions[i].0);
            i += 1;
        }
        ids
    }

    /// The ids of all sessions but the one of `id`, oldest first.
    pub fn ids_except(&self, id: u32) -> (ids: Vec<u32>)
        ensures
            ids@ == ids_of(without(self@, id)),
    {
        let mut ids: Vec<u32> = Vec::with_capacity(self.sessions.len());
        let mut i: usize = 0;
        proof {
            reveal(Seq::filter);
        }
        while i < self.sessions.len()
            invariant
                i <= self.sessions@.len(),
                ids@ == ids_of(without(self@.take(i as int), id)),
            decreases self.sessions@.len() - i,
        {
            proof {
                let seen = self@.take(i as int);
                seen.lemma_filter_push(self@[i as int], is_other(id));
                assert(self@.take(i + 1) =~= seen.push(self@[i as int]));
            }
            if self.sessions[i].0 != id {
                ids.push(self.sessions[i].0);
            }
            i += 1;
        }
        assert(self@.take(i as int) =~= self@);
        ids
    }

    /// Registers a session as the youngest. Where the id is taken the
    /// registry stays as it is and the answer is `false`.
    pub fn insert(&mut self, id: u32, name: String) -> (added: bool)
        requires
            fits_u8(name@),
        ensures
            added == !has_id(old(self)@, id),
            added ==> final(self)@ == old(self)@.push((id, name@)),
            !added ==> final(self)@ == old(self)@,
    {
        proof {
            use_type_invariant(&*self);
        }
        if self.contains(id) {
            return false;
        }
        let ghost before = self@;
        let mut sessions: Vec<(u32, String)> = Vec::new();
        core::mem::swap(&mut self.sessions, &mut sessions);
        sessions.push((id, name));
        proof {
            let after = sessions.deep_view();
            assert forall|i: int, j: int| 0 <= i < j < after.len() implies #[trigger] after[i].0
                != #[trigger] after[j].0 by {
                assert(after[i] == before[i]);
                if j < before.len() {
                    assert(after[j] == before[j]);
                }
            }
            assert forall|i: int| 0 <= i < after.len() implies fits_u8(#[trigger] after[i].1) by {
                if i < before.len() {
                    assert(after[i] == before[i]);
                }
            }
        }
        core::mem::swap(&mut self.sessions, &mut sessions);
        true
    }

    /// Takes the session of `id` out of the registry, if it is there, and
    /// says whether it was.
    pub fn remove(&mut self, id: u32) -> (found: bool)
        ensures
            found == has_id(old(self)@, id),
            final(self)@ == without(old(self)@, id),
    {
        proof {
            use_type_invariant(&*self);
        }
        let ghost before = self@;
        let mut i: usize = 0;
        while i < self.sessions.len()
            invariant
                i <= self.sessions@.len(),
                self@ == before,
                before == old(self)@,
                distinct_ids(before),
                names_fit(before),
                forall|k: int| 0 <= k < i ==> #[trigger] before[k].0 != id,
            decreases self.sessions@.len() - i,
        {
            if self.sessions[i].0 == id {
                proof {
                    assert(before[i as int].0 == id);
                    lemma_without_present(before, id, i as int);
                    lemma_without_members(before, id);
                }
                let mut sessions: Vec<(u32, String)> = Vec::new();
                core::mem::swap(&mut self.sessions, &mut sessions);
                sessions.remove(i);
                assert(sessions.deep_view() =~= before.remove(i as int));
                core::mem::swap(&mut self.sessions, &mut sessions);
                return true;
            }
            i += 1;
        }
        proof {
            lemma_without_absent(before, id);
        }
        false
    }
}

} // verus!
