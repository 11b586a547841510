//! A matchmaker that starts from a given waiting list and answers with the
//! id of the match that it found.

use crate::matches::{least_free_id, Matches};
use vstd::prelude::*;

pub use crate::matches::{Match, MatchId, WaitList};

verus! {

/// Pairs waiting players into matches.
pub struct MatchFinder<WL: WaitList, V: Default> {
    matches: Matches<V, WL>,
}

impl<WL: WaitList, V: Default> MatchFinder<WL, V> {
    /// The players that wait for an opponent.
    pub closed spec fn waiting(&self) -> Set<u32> {
        self.matches.waiting()
    }

    /// The match of each player who is in one.
    pub closed spec fn match_of(&self) -> Map<u32, MatchId> {
        self.matches.match_of()
    }

    /// The matches that are under way.
    pub closed spec fn live(&self) -> Map<MatchId, Match<V>> {
        self.matches.live()
    }

    /// The matchmaker's invariant: see [`Matches::wf`].
    pub closed spec fn wf(&self) -> bool {
        self.matches.wf()
    }

    /// A player in a match is one of its two players, and nobody waits who
    /// is in a match.
    pub proof fn lemma_wf(&self)
        requires
            self.wf(),
        ensures
            forall|p: u32| #[trigger]
                self.match_of().contains_key(p) ==> {
                    let id = self.match_of()[p];
                    &&& self.live().contains_key(id)
                    &&& (self.live()[id].player_a == p || self.live()[id].player_b == p)
                    &&& !self.waiting().contains(p)
                },
            forall|id: MatchId| #[trigger]
                self.live().contains_key(id) ==> {
                    let m = self.live()[id];
                    &&& m.player_a != m.player_b
                    &&& self.match_of().contains_key(m.player_a)
                    &&& self.match_of()[m.player_a] == id
                    &&& self.match_of().contains_key(m.player_b)
                    &&& self.match_of()[m.player_b] == id
                },
    {
        assert forall|p: u32| #[trigger] self.match_of().contains_key(p) implies {
            let id = self.match_of()[p];
            &&& self.live().contains_key(id)
            &&& (self.live()[id].player_a == p || self.live()[id].player_b == p)
            &&& !self.waiting().contains(p)
        } by {
            assert(self.matches.match_of().contains_key(p));
            assert(self.matches.player_is_placed(p));
            if self.matches.waiting().contains(p) {
            }
        }
        assert forall|id: MatchId| #[trigger] self.live().contains_key(id) implies {
            let m = self.live()[id];
            &&& m.player_a != m.player_b
            &&& self.match_of().contains_key(m.player_a)
            &&& self.match_of()[m.player_a] == id
            &&& self.match_of().contains_key(m.player_b)
            &&& self.match_of()[m.player_b] == id
        } by {
            assert(self.matches.live().contains_key(id));
            assert(self.matches.match_is_indexed(id));
        }
    }

    /// A matchmaker without matches, in which the players on the given list
    /// wait.
    pub fn new(wait_list: WL) -> (finder: MatchFinder<WL, V>)
        ensures
            finder.wf(),
            finder.waiting() == wait_list.waiting(),
            finder.match_of() == Map::<u32, MatchId>::empty(),
            finder.live() == Map::<MatchId, Match<V>>::empty(),
    {
        MatchFinder { matches: Matches::with_wait_list(wait_list) }
    }

    /// Looks for a match for the player and returns its id.
    ///
    /// A player who is in a match stays in it. Otherwise, if somebody else
    /// waits, the two leave the waiting list and form a new match, which gets
    /// the least id that is free and a default field. Otherwise the player
    /// waits, and there is no id to return.
    pub fn find_match(&mut self, player_a: &u32) -> (found: Option<MatchId>)
        requires
            old(self).wf(),
        ensures
            final(self).wf(),
            found.is_some() == (old(self).match_of().contains_key(*player_a) || exists|o: u32|
                old(self).waiting().contains(o) && o != *player_a),
            found matches Some(id) ==> final(self).match_of().contains_key(*player_a)
                && final(self).match_of()[*player_a] == id,
            old(self).match_of().contains_key(*player_a) ==> {
                &&& final(self).waiting() == old(self).waiting()
                &&& final(self).match_of() == old(self).match_of()
                &&& final(self).live() == old(self).live()
            },
            found is None ==> {
                &&& final(self).waiting() == old(self).waiting().insert(*player_a)
                &&& final(self).match_of() == old(self).match_of()
                &&& final(self).live() == old(self).live()
            },
            !old(self).match_of().contains_key(*player_a) ==> (found matches Some(id) ==> {
                let opponent = final(self).live()[id].player_b;
                &&& least_free_id(old(self).live().dom(), id)
                &&& old(self).waiting().contains(opponent)
                &&& opponent != *player_a
                &&& final(self).live()[id].player_a == *player_a
                &&& call_ensures(V::default, (), final(self).live()[id].field)
                &&& final(self).live() == old(self).live().insert(id, final(self).live()[id])
                &&& final(self).match_of() == old(self).match_of().insert(*player_a, id).insert(
                    opponent,
                    id,
                )
                &&& final(self).waiting() == old(self).waiting().remove(opponent).remove(
                    *player_a,
                )
            }),
    {
        assert(old(self).waiting() == old(self).matches.waiting());
        if self.matches.find_match(player_a) {
            match self.matches.get_match_for_player(player_a) {
                Some((match_id, _)) => Some(match_id),
                None => None,
            }
        } else {
            None
        }
    }

    /// Ends a match: its two players are in no match afterwards, and they do
    /// not wait either. An id that no match has changes nothing.
    pub fn remove_match(&mut self, match_id: MatchId)
        requires
            old(self).wf(),
        ensures
            final(self).wf(),
            final(self).waiting() == old(self).waiting(),
            final(self).live() == old(self).live().remove(match_id),
            final(self).match_of() == if old(self).live().contains_key(match_id) {
                old(self).match_of().remove(old(self).live()[match_id].player_a).remove(
                    old(self).live()[match_id].player_b,
                )
            } else {
                old(self).match_of()
            },
    {
        self.matches.remove_match(match_id);
    }

    /// The match with the given id, if it is under way.
    pub fn get_match(&self, match_id: MatchId) -> (found: Option<&Match<V>>)
        ensures
            match found {
                Some(m) => self.live().contains_key(match_id) && *m == self.live()[match_id],
                None => !self.live().contains_key(match_id),
            },
    {
        self.matches.get_match(&match_id)
    }
}

} // verus!
