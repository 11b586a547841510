//! The matchmaker: pairs waiting players into matches and keeps track of
//! which match a player is in.

use crate::random::random_u32;
use std::collections::hash_map::Entry;
use std::collections::{HashMap, HashSet};
use vstd::prelude::*;

verus! {

broadcast use vstd::std_specs::hash::group_hash_axioms;

/// Two players and what they play on.
pub struct Match<V> {
    pub player_a: u32,
    pub player_b: u32,
    pub field: V,
}

/// The two sides of a match.
#[derive(Debug, PartialEq, Eq, Hash, Copy, Clone, Structural)]
pub enum PlayerSide {
    A,
    B,
}

impl<V> Match<V> {
    /// The side that a player is on; side A for a player who is on both.
    pub open spec fn side_of(&self, player: u32) -> Option<PlayerSide> {
        if player == self.player_a {
            Some(PlayerSide::A)
        } else if player == self.player_b {
            Some(PlayerSide::B)
        } else {
            None
        }
    }

    /// A match of two players on a field.
    pub fn new(player_a: u32, player_b: u32, field: V) -> (m: Match<V>)
        ensures
            m == (Match { player_a, player_b, field }),
    {
        Match { player_a, player_b, field }
    }

    /// The player on a side.
    pub fn get_player(&self, side: PlayerSide) -> (player: &u32)
        ensures
            *player == match side {
                PlayerSide::A => self.player_a,
                PlayerSide::B => self.player_b,
            },
    {
        match side {
            PlayerSide::A => &self.player_a,
            PlayerSide::B => &self.player_b,
        }
    }

    /// The side that a player is on, if the player is in this match.
    pub fn get_player_side(&self, player: &u32) -> (side: Option<PlayerSide>)
        ensures
            side == self.side_of(*player),
    {
        if *player == self.player_a {
            Some(PlayerSide::A)
        } else if *player == self.player_b {
            Some(PlayerSide::B)
        } else {
            None
        }
    }
}

/// A collection of waiting players. The matchmaker relies on nothing but
/// these operations, so another way to choose an opponent can take the place
/// of the hash set.
pub trait WaitList: Sized + Default {
    /// The players that wait.
    spec fn waiting(&self) -> Set<u32>;

    /// Lets a player wait.
    fn add(&mut self, player: u32)
        ensures
            final(self).waiting() == old(self).waiting().insert(player),
    ;

    /// Takes a player off the list.
    fn remove(&mut self, player: &u32)
        ensures
            final(self).waiting() == old(self).waiting().remove(*player),
    ;

    /// Whether a player waits.
    fn contains_player(&self, player: &u32) -> (found: bool)
        ensures
            found == self.waiting().contains(*player),
    ;

    /// An opponent for the player: some other player who waits, if there is
    /// one.
    fn find_matching_pair(&self, player: &u32) -> (other: Option<&u32>)
        ensures
            match other {
                Some(o) => self.waiting().contains(*o) && *o != *player,
                None => forall|o: u32| self.waiting().contains(o) ==> o == *player,
            },
    ;

    /// Nobody waits on the list that `Default::default` makes.
    proof fn default_is_empty(list: Self)
        requires
            call_ensures(Self::default, (), list),
        ensures
            list.waiting() == Set::<u32>::empty(),
    ;
}

impl WaitList for HashSet<u32> {
    open spec fn waiting(&self) -> Set<u32> {
        self@
    }

    fn add(&mut self, player: u32) {
        self.insert(player);
    }

    fn remove(&mut self, player: &u32) {
        HashSet::remove(self, player);
    }

    fn contains_player(&self, player: &u32) -> (found: bool) {
        self.contains(player)
    }

    /// The first player that the set hands out who is not the player.
    fn find_matching_pair(&self, player: &u32) -> (other: Option<&u32>) {
        for k in it: self.iter()
            invariant
                forall|i: int| 0 <= i < it.index() ==> *it.seq()[i] == *player,
        {
            if *k != *player {
                return Some(k);
            }
        }
        None
    }

    proof fn default_is_empty(list: Self) {
    }
}

pub type MatchId = usize;

/// Where a player stands with the matchmaker.
#[derive(Debug, PartialEq, Eq, Structural)]
pub enum PlayerStatus {
    Match,
    WaitList,
    NotFound,
}

/// The least number that is not in the set.
pub open spec fn least_free_id(ids: Set<MatchId>, id: MatchId) -> bool {
    &&& !ids.contains(id)
    &&& forall|j: MatchId| j < id ==> ids.contains(j)
}

/// A finite set that holds every number below `n` has at least `n` members.
pub proof fn lemma_initial_segment(ids: Set<MatchId>, n: nat)
    requires
        ids.finite(),
        forall|j: MatchId| j < n ==> ids.contains(j),
        n <= usize::MAX + 1,
    ensures
        n <= ids.len(),
    decreases n,
{
    if n > 0 {
        let last = (n - 1) as usize;
        assert(ids.contains(last));
        lemma_initial_segment(ids.remove(last), (n - 1) as nat);
    }
}

/// Every one of the numbers is in use, as `is_used` says.
pub open spec fn all_in_use<F: Fn(u32) -> bool>(is_used: F, draws: Seq<u32>) -> bool {
    forall|i: int| 0 <= i < draws.len() ==> call_ensures(is_used, (#[trigger] draws[i],), true)
}

/// An id that is not in use, found by drawing numbers at random until
/// `is_used` says of one that it is free, but with no more than `attempts`
/// draws. As long as the ids in use are few among all numbers, the first draw
/// is free almost always; where every draw was in use, there is no id to
/// return.
///
/// The id that comes back is the first number drawn that was free: fewer
/// than `attempts` numbers were drawn before it, and all of them were in use.
/// No id comes back only after `attempts` draws that were all in use; so
/// where no id is in use, the first attempt finds one.
pub fn find_free_id<F: Fn(u32) -> bool>(is_used: F, attempts: usize) -> (free: Option<u32>)
    requires
        forall|id: u32| call_requires(is_used, (id,)),
    ensures
        exists|draws: Seq<u32>| #[trigger]
            all_in_use(is_used, draws) && match free {
                Some(id) => draws.len() < attempts && call_ensures(is_used, (id,), false),
                None => draws.len() == attempts,
            },
        free matches Some(id) ==> call_ensures(is_used, (id,), false),
        attempts == 0 ==> free is None,
        attempts > 0 && (forall|id: u32| !call_ensures(is_used, (id,), true)) ==> free is Some,
{
    let ghost mut draws = Seq::<u32>::empty();
    let mut left = attempts;
    while left > 0
        invariant
            left <= attempts,
            draws.len() == attempts - left,
            all_in_use(is_used, draws),
            forall|id: u32| call_requires(is_used, (id,)),
        decreases left,
    {
        let id = random_u32();
        if !is_used(id) {
            return Some(id);
        }
        proof {
            draws = draws.push(id);
        }
        left -= 1;
    }
    proof {
        if attempts > 0 {
            assert(call_ensures(is_used, (draws[0],), true));
        }
    }
    None
}

/// The matchmaker.
pub struct Matches<V, WL = HashSet<u32>> where WL: WaitList, V: Default {
    wait_list: WL,
    match_ids: HashMap<u32, MatchId>,
    matches: HashMap<MatchId, Match<V>>,
}

impl<V, WL> Matches<V, WL> where WL: WaitList, V: Default {
    /// The players that wait for an opponent.
    pub closed spec fn waiting(&self) -> Set<u32> {
        self.wait_list.waiting()
    }

    /// The match of each player who is in one.
    pub closed spec fn match_of(&self) -> Map<u32, MatchId> {
        self.match_ids@
    }

    /// The matches that are under way.
    pub closed spec fn live(&self) -> Map<MatchId, Match<V>> {
        self.matches@
    }

    /// The match that a player is in is under way, and the player is one of
    /// its two players.
    pub open spec fn player_is_placed(&self, p: u32) -> bool {
        let id = self.match_of()[p];
        &&& self.live().contains_key(id)
        &&& (self.live()[id].player_a == p || self.live()[id].player_b == p)
    }

    /// The two players of a match differ, and both are in this match.
    pub open spec fn match_is_indexed(&self, id: MatchId) -> bool {
        let m = self.live()[id];
        &&& m.player_a != m.player_b
        &&& self.match_of().contains_key(m.player_a)
        &&& self.match_of()[m.player_a] == id
        &&& self.match_of().contains_key(m.player_b)
        &&& self.match_of()[m.player_b] == id
    }

    /// The matchmaker's invariant. A player who is in a match is one of the
    /// two players of that match, and it is under way. The two players of a
    /// match differ, and both are in it and in no other. Nobody waits who is
    /// in a match.
    pub open spec fn wf(&self) -> bool {
        &&& self.match_of().dom().finite()
        &&& self.live().dom().finite()
        &&& forall|p: u32| #[trigger]
            self.match_of().contains_key(p) ==> self.player_is_placed(p)
        &&& forall|id: MatchId| #[trigger]
            self.live().contains_key(id) ==> self.match_is_indexed(id)
        &&& forall|p: u32| #[trigger]
            self.waiting().contains(p) ==> !self.match_of().contains_key(p)
    }

    /// Two matches that are under way have no player in common, and the
    /// players of a match do not wait.
    pub proof fn lemma_matches_share_no_player(&self, first: MatchId, second: MatchId)
        requires
            self.wf(),
            self.live().contains_key(first),
            self.live().contains_key(second),
            first != second,
        ensures
            self.live()[first].player_a != self.live()[second].player_a,
            self.live()[first].player_a != self.live()[second].player_b,
            self.live()[first].player_b != self.live()[second].player_a,
            self.live()[first].player_b != self.live()[second].player_b,
            !self.waiting().contains(self.live()[first].player_a),
            !self.waiting().contains(self.live()[first].player_b),
    {
        assert(self.match_is_indexed(first));
        assert(self.match_is_indexed(second));
    }

    /// Where a player stands, as contracts speak of it.
    pub open spec fn status_of(&self, player: u32) -> PlayerStatus {
        if self.match_of().contains_key(player) {
            PlayerStatus::Match
        } else if self.waiting().contains(player) {
            PlayerStatus::WaitList
        } else {
            PlayerStatus::NotFound
        }
    }

    /// A matchmaker without players.
    pub fn new() -> (m: Matches<V, WL>)
        ensures
            m.wf(),
            m.waiting() == Set::<u32>::empty(),
            m.match_of() == Map::<u32, MatchId>::empty(),
            m.live() == Map::<MatchId, Match<V>>::empty(),
    {
        let wait_list = WL::default();
        proof {
            WL::default_is_empty(wait_list);
        }
        Matches { wait_list, match_ids: HashMap::new(), matches: HashMap::new() }
    }

    /// A matchmaker without matches, in which the players on the given list
    /// wait.
    pub fn with_wait_list(wait_list: WL) -> (m: Matches<V, WL>)
        ensures
            m.wf(),
            m.waiting() == wait_list.waiting(),
            m.match_of() == Map::<u32, MatchId>::empty(),
            m.live() == Map::<MatchId, Match<V>>::empty(),
    {
        Matches { wait_list, match_ids: HashMap::new(), matches: HashMap::new() }
    }

    /// Where a player stands: in a match, waiting, or unknown.
    pub fn get_player_status(&self, player: &u32) -> (status: PlayerStatus)
        ensures
            status == self.status_of(*player),
    {
        if self.match_ids.contains_key(player) {
            PlayerStatus::Match
        } else if self.wait_list.contains_player(player) {
            PlayerStatus::WaitList
        } else {
            PlayerStatus::NotFound
        }
    }

    /// The least match id that no match under way has.
    fn fresh_match_id(&self) -> (id: MatchId)
        ensures
            least_free_id(self.live().dom(), id),
    {
        let count = self.matches.len();
        let mut id: MatchId = 0;
        while self.matches.contains_key(&id)
            invariant
                count == self.matches@.len(),
                forall|j: MatchId| j < id ==> self.matches@.contains_key(j),
            decreases count - id,
        {
            proof {
                lemma_initial_segment(self.matches@.dom(), (id + 1) as nat);
            }
            id += 1;
        }
        id
    }

    /// Looks for a match for the player and says whether the player is in
    /// one afterwards.
    ///
    /// A player who is in a match stays in it. Otherwise, if somebody else
    /// waits, the two leave the waiting list and form a new match, which gets
    /// the least id that is free and a default field. Otherwise the player
    /// waits.
    pub fn find_match(&mut self, player: &u32) -> (found: bool)
        requires
            old(self).wf(),
        ensures
            final(self).wf(),
            found == final(self).match_of().contains_key(*player),
            found == (old(self).match_of().contains_key(*player) || exists|o: u32|
                old(self).waiting().contains(o) && o != *player),
            old(self).match_of().contains_key(*player) ==> {
                &&& final(self).waiting() == old(self).waiting()
                &&& final(self).match_of() == old(self).match_of()
                &&& final(self).live() == old(self).live()
            },
            !found ==> {
                &&& final(self).waiting() == old(self).waiting().insert(*player)
                &&& final(self).match_of() == old(self).match_of()
                &&& final(self).live() == old(self).live()
            },
            found && !old(self).match_of().contains_key(*player) ==> {
                let id = final(self).match_of()[*player];
                let opponent = final(self).live()[id].player_b;
                &&& least_free_id(old(self).live().dom(), id)
                &&& old(self).waiting().contains(opponent)
                &&& opponent != *player
                &&& final(self).live()[id].player_a == *player
                &&& call_ensures(V::default, (), final(self).live()[id].field)
                &&& final(self).live() == old(self).live().insert(id, final(self).live()[id])
                &&& final(self).match_of() == old(self).match_of().insert(*player, id).insert(
                    opponent,
                    id,
                )
                &&& final(self).waiting() == old(self).waiting().remove(opponent).remove(*player)
            },
    {
        if self.match_ids.contains_key(player) {
            return true;
        }
        let opponent: u32 = match self.wait_list.find_matching_pair(player) {
            Some(opponent) => *opponent,
            None => {
                self.wait_list.add(*player);
                assert forall|p: u32| #[trigger]
                    self.waiting().contains(p) implies !self.match_of().contains_key(p) by {
                    if p != *player {
                        assert(old(self).waiting().contains(p));
                    }
                }
                return false;
            },
        };
        let match_id = self.fresh_match_id();
        assert(old(self).waiting().contains(opponent) && opponent != *player);
        assert(!old(self).match_of().contains_key(opponent));
        self.matches.insert(
            match_id,
            Match { player_a: *player, player_b: opponent, field: V::default() },
        );
        self.match_ids.insert(*player, match_id);
        self.match_ids.insert(opponent, match_id);
        self.wait_list.remove(&opponent);
        self.wait_list.remove(player);
        proof {
            assert forall|p: u32| #[trigger]
                self.match_of().contains_key(p) implies self.player_is_placed(p) by {
                if p != *player && p != opponent {
                    assert(old(self).match_of().contains_key(p));
                    assert(old(self).player_is_placed(p));
                }
            }
            assert forall|id: MatchId| #[trigger]
                self.live().contains_key(id) implies self.match_is_indexed(id) by {
                if id != match_id {
                    assert(old(self).live().contains_key(id));
                    assert(old(self).match_is_indexed(id));
                }
            }
            assert forall|p: u32| #[trigger]
                self.waiting().contains(p) implies !self.match_of().contains_key(p) by {
                assert(old(self).waiting().contains(p));
            }
        }
        true
    }

    /// Ends a match: its two players are in no match afterwards, and they do
    /// not wait either. An id that no match has changes nothing.
    pub fn remove_match(&mut self, match_id: MatchId)
        requires
            old(self).wf(),
        ensures
            final(self).wf(),
            final(self).waiting() == old(self).waiting(),
            final(self).live() == old(self).live().remove(match_id),
            final(self).match_of() == if old(self).live().contains_key(match_id) {
                old(self).match_of().remove(old(self).live()[match_id].player_a).remove(
                    old(self).live()[match_id].player_b,
                )
            } else {
                old(self).match_of()
            },
    {
        match self.matches.remove(&match_id) {
            Some(match_) => {
                self.match_ids.remove(&match_.player_a);
                self.match_ids.remove(&match_.player_b);
                proof {
                    assert(old(self).live().contains_key(match_id));
                    assert(old(self).match_is_indexed(match_id));
                    assert forall|p: u32| #[trigger]
                        self.match_of().contains_key(p) implies self.player_is_placed(p) by {
                        assert(old(self).match_of().contains_key(p));
                        assert(old(self).player_is_placed(p));
                    }
                    assert forall|id: MatchId| #[trigger]
                        self.live().contains_key(id) implies self.match_is_indexed(id) by {
                        assert(old(self).live().contains_key(id));
                        assert(old(self).match_is_indexed(id));
                    }
                    assert forall|p: u32| #[trigger]
                        self.waiting().contains(p) implies !self.match_of().contains_key(p) by {
                        assert(old(self).waiting().contains(p));
                    }
                }
            },
            None => {
                assert(self.live() =~= old(self).live());
                assert forall|p: u32| #[trigger]
                    self.waiting().contains(p) implies !self.match_of().contains_key(p) by {
                    assert(old(self).waiting().contains(p));
                }
            },
        }
    }

    /// The match with the given id, if it is under way.
    pub fn get_match(&self, match_id: &MatchId) -> (found: Option<&Match<V>>)
        ensures
            match found {
                Some(m) => self.live().contains_key(*match_id) && *m == self.live()[*match_id],
                None => !self.live().contains_key(*match_id),
            },
    {
        self.matches.get(match_id)
    }

    /// The match that a player is in, with its id.
    pub fn get_match_for_player(&self, player: &u32) -> (found: Option<(MatchId, &Match<V>)>)
        requires
            self.wf(),
        ensures
            match found {
                Some((id, m)) => {
                    &&& self.match_of().contains_key(*player)
                    &&& id == self.match_of()[*player]
                    &&& *m == self.live()[id]
                },
                None => !self.match_of().contains_key(*player),
            },
    {
        match self.match_ids.get(player) {
            Some(match_id) => {
                match self.matches.get(match_id) {
                    Some(m) => Some((*match_id, m)),
                    None => None,
                }
            },
            None => None,
        }
    }

    /// The match that a player is in, with its id, to be changed in place.
    /// The matchmaker stays well-formed as long as the two players of the
    /// match are left as they are.
    pub fn get_mut_match_for_player(&mut self, player: &u32) -> (found: Option<
        (MatchId, &mut Match<V>),
    >)
        requires
            old(self).wf(),
        ensures
            final(self).waiting() == old(self).waiting(),
            final(self).match_of() == old(self).match_of(),
            match found {
                Some((id, m)) => {
                    &&& old(self).match_of().contains_key(*player)
                    &&& id == old(self).match_of()[*player]
                    &&& *m == old(self).live()[id]
                    &&& final(self).live() == old(self).live().insert(id, *final(m))
                    &&& (final(m).player_a == m.player_a && final(m).player_b == m.player_b
                        ==> final(self).wf())
                },
                None => {
                    &&& !old(self).match_of().contains_key(*player)
                    &&& final(self).live() == old(self).live()
                    &&& final(self).wf()
                },
            },
    {
        let match_id = match self.match_ids.get(player) {
            Some(match_id) => *match_id,
            None => {
                return None;
            },
        };
        assert(old(self).player_is_placed(*player));
        match self.matches.entry(match_id) {
            Entry::Occupied(entry) => Some((match_id, entry.into_mut())),
            Entry::Vacant(_) => None,
        }
    }

    /// The matchmaker knows every one of the players.
    pub open spec fn all_known(&self, players: Seq<u32>) -> bool {
        forall|i: int|
            0 <= i < players.len() ==> self.status_of(#[trigger] players[i])
                != PlayerStatus::NotFound
    }

    /// A player id that the matchmaker does not know, found by drawing
    /// numbers at random, at most `attempts` of them. See [`find_free_id`].
    ///
    /// The id that comes back is the first number drawn that the matchmaker
    /// does not know. No id comes back only after `attempts` draws of players
    /// that it knows, so a matchmaker without players finds one at the first
    /// attempt.
    pub fn get_free_player_id(&self, attempts: usize) -> (free: Option<u32>)
        ensures
            exists|draws: Seq<u32>| #[trigger]
                self.all_known(draws) && match free {
                    Some(id) => draws.len() < attempts && self.status_of(id)
                        == PlayerStatus::NotFound,
                    None => draws.len() == attempts,
                },
            free matches Some(id) ==> self.status_of(id) == PlayerStatus::NotFound,
            attempts == 0 ==> free is None,
            attempts > 0 && (forall|id: u32| self.status_of(id) == PlayerStatus::NotFound)
                ==> free is Some,
    {
        let is_used = |id: u32| -> (used: bool)
            ensures
                used == (self.status_of(id) != PlayerStatus::NotFound),
            { !self.is_free_player_id(id) };
        let free = find_free_id(is_used, attempts);
        proof {
            let draws = choose|draws: Seq<u32>| #[trigger]
                all_in_use(is_used, draws) && match free {
                    Some(id) => draws.len() < attempts && call_ensures(is_used, (id,), false),
                    None => draws.len() == attempts,
                };
            assert forall|i: int| 0 <= i < draws.len() implies self.status_of(
                #[trigger] draws[i],
            ) != PlayerStatus::NotFound by {
                assert(call_ensures(is_used, (draws[i],), true));
            }
            assert(self.all_known(draws));
            if attempts > 0 && free is None {
                assert(self.status_of(draws[0]) != PlayerStatus::NotFound);
            }
        }
        free
    }

    /// Whether the matchmaker does not know the player.
    pub fn is_free_player_id(&self, id: u32) -> (free: bool)
        ensures
            free == (self.status_of(id) == PlayerStatus::NotFound),
    {
        match self.get_player_status(&id) {
            PlayerStatus::NotFound => true,
            _ => false,
        }
    }
}

} // verus!
