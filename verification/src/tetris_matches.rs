//! The games that are under way: a matchmaker whose matches are pairs of
//! boards, and what a player's requests do to them.

use crate::matches::{Match, MatchId, Matches, PlayerSide, PlayerStatus};
use crate::tetris::{Action, ActionResult, Tetris, TetrisGameState};
use crate::tetris_pair::{Pair, PairChance, TetrisPair};
use vstd::prelude::*;

verus! {

/// A matchmaker for games on pairs of boards.
pub struct TetrisMatches {
    matches: Matches<TetrisPair>,
}

/// The pair of boards of a match, as contracts speak of it.
pub open spec fn pair_of(m: Match<TetrisPair>) -> Pair {
    m.field@
}

/// Whether the game of a pair has ended.
pub open spec fn pair_is_over(pair: Pair) -> bool {
    pair.a.game_over || pair.b.game_over
}

/// A pair at the start of a game, on boards of ten columns and twenty
/// rows, with no request for a tick.
pub open spec fn is_fresh_pair(pair: Pair) -> bool {
    &&& pair.a == Tetris::new_board(10, 20, pair.a.next)
    &&& pair.b == Tetris::new_board(10, 20, pair.b.next)
    &&& !pair.step_a
    &&& !pair.step_b
}

impl TetrisMatches {
    /// The players that wait for an opponent.
    pub closed spec fn waiting(&self) -> Set<u32> {
        self.matches.waiting()
    }

    /// The match of each player who is in one.
    pub closed spec fn match_of(&self) -> Map<u32, MatchId> {
        self.matches.match_of()
    }

    /// The matches that are under way.
    pub closed spec fn live(&self) -> Map<MatchId, Match<TetrisPair>> {
        self.matches.live()
    }

    /// The matchmaker is well-formed, and so is every pair of boards.
    pub closed spec fn wf(&self) -> bool {
        &&& self.matches.wf()
        &&& forall|id: MatchId| #[trigger]
            self.matches.live().contains_key(id) ==> self.matches.live()[id].field.wf()
    }

    /// Every player in a match is on one side of it, and every pair of
    /// boards is well-formed.
    pub proof fn lemma_wf(&self, player: u32)
        requires
            self.wf(),
            self.match_of().contains_key(player),
        ensures
            self.live().contains_key(self.match_of()[player]),
            self.live()[self.match_of()[player]].side_of(player) is Some,
            self.live()[self.match_of()[player]].field.wf(),
            !self.waiting().contains(player),
    {
        assert(self.matches.match_of().contains_key(player));
        assert(self.matches.player_is_placed(player));
        assert(self.matches.live().contains_key(self.match_of()[player]));
    }

    /// No players, no games.
    pub fn new() -> (games: Self)
        ensures
            games.wf(),
            games.waiting() == Set::<u32>::empty(),
            games.match_of() == Map::<u32, MatchId>::empty(),
            games.live() == Map::<MatchId, Match<TetrisPair>>::empty(),
    {
        TetrisMatches { matches: Matches::new() }
    }

    /// Every one of the ids is in use: its player is in a match or waits.
    pub open spec fn all_in_use(&self, ids: Seq<u32>) -> bool {
        forall|i: int|
            0 <= i < ids.len() ==> self.match_of().contains_key(#[trigger] ids[i])
                || self.waiting().contains(ids[i])
    }

    /// A player id that is not in use, found by drawing numbers at random,
    /// at most `attempts` of them. As long as the ids in use are few among
    /// all numbers, one draw is enough almost always.
    ///
    /// The id that comes back is the first number drawn that is not in use.
    /// No id comes back only after `attempts` draws of ids that are in use,
    /// so without players the first attempt finds one.
    pub fn get_free_user_id(&self, attempts: usize) -> (free: Option<u32>)
        ensures
            exists|draws: Seq<u32>| #[trigger]
                self.all_in_use(draws) && match free {
                    Some(id) => draws.len() < attempts && !self.match_of().contains_key(id)
                        && !self.waiting().contains(id),
                    None => draws.len() == attempts,
                },
            free matches Some(id) ==> !self.match_of().contains_key(id) && !self.waiting().contains(
                id,
            ),
            attempts == 0 ==> free is None,
            attempts > 0 && self.match_of().dom() == Set::<u32>::empty() && self.waiting()
                == Set::<u32>::empty() ==> free is Some,
    {
        let free = self.matches.get_free_player_id(attempts);
        proof {
            let draws = choose|draws: Seq<u32>| #[trigger]
                self.matches.all_known(draws) && match free {
                    Some(id) => draws.len() < attempts && self.matches.status_of(id)
                        == PlayerStatus::NotFound,
                    None => draws.len() == attempts,
                };
            assert forall|i: int| 0 <= i < draws.len() implies self.match_of().contains_key(
                #[trigger] draws[i],
            ) || self.waiting().contains(draws[i]) by {
                assert(self.matches.status_of(draws[i]) != PlayerStatus::NotFound);
            }
            assert(self.all_in_use(draws));
            if attempts > 0 && free is None {
                assert(self.match_of().contains_key(draws[0]) || self.waiting().contains(
                    draws[0],
                ));
                assert(self.match_of().dom().contains(draws[0]) || self.waiting().contains(
                    draws[0],
                ));
            }
        }
        free
    }

    /// The board of a player who is in a match.
    pub fn game_state(&self, user_id: u32) -> (state: Option<TetrisGameState>)
        requires
            self.wf(),
        ensures
            match state {
                Some(state) => {
                    &&& self.match_of().contains_key(user_id)
                    &&& self.live()[self.match_of()[user_id]].side_of(user_id) matches Some(side)
                    &&& state.shows(pair_of(self.live()[self.match_of()[user_id]]).board(side))
                },
                None => !self.match_of().contains_key(user_id),
            },
    {
        match self.matches.get_match_for_player(&user_id) {
            Some((_, tetris_match)) => {
                proof {
                    self.lemma_wf(user_id);
                }
                match tetris_match.get_player_side(&user_id) {
                    Some(player_side) => Some(
                        tetris_match.field.get_player_game_state(player_side),
                    ),
                    None => None,
                }
            },
            None => None,
        }
    }

    /// Carries out an action of a player on the player's board. A player
    /// who is in no match can do nothing.
    pub fn add_action(&mut self, user_id: u32, action: Action) -> (result: Option<ActionResult>)
        requires
            old(self).wf(),
        ensures
            final(self).wf(),
            final(self).waiting() == old(self).waiting(),
            final(self).match_of() == old(self).match_of(),
            match result {
                Some(result) => {
                    &&& old(self).match_of().contains_key(user_id)
                    &&& old(self).live()[old(self).match_of()[user_id]].side_of(user_id) matches Some(
                        side,
                    )
                    &&& final(self).acted(*old(self), old(self).match_of()[user_id], side, action)
                    &&& result == pair_of(old(self).live()[old(self).match_of()[user_id]]).board(
                        side,
                    ).action_result(action)
                },
                None => {
                    &&& !old(self).match_of().contains_key(user_id)
                    &&& final(self).live() == old(self).live()
                },
            },
    {
        let mut result: Option<ActionResult> = None;
        proof {
            if self.match_of().contains_key(user_id) {
                self.lemma_wf(user_id);
            }
        }
        match self.matches.get_mut_match_for_player(&user_id) {
            Some((_, tetris_match)) => {
                match tetris_match.get_player_side(&user_id) {
                    Some(player_side) => {
                        result = Some(tetris_match.field.add_player_action(player_side, action));
                    },
                    None => {},
                }
            },
            None => {},
        }
        result
    }

    /// The match `id` went from what it was in `before` to what it is now by
    /// an action of `side`, whatever chance gave; nothing else has changed.
    pub open spec fn acted(
        &self,
        before: TetrisMatches,
        id: MatchId,
        side: PlayerSide,
        action: Action,
    ) -> bool {
        &&& before.live().contains_key(id)
        &&& self.live() == before.live().insert(id, self.live()[id])
        &&& self.live()[id].player_a == before.live()[id].player_a
        &&& self.live()[id].player_b == before.live()[id].player_b
        &&& exists|chance: PairChance| #[trigger]
            pair_of(before.live()[id]).after_player_action(side, action, chance) == pair_of(
                self.live()[id],
            )
    }

    /// The match `id`, whose pair of boards was `start`, took a request of
    /// `side` for a tick, whatever chance gave, and goes on.
    pub open spec fn stepped(&self, id: MatchId, start: Pair, side: PlayerSide) -> bool {
        &&& self.live().contains_key(id)
        &&& !pair_is_over(pair_of(self.live()[id]))
        &&& exists|chance: PairChance| #[trigger]
            start.after_step_player(side, chance) == pair_of(self.live()[id])
    }

    /// The game of a pair whose boards were `start` ended with a request of
    /// `side` for a tick, whatever chance gave.
    pub open spec fn ended(start: Pair, side: PlayerSide) -> bool {
        exists|chance: PairChance| pair_is_over(#[trigger] start.after_step_player(side, chance))
    }

    /// A player asks for the next tick.
    ///
    /// A player who is in no match gets one if somebody else waits, and
    /// waits otherwise; who waits gets no board back. In a match, the request
    /// is noted, and the tick is taken on both boards once both players have
    /// asked. If the game has ended by then, the match is removed and there
    /// is no board to return; otherwise the player's board comes back.
    pub fn step(&mut self, user_id: u32) -> (state: Option<TetrisGameState>)
        requires
            old(self).wf(),
        ensures
            final(self).wf(),
            old(self).match_of().contains_key(user_id) ==> {
                let id = old(self).match_of()[user_id];
                let start = pair_of(old(self).live()[id]);
                &&& old(self).live()[id].side_of(user_id) matches Some(side)
                &&& final(self).waiting() == old(self).waiting()
                &&& match state {
                    Some(state) => {
                        &&& final(self).stepped(id, start, side)
                        &&& state.shows(pair_of(final(self).live()[id]).board(side))
                        &&& final(self).live() == old(self).live().insert(
                            id,
                            final(self).live()[id],
                        )
                        &&& final(self).live()[id].player_a == old(self).live()[id].player_a
                        &&& final(self).live()[id].player_b == old(self).live()[id].player_b
                        &&& final(self).match_of() == old(self).match_of()
                    },
                    None => {
                        &&& Self::ended(start, side)
                        &&& final(self).live() == old(self).live().remove(id)
                        &&& final(self).match_of() == old(self).match_of().remove(
                            old(self).live()[id].player_a,
                        ).remove(old(self).live()[id].player_b)
                    },
                }
            },
            !old(self).match_of().contains_key(user_id) ==> {
                if exists|o: u32| old(self).waiting().contains(o) && o != user_id {
                    &&& state matches Some(state)
                    &&& final(self).match_of().contains_key(user_id)
                    &&& !old(self).live().contains_key(final(self).match_of()[user_id])
                    &&& final(self).live() == old(self).live().insert(
                        final(self).match_of()[user_id],
                        final(self).live()[final(self).match_of()[user_id]],
                    )
                    &&& final(self).live()[final(self).match_of()[user_id]].player_a == user_id
                    &&& old(self).waiting().contains(
                        final(self).live()[final(self).match_of()[user_id]].player_b,
                    )
                    &&& final(self).live()[final(self).match_of()[user_id]].player_b != user_id
                    &&& final(self).match_of() == old(self).match_of().insert(
                        user_id,
                        final(self).match_of()[user_id],
                    ).insert(
                        final(self).live()[final(self).match_of()[user_id]].player_b,
                        final(self).match_of()[user_id],
                    )
                    &&& final(self).waiting() == old(self).waiting().remove(
                        final(self).live()[final(self).match_of()[user_id]].player_b,
                    ).remove(user_id)
                    &&& state.shows(pair_of(final(self).live()[final(self).match_of()[user_id]]).a)
                    &&& pair_of(final(self).live()[final(self).match_of()[user_id]]).step_a
                    &&& !pair_of(final(self).live()[final(self).match_of()[user_id]]).step_b
                    &&& is_fresh_pair(
                        Pair {
                            step_a: false,
                            ..pair_of(final(self).live()[final(self).match_of()[user_id]])
                        },
                    )
                } else {
                    &&& state is None
                    &&& final(self).waiting() == old(self).waiting().insert(user_id)
                    &&& final(self).match_of() == old(self).match_of()
                    &&& final(self).live() == old(self).live()
                }
            },
    {
        if !self.matches.find_match(&user_id) {
            return None;
        }
        let ghost found = self.matches;
        proof {
            assert(self.matches.match_of().contains_key(user_id));
            assert(self.matches.player_is_placed(user_id));
            let id = self.matches.match_of()[user_id];
            assert(self.matches.live().contains_key(id));
            assert forall|other: MatchId| #[trigger]
                self.matches.live().contains_key(other) implies self.matches.live()[other].field.wf() by {
                if other != id || old(self).match_of().contains_key(user_id) {
                    assert(old(self).matches.live().contains_key(other));
                }
            }
        }
        let mut state: Option<TetrisGameState> = None;
        let mut finished: Option<MatchId> = None;
        match self.matches.get_mut_match_for_player(&user_id) {
            Some((match_id, tetris_match)) => {
                match tetris_match.get_player_side(&user_id) {
                    Some(player_side) => {
                        tetris_match.field.step_player(player_side);
                        if tetris_match.field.is_game_over() {
                            finished = Some(match_id);
                        } else {
                            state = Some(tetris_match.field.get_player_game_state(player_side));
                        }
                    },
                    None => {},
                }
            },
            None => {},
        }
        match finished {
            Some(match_id) => {
                self.matches.remove_match(match_id);
                proof {
                    assert(self.matches.live() =~= found.live().remove(match_id));
                }
            },
            None => {},
        }
        state
    }
}

} // verus!
