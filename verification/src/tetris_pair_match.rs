//! Two boards that share their ticks and nothing else: a tick is taken on
//! both boards at once, as soon as both players have asked for it. No
//! penalty rows go from one board to the other.

use crate::tetris::{Action, ActionResult, Board, Chance, Tetris, TetrisGameState};
use crate::tetris_pair::PairChance;
use vstd::prelude::*;

verus! {

/// The two players of a match.
#[derive(Debug, Clone, Copy, PartialEq, Eq, Structural)]
pub enum Player {
    A,
    B,
}

/// The state of such a match as contracts speak of it.
pub struct PairMatch {
    pub a: Board,
    pub b: Board,
    /// Whether player A has asked for the next tick.
    pub step_a: bool,
    /// Whether player B has asked for the next tick.
    pub step_b: bool,
}

impl PairMatch {
    /// Both boards are well-formed.
    pub open spec fn wf(self) -> bool {
        self.a.wf() && self.b.wf()
    }

    /// The board of a player.
    pub open spec fn board(self, player: Player) -> Board {
        match player {
            Player::A => self.a,
            Player::B => self.b,
        }
    }

    /// Whether both players have asked for the tick once `player` has.
    pub open spec fn both_ask(self, player: Player) -> bool {
        match player {
            Player::A => self.step_b,
            Player::B => self.step_a,
        }
    }

    /// The match after `player` asked for a tick: the tick is taken on both
    /// boards when the other player has asked too; until then only the
    /// request is noted.
    pub open spec fn after_step(self, player: Player, chance: PairChance) -> PairMatch {
        if self.both_ask(player) {
            PairMatch {
                a: self.a.after_step(chance.a.shape),
                b: self.b.after_step(chance.b.shape),
                step_a: false,
                step_b: false,
            }
        } else {
            match player {
                Player::A => PairMatch { step_a: true, ..self },
                Player::B => PairMatch { step_b: true, ..self },
            }
        }
    }

    /// The match after an action of `player`, which changes that player's
    /// board only.
    pub open spec fn after_action(self, player: Player, action: Action, chance: Chance) -> PairMatch {
        match player {
            Player::A => PairMatch { a: self.a.after_action(action, chance), ..self },
            Player::B => PairMatch { b: self.b.after_action(action, chance), ..self },
        }
    }

    /// While one player has not asked for a tick, a request of the other
    /// changes neither board.
    pub proof fn lemma_request_waits_for_other_player(self, player: Player, chance: PairChance)
        requires
            !self.both_ask(player),
        ensures
            self.after_step(player, chance).a == self.a,
            self.after_step(player, chance).b == self.b,
            !self.after_step(player, chance).both_ask(player),
    {
    }
}

/// Two boards, one for each player, and the requests for the next tick.
pub struct TetrisPairMatch {
    tetris_a: Tetris,
    tetris_b: Tetris,
    step_a: bool,
    step_b: bool,
}

impl View for TetrisPairMatch {
    type V = PairMatch;

    closed spec fn view(&self) -> PairMatch {
        PairMatch {
            a: self.tetris_a@,
            b: self.tetris_b@,
            step_a: self.step_a,
            step_b: self.step_b,
        }
    }
}

impl TetrisPairMatch {
    /// Both boards are well-formed.
    pub open spec fn wf(&self) -> bool {
        self@.wf()
    }

    /// Two empty boards of the given size, and no request; chance decides
    /// which shapes come in first.
    pub fn new(width: usize, height: usize) -> (pair: TetrisPairMatch)
        requires
            width <= isize::MAX,
            height <= isize::MAX,
        ensures
            pair.wf(),
            !pair@.step_a,
            !pair@.step_b,
            pair@.a == Tetris::new_board(width as int, height as int, pair@.a.next),
            pair@.b == Tetris::new_board(width as int, height as int, pair@.b.next),
    {
        TetrisPairMatch {
            tetris_a: Tetris::new(width, height),
            tetris_b: Tetris::new(width, height),
            step_a: false,
            step_b: false,
        }
    }

    /// Notes that `player` asks for the next tick, and takes the tick on
    /// both boards if the other player has asked too, with what chance gave.
    pub fn step_with(&mut self, player: Player, chance: PairChance)
        requires
            old(self).wf(),
        ensures
            final(self).wf(),
            final(self)@ == old(self)@.after_step(player, chance),
    {
        match player {
            Player::A => self.step_a = true,
            Player::B => self.step_b = true,
        }
        if self.step_a && self.step_b {
            self.step_a = false;
            self.step_b = false;
            self.tetris_a.step_with(chance.a.shape);
            self.tetris_b.step_with(chance.b.shape);
        }
    }

    /// Notes that `player` asks for the next tick, and takes the tick on
    /// both boards if the other player has asked too; chance decides which
    /// shapes follow. See [`TetrisPairMatch::step_with`].
    pub fn step(&mut self, player: Player)
        requires
            old(self).wf(),
        ensures
            final(self).wf(),
            exists|chance: PairChance| final(self)@ == old(self)@.after_step(player, chance),
            !old(self)@.both_ask(player) ==> final(self)@.a == old(self)@.a && final(self)@.b
                == old(self)@.b,
    {
        let chance = PairChance { a: self.tetris_a.draw_chance(), b: self.tetris_b.draw_chance() };
        self.step_with(player, chance);
    }

    /// A snapshot of the board of a player.
    pub fn get_game_state(&self, player: Player) -> (state: TetrisGameState)
        ensures
            state.shows(self@.board(player)),
    {
        match player {
            Player::A => self.tetris_a.get_game_state(),
            Player::B => self.tetris_b.get_game_state(),
        }
    }

    /// Carries out an action on the board of `player`, with what chance
    /// gave.
    pub fn add_action_with(&mut self, player: Player, action: Action, chance: Chance) -> (result:
        ActionResult)
        requires
            old(self).wf(),
        ensures
            final(self).wf(),
            result == old(self)@.board(player).action_result(action),
            final(self)@ == old(self)@.after_action(player, action, chance),
    {
        match player {
            Player::A => self.tetris_a.add_action_with(action, chance),
            Player::B => self.tetris_b.add_action_with(action, chance),
        }
    }

    /// Carries out an action on the board of `player`; chance decides what
    /// it needs of it. See [`TetrisPairMatch::add_action_with`].
    pub fn add_action(&mut self, player: Player, action: Action) -> (result: ActionResult)
        requires
            old(self).wf(),
        ensures
            final(self).wf(),
            result == old(self)@.board(player).action_result(action),
            exists|chance: Chance|
                (old(self)@.board(player).width > 0 ==> chance.hole < old(self)@.board(
                    player,
                ).width) && final(self)@ == old(self)@.after_action(player, action, chance),
    {
        let chance = match player {
            Player::A => self.tetris_a.draw_chance(),
            Player::B => self.tetris_b.draw_chance(),
        };
        self.add_action_with(player, action, chance)
    }

    /// Whether the game has ended on either board.
    pub fn is_game_over(&self) -> (over: bool)
        ensures
            over == (self@.a.game_over || self@.b.game_over),
    {
        self.tetris_a.is_game_over() || self.tetris_b.is_game_over()
    }
}

} // verus!
