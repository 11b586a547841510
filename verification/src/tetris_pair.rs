//! Two boards that play against each other: a tick is taken on both boards
//! at once, as soon as both players have asked for it, and the rows that one
//! player clears come in on the other player's board as penalty rows.

use crate::matches::PlayerSide;
use crate::tetris::{
    Action, ActionResult, Board, Chance, StepResult, Tetris, TetrisGameState, TetrominoType,
};
use vstd::prelude::*;

verus! {

/// A snapshot of both boards.
#[derive(Debug, Clone)]
pub struct TetrisPairState {
    pub tetris_a: TetrisGameState,
    pub tetris_b: TetrisGameState,
}

/// What chance decides for the two boards.
#[derive(Debug, Clone, Copy, PartialEq, Eq, Structural)]
pub struct PairChance {
    pub a: Chance,
    pub b: Chance,
}

/// The state of a pair as contracts speak of it.
pub struct Pair {
    pub a: Board,
    pub b: Board,
    /// Whether side A has asked for the next tick.
    pub step_a: bool,
    /// Whether side B has asked for the next tick.
    pub step_b: bool,
}

/// The board after the opponent's tick: where that tick cleared rows, as
/// many penalty rows come in, with their hole at `hole`.
pub open spec fn penalized(board: Board, opponent: StepResult, hole: int) -> Board {
    match opponent {
        StepResult::LineCleared(n) => board.after_penalty(n as int, hole),
        _ => board,
    }
}

/// The board after the opponent's action: where a drop cleared rows, as
/// many penalty rows come in, with their hole at `hole`.
pub open spec fn penalized_by_action(board: Board, opponent: ActionResult, hole: int) -> Board {
    match opponent {
        ActionResult::Dropped(result) => penalized(board, result, hole),
        _ => board,
    }
}

impl Pair {
    /// Both boards are well-formed.
    pub open spec fn wf(self) -> bool {
        self.a.wf() && self.b.wf()
    }

    /// The board of a side.
    pub open spec fn board(self, side: PlayerSide) -> Board {
        match side {
            PlayerSide::A => self.a,
            PlayerSide::B => self.b,
        }
    }

    /// Whether both sides have asked for the tick once `side` has.
    pub open spec fn both_ask(self, side: PlayerSide) -> bool {
        match side {
            PlayerSide::A => self.step_b,
            PlayerSide::B => self.step_a,
        }
    }

    /// The pair after a tick on both boards. Each board takes its tick
    /// first; then the rows that each side cleared come in on the other.
    pub open spec fn after_joint_step(self, chance: PairChance) -> Pair {
        Pair {
            a: penalized(
                self.a.after_step(chance.a.shape),
                self.b.step_result(),
                chance.a.hole as int,
            ),
            b: penalized(
                self.b.after_step(chance.b.shape),
                self.a.step_result(),
                chance.b.hole as int,
            ),
            step_a: false,
            step_b: false,
        }
    }

    /// The pair after `side` asked for a tick: the tick is taken when the
    /// other side has asked too; until then only the request is noted.
    pub open spec fn after_step_player(self, side: PlayerSide, chance: PairChance) -> Pair {
        if self.both_ask(side) {
            self.after_joint_step(chance)
        } else {
            match side {
                PlayerSide::A => Pair { step_a: true, ..self },
                PlayerSide::B => Pair { step_b: true, ..self },
            }
        }
    }

    /// The pair after an action of `side`.
    pub open spec fn after_player_action(
        self,
        side: PlayerSide,
        action: Action,
        chance: PairChance,
    ) -> Pair {
        match side {
            PlayerSide::A => Pair {
                a: self.a.after_action(action, chance.a),
                b: penalized_by_action(self.b, self.a.action_result(action), chance.b.hole as int),
                ..self
            },
            PlayerSide::B => Pair {
                a: penalized_by_action(self.a, self.b.action_result(action), chance.a.hole as int),
                b: self.b.after_action(action, chance.b),
                ..self
            },
        }
    }

    /// While one side has not asked for a tick, a request of the other side
    /// changes neither board, and the first side has still not asked.
    pub proof fn lemma_request_waits_for_other_side(self, side: PlayerSide, chance: PairChance)
        requires
            !self.both_ask(side),
        ensures
            self.after_step_player(side, chance).a == self.a,
            self.after_step_player(side, chance).b == self.b,
            !self.after_step_player(side, chance).both_ask(side),
    {
    }

    /// Two requests in a row by one side, with none by the other, change
    /// neither board.
    pub proof fn lemma_two_requests_of_one_side(
        self,
        side: PlayerSide,
        first: PairChance,
        second: PairChance,
    )
        requires
            !self.both_ask(side),
        ensures
            self.after_step_player(side, first).after_step_player(side, second).a == self.a,
            self.after_step_player(side, first).after_step_player(side, second).b == self.b,
    {
    }

    /// Once both sides have asked, each board takes exactly one tick and
    /// both requests are used up.
    pub proof fn lemma_second_request_steps_both(self, side: PlayerSide, chance: PairChance)
        requires
            self.both_ask(side),
        ensures
            self.after_step_player(side, chance) == self.after_joint_step(chance),
            !self.after_step_player(side, chance).step_a,
            !self.after_step_player(side, chance).step_b,
    {
    }
}

/// Two boards, one for each side, and the requests for the next tick.
pub struct TetrisPair {
    tetris_a: Tetris,
    tetris_b: Tetris,
    step_a: bool,
    step_b: bool,
}

impl View for TetrisPair {
    type V = Pair;

    closed spec fn view(&self) -> Pair {
        Pair { a: self.tetris_a@, b: self.tetris_b@, step_a: self.step_a, step_b: self.step_b }
    }
}

impl TetrisPair {
    /// Both boards are well-formed.
    pub open spec fn wf(&self) -> bool {
        self@.wf()
    }

    /// Two empty boards of the given size with the given shapes to come in
    /// first, and no request.
    pub fn with_next(
        width: usize,
        height: usize,
        next_a: TetrominoType,
        next_b: TetrominoType,
    ) -> (pair: TetrisPair)
        requires
            width <= isize::MAX,
            height <= isize::MAX,
        ensures
            pair.wf(),
            !pair@.step_a,
            !pair@.step_b,
            pair@.a == Tetris::new_board(width as int, height as int, next_a),
            pair@.b == Tetris::new_board(width as int, height as int, next_b),
    {
        TetrisPair {
            tetris_a: Tetris::with_next(width, height, next_a),
            tetris_b: Tetris::with_next(width, height, next_b),
            step_a: false,
            step_b: false,
        }
    }

    /// Two empty boards of the given size, and no request; chance decides
    /// which shapes come in first.
    pub fn new(width: usize, height: usize) -> (pair: TetrisPair)
        requires
            width <= isize::MAX,
            height <= isize::MAX,
        ensures
            pair.wf(),
            !pair@.step_a,
            !pair@.step_b,
            pair@.a == Tetris::new_board(width as int, height as int, pair@.a.next),
            pair@.b == Tetris::new_board(width as int, height as int, pair@.b.next),
    {
        TetrisPair {
            tetris_a: Tetris::new(width, height),
            tetris_b: Tetris::new(width, height),
            step_a: false,
            step_b: false,
        }
    }

    /// Asks chance for what a tick or an action of either side may need:
    /// for each board any shape, and a hole in any of its columns. For a board
    /// without columns nothing is drawn for the hole, which is zero then.
    pub fn draw_chance(&self) -> (chance: PairChance)
        ensures
            self@.a.width > 0 ==> chance.a.hole < self@.a.width,
            self@.b.width > 0 ==> chance.b.hole < self@.b.width,
            self@.a.width == 0 ==> chance.a.hole == 0,
            self@.b.width == 0 ==> chance.b.hole == 0,
    {
        PairChance { a: self.tetris_a.draw_chance(), b: self.tetris_b.draw_chance() }
    }

    /// Notes that `player` asks for the next tick, and takes the tick on
    /// both boards if the other side has asked too.
    pub fn step_player_with(&mut self, player: PlayerSide, chance: PairChance)
        requires
            old(self).wf(),
        ensures
            final(self).wf(),
            final(self)@ == old(self)@.after_step_player(player, chance),
    {
        match player {
            PlayerSide::A => self.step_a = true,
            PlayerSide::B => self.step_b = true,
        }
        if self.step_a && self.step_b {
            self.step_a = false;
            self.step_b = false;
            let step_result_a = self.tetris_a.step_with(chance.a.shape);
            let step_result_b = self.tetris_b.step_with(chance.b.shape);
            match step_result_a {
                StepResult::LineCleared(n) => self.tetris_b.add_external_rows_with(
                    n,
                    chance.b.hole,
                ),
                _ => {},
            }
            match step_result_b {
                StepResult::LineCleared(n) => self.tetris_a.add_external_rows_with(
                    n,
                    chance.a.hole,
                ),
                _ => {},
            }
        }
    }

    /// Notes that `player` asks for the next tick, and takes the tick on
    /// both boards if the other side has asked too; chance decides what the
    /// tick needs of it. See [`TetrisPair::step_player_with`].
    pub fn step_player(&mut self, player: PlayerSide)
        requires
            old(self).wf(),
        ensures
            final(self).wf(),
            exists|chance: PairChance|
                {
                    &&& old(self)@.a.width > 0 ==> chance.a.hole < old(self)@.a.width
                    &&& old(self)@.b.width > 0 ==> chance.b.hole < old(self)@.b.width
                    &&& final(self)@ == old(self)@.after_step_player(player, chance)
                },
            !old(self)@.both_ask(player) ==> final(self)@.a == old(self)@.a && final(self)@.b
                == old(self)@.b,
    {
        let chance = self.draw_chance();
        self.step_player_with(player, chance);
    }

    /// A snapshot of the board of a side.
    pub fn get_player_game_state(&self, player: PlayerSide) -> (state: TetrisGameState)
        ensures
            state.shows(self@.board(player)),
    {
        match player {
            PlayerSide::A => self.tetris_a.get_game_state(),
            PlayerSide::B => self.tetris_b.get_game_state(),
        }
    }

    /// Carries out an action on the board of `player`, with what chance
    /// gave. Where a drop clears rows, as many penalty rows come in on the
    /// other board.
    pub fn add_player_action_with(
        &mut self,
        player: PlayerSide,
        action: Action,
        chance: PairChance,
    ) -> (result: ActionResult)
        requires
            old(self).wf(),
        ensures
            final(self).wf(),
            result == old(self)@.board(player).action_result(action),
            final(self)@ == old(self)@.after_player_action(player, action, chance),
    {
        match player {
            PlayerSide::A => {
                let result = self.tetris_a.add_action_with(action, chance.a);
                match result {
                    ActionResult::Dropped(StepResult::LineCleared(n)) => {
                        self.tetris_b.add_external_rows_with(n, chance.b.hole)
                    },
                    _ => {},
                }
                result
            },
            PlayerSide::B => {
                let result = self.tetris_b.add_action_with(action, chance.b);
                match result {
                    ActionResult::Dropped(StepResult::LineCleared(n)) => {
                        self.tetris_a.add_external_rows_with(n, chance.a.hole)
                    },
                    _ => {},
                }
                result
            },
        }
    }

    /// Carries out an action on the board of `player`; chance decides what
    /// it needs of it. See [`TetrisPair::add_player_action_with`].
    pub fn add_player_action(&mut self, player: PlayerSide, action: Action) -> (result:
        ActionResult)
        requires
            old(self).wf(),
        ensures
            final(self).wf(),
            result == old(self)@.board(player).action_result(action),
            exists|chance: PairChance|
                {
                    &&& old(self)@.a.width > 0 ==> chance.a.hole < old(self)@.a.width
                    &&& old(self)@.b.width > 0 ==> chance.b.hole < old(self)@.b.width
                    &&& final(self)@ == old(self)@.after_player_action(player, action, chance)
                },
    {
        let chance = self.draw_chance();
        self.add_player_action_with(player, action, chance)
    }

    /// Whether the game has ended on either board.
    pub fn is_game_over(&self) -> (over: bool)
        ensures
            over == (self@.a.game_over || self@.b.game_over),
    {
        self.tetris_a.is_game_over() || self.tetris_b.is_game_over()
    }

    /// A snapshot of both boards.
    pub fn get_game_state(&self) -> (state: TetrisPairState)
        ensures
            state.tetris_a.shows(self@.a),
            state.tetris_b.shows(self@.b),
    {
        TetrisPairState {
            tetris_a: self.tetris_a.get_game_state(),
            tetris_b: self.tetris_b.get_game_state(),
        }
    }
}

impl Default for TetrisPair {
    /// Two boards of ten columns and twenty rows.
    fn default() -> (pair: TetrisPair)
        ensures
            pair.wf(),
            !pair@.step_a,
            !pair@.step_b,
            pair@.a == Tetris::new_board(10, 20, pair@.a.next),
            pair@.b == Tetris::new_board(10, 20, pair@.b.next),
    {
        TetrisPair::new(10, 20)
    }
}

} // verus!
