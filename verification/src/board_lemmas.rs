//! What holds of a board over a whole game.

use crate::grid::{
    clear_full_rows, full_row_count, grid_width, lemma_clear_full_rows, lemma_with_garbage,
    rectangular, with_garbage,
};
use crate::tetris::{
    lemma_drawn_on_keeps_shape, Action, ActionResult, Board, CellType, Chance, Rotation,
    StepResult, Tetromino, TetrominoType,
};
use vstd::prelude::*;

verus! {

impl Tetromino {
    /// Every cell of a piece that lies inside the grid is a cell of the
    /// grid.
    pub proof fn lemma_cells_inside(self, g: Seq<Seq<CellType>>, width: int, x: int, y: int)
        requires
            rectangular(g, width),
            self.in_bounds(g),
            self.covers(x, y),
        ensures
            0 <= x < width,
            0 <= y < g.len(),
    {
        assert(g[0].len() == width);
    }
}

/// What can happen to a board: an action of its player, a tick, or penalty
/// rows from the opponent, each with what chance gave for it.
pub enum BoardEvent {
    Act(Action, Chance),
    Tick(TetrominoType),
    Penalty(nat, int),
}

impl Board {
    /// The board after an event.
    pub open spec fn after_event(self, event: BoardEvent) -> Board {
        match event {
            BoardEvent::Act(action, chance) => self.after_action(action, chance),
            BoardEvent::Tick(drawn) => self.after_step(drawn),
            BoardEvent::Penalty(n, hole) => self.after_penalty(n as int, hole),
        }
    }

    /// Whether the event moved or turned the piece, or let it fall, or
    /// brought a new piece in.
    pub open spec fn event_placed_piece(self, event: BoardEvent) -> bool {
        match event {
            BoardEvent::Act(action, chance) => match self.action_result(action) {
                ActionResult::Rejected => false,
                ActionResult::Applied => action != Action::BottomRefill,
                ActionResult::Dropped(result) => result != StepResult::GameOver,
            },
            BoardEvent::Tick(drawn) => self.step_result() != StepResult::GameOver,
            BoardEvent::Penalty(n, hole) => false,
        }
    }

    /// The board after a chain of events, the first event first.
    pub open spec fn after_events(self, events: Seq<BoardEvent>) -> Board
        decreases events.len(),
    {
        if events.len() == 0 {
            self
        } else {
            self.after_events(events.drop_last()).after_event(events.last())
        }
    }

    /// An attempt to move keeps the board well-formed, and a piece that
    /// was moved lies inside the grid, on empty cells only.
    pub proof fn lemma_move_keeps_board(self, dx: int, dy: int, rotation: Rotation)
        requires
            self.wf(),
        ensures
            self.after_move(dx, dy, rotation).wf(),
            self.after_move(dx, dy, rotation).grid == self.grid,
            self.candidate(dx, dy, rotation) is Some ==> self.after_move(
                dx,
                dy,
                rotation,
            ).piece_is_free(),
    {
    }

    /// A piece with nothing in its way falls by exactly one row in a tick,
    /// and the tick reports that it moved.
    pub proof fn lemma_free_fall(self, drawn: TetrominoType)
        requires
            self.wf(),
            !self.game_over,
            self.current is Some,
            !self.current.unwrap().collides(self.grid),
            !(Tetromino { y: (self.current.unwrap().y + 1) as isize, ..self.current.unwrap() }).collides(
                self.grid,
            ),
        ensures
            self.step_result() == StepResult::Moved,
            self.after_step(drawn).current == Some(
                Tetromino { y: (self.current.unwrap().y + 1) as isize, ..self.current.unwrap() },
            ),
            self.after_step(drawn).current.unwrap().y == self.current.unwrap().y + 1,
            self.after_step(drawn).current.unwrap().x == self.current.unwrap().x,
            self.after_step(drawn).current.unwrap().rotation == self.current.unwrap().rotation,
            self.after_step(drawn).grid == self.grid,
            self.after_step(drawn).next == self.next,
            !self.after_step(drawn).game_over,
    {
        let p = self.current.unwrap();
        assert(p.rotation.compose(Rotation::R0) == p.rotation);
    }

    /// A tick that locks the piece clears exactly the full rows of the
    /// grid with the piece drawn into it, and reports how many they were;
    /// the grid keeps its size.
    pub proof fn lemma_lock_clears_full_rows(self, drawn: TetrominoType)
        requires
            self.wf(),
            !self.stuck(),
            self.candidate(0, 1, Rotation::R0) is None,
        ensures
            self.after_step(drawn).grid == clear_full_rows(self.locked_grid()),
            self.after_step(drawn).grid.len() == self.grid.len(),
            rectangular(self.after_step(drawn).grid, self.width),
            self.step_result() != StepResult::GameOver ==> self.step_result()
                == StepResult::LineCleared(full_row_count(self.locked_grid()) as usize),
            0 <= full_row_count(self.locked_grid()) <= self.height,
    {
        self.lemma_locked_grid();
        lemma_clear_full_rows(self.locked_grid(), self.width);
    }

    /// Drawing the active piece keeps the size of the grid.
    pub proof fn lemma_locked_grid(self)
        requires
            self.wf(),
        ensures
            self.locked_grid().len() == self.grid.len(),
            rectangular(self.locked_grid(), self.width),
            grid_width(self.locked_grid()) == grid_width(self.grid),
    {
        if self.current is Some {
            lemma_drawn_on_keeps_shape(self.current.unwrap(), self.grid, self.width);
        }
    }

    /// A tick keeps the board well-formed. Unless it ends the game, the
    /// active piece lies on empty cells afterwards.
    pub proof fn lemma_step_keeps_board(self, drawn: TetrominoType)
        requires
            self.wf(),
        ensures
            self.after_step(drawn).wf(),
            self.step_result() != StepResult::GameOver ==> self.after_step(
                drawn,
            ).piece_is_free(),
            self.step_result() == StepResult::GameOver <==> self.after_step(drawn).game_over,
            self.game_over ==> self.after_step(drawn) == self,
    {
        self.lemma_locked_grid();
        lemma_clear_full_rows(self.locked_grid(), self.width);
        let settled = self.settled();
        if self.height > 0 {
            assert(self.grid[0].len() == self.width);
            assert(self.locked_grid()[0].len() == self.width);
            assert(settled.grid[0].len() == self.width);
        }
    }

    /// Penalty rows keep the board well-formed.
    pub proof fn lemma_penalty_keeps_board(self, n: int, hole: int)
        requires
            self.wf(),
            0 <= n,
        ensures
            self.after_penalty(n, hole).wf(),
    {
        lemma_with_garbage(self.grid, self.width, n, hole);
        if self.height > 0 {
            assert(self.grid[0].len() == self.width);
            assert(with_garbage(self.grid, n, hole)[0].len() == self.width);
        }
    }

    /// A fall keeps the board well-formed and the grid as it is, and ends
    /// where the piece cannot fall further.
    pub proof fn lemma_fallen(self)
        requires
            self.wf(),
        ensures
            self.fallen().wf(),
            self.fallen().grid == self.grid,
            self.fallen().game_over == self.game_over,
            self.fallen().current is Some == self.current is Some,
            self.fallen().candidate(0, 1, Rotation::R0) is None,
        decreases self.grid.len() - self.piece_row(),
    {
        if self.candidate(0, 1, Rotation::R0) is Some {
            self.lemma_move_keeps_board(0, 1, Rotation::R0);
            self.after_move(0, 1, Rotation::R0).lemma_fallen();
        }
    }

    /// An action keeps the board well-formed: the active piece stays inside
    /// the grid. After an action that moved or turned the piece, and after a
    /// drop that did not end the game, the piece lies on empty cells only.
    pub proof fn lemma_action_keeps_board(self, action: Action, chance: Chance)
        requires
            self.wf(),
        ensures
            self.after_action(action, chance).wf(),
            self.action_result(action) == ActionResult::Rejected ==> self.after_action(
                action,
                chance,
            ) == self,
            self.action_result(action) == ActionResult::Applied && action != Action::BottomRefill
                ==> self.after_action(action, chance).piece_is_free(),
            (self.action_result(action) matches ActionResult::Dropped(result) && result
                != StepResult::GameOver) ==> self.after_action(action, chance).piece_is_free(),
    {
        match action {
            Action::MoveLeft => self.lemma_move_keeps_board(-1, 0, Rotation::R0),
            Action::MoveRight => self.lemma_move_keeps_board(1, 0, Rotation::R0),
            Action::MoveDown => self.lemma_move_keeps_board(0, 1, Rotation::R0),
            Action::RotateLeft => self.lemma_move_keeps_board(0, 0, Rotation::R270),
            Action::RotateRight => self.lemma_move_keeps_board(0, 0, Rotation::R90),
            Action::Drop => {
                self.lemma_fallen();
                self.fallen().lemma_step_keeps_board(chance.shape);
            },
            Action::BottomRefill => {
                self.lemma_penalty_keeps_board(1, chance.hole as int);
            },
        }
    }

    /// Whatever happens to a board, in whatever order and with whatever
    /// chance gives, the board stays well-formed: the active piece, where
    /// there is one, lies inside the grid. And after every event that moved,
    /// turned or dropped the piece, or let it fall, or brought a new one in,
    /// the piece lies on empty cells only.
    pub proof fn lemma_events_keep_board(self, events: Seq<BoardEvent>)
        requires
            self.wf(),
        ensures
            self.after_events(events).wf(),
            events.len() > 0 ==> {
                let before = self.after_events(events.drop_last());
                &&& before.wf()
                &&& (before.event_placed_piece(events.last()) ==> self.after_events(
                    events,
                ).piece_is_free())
            },
        decreases events.len(),
    {
        if events.len() > 0 {
            self.lemma_events_keep_board(events.drop_last());
            let before = self.after_events(events.drop_last());
            match events.last() {
                BoardEvent::Act(action, chance) => before.lemma_action_keeps_board(action, chance),
                BoardEvent::Tick(drawn) => before.lemma_step_keeps_board(drawn),
                BoardEvent::Penalty(n, hole) => before.lemma_penalty_keeps_board(n as int, hole),
            }
        }
    }
}

} // verus!
