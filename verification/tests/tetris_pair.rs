use gameserver::grid::new_field;
use gameserver::matches::PlayerSide;
use gameserver::tetris::{
    Action, ActionResult, CellType, Chance, Rotation, StepResult, Tetromino, TetrominoType,
};
use gameserver::tetris_matches::TetrisMatches;
use gameserver::tetris_pair::{PairChance, TetrisPair};

fn pair_chance(shape: TetrominoType, hole_a: usize, hole_b: usize) -> PairChance {
    PairChance { a: Chance { shape, hole: hole_a }, b: Chance { shape, hole: hole_b } }
}

#[test]
fn new_pair_has_two_empty_boards() {
    let pair = TetrisPair::new(6, 9);
    let state = pair.get_game_state();
    assert_eq!(state.tetris_a.field, new_field(6, 9));
    assert_eq!(state.tetris_b.field, new_field(6, 9));
    assert!(state.tetris_a.current.is_none());
    assert!(state.tetris_b.current.is_none());
    assert!(!pair.is_game_over());
    let pair = TetrisPair::default();
    assert_eq!(pair.get_player_game_state(PlayerSide::B).field, new_field(10, 20));
}

#[test]
fn one_side_alone_does_not_step() {
    let mut pair = TetrisPair::with_next(10, 20, TetrominoType::T, TetrominoType::S);
    let chance = pair_chance(TetrominoType::I, 0, 0);
    pair.step_player_with(PlayerSide::A, chance);
    pair.step_player_with(PlayerSide::A, chance);
    pair.step_player(PlayerSide::A);
    for side in [PlayerSide::A, PlayerSide::B] {
        let state = pair.get_player_game_state(side);
        assert_eq!(state.field, new_field(10, 20));
        assert!(state.current.is_none());
        assert!(!state.game_over);
    }
    assert_eq!(pair.get_player_game_state(PlayerSide::A).next, TetrominoType::T);
    assert_eq!(pair.get_player_game_state(PlayerSide::B).next, TetrominoType::S);
    // Now side B asks too, and both boards take one tick.
    pair.step_player_with(PlayerSide::B, chance);
    let state = pair.get_game_state();
    assert_eq!(state.tetris_a.current, Some(Tetromino::new(TetrominoType::T, Rotation::R0, 3, 0)));
    assert_eq!(state.tetris_b.current, Some(Tetromino::new(TetrominoType::S, Rotation::R0, 3, 0)));
    assert_eq!(state.tetris_a.next, TetrominoType::I);
    assert_eq!(state.tetris_b.next, TetrominoType::I);
    // The requests are used up: side B alone does not step again.
    pair.step_player_with(PlayerSide::B, chance);
    pair.step_player_with(PlayerSide::B, chance);
    let state = pair.get_game_state();
    assert_eq!(state.tetris_a.current.unwrap().y, 0);
    assert_eq!(state.tetris_b.current.unwrap().y, 0);
    pair.step_player_with(PlayerSide::A, chance);
    let state = pair.get_game_state();
    assert_eq!(state.tetris_a.current.unwrap().y, 1);
    assert_eq!(state.tetris_b.current.unwrap().y, 1);
}

#[test]
fn cleared_rows_come_in_on_the_other_board() {
    let e = CellType::Empty;
    let o = CellType::O;
    let z = CellType::Z;
    let mut pair = TetrisPair::with_next(4, 6, TetrominoType::I, TetrominoType::O);
    let chance = pair_chance(TetrominoType::O, 1, 2);
    // The first tick brings the pieces in. The bar of side A falls for five
    // ticks; the square of side B falls for four and is locked in the sixth.
    for _ in 0..6 {
        pair.step_player_with(PlayerSide::A, chance);
        pair.step_player_with(PlayerSide::B, chance);
    }
    let state = pair.get_game_state();
    assert_eq!(state.tetris_a.current, Some(Tetromino::new(TetrominoType::I, Rotation::R0, 0, 5)));
    assert_eq!(state.tetris_a.field, new_field(4, 6));
    assert_eq!(state.tetris_b.current, Some(Tetromino::new(TetrominoType::O, Rotation::R0, 0, 0)));
    assert_eq!(state.tetris_b.field[4], vec![o, o, e, e]);
    assert_eq!(state.tetris_b.field[5], vec![o, o, e, e]);
    // The seventh tick locks the bar, which fills its row.
    pair.step_player_with(PlayerSide::B, chance);
    pair.step_player_with(PlayerSide::A, chance);
    let state = pair.get_game_state();
    assert_eq!(state.tetris_a.field, new_field(4, 6));
    assert_eq!(state.tetris_a.current, Some(Tetromino::new(TetrominoType::O, Rotation::R0, 0, 0)));
    assert_eq!(state.tetris_b.current, Some(Tetromino::new(TetrominoType::O, Rotation::R0, 0, 1)));
    assert_eq!(
        state.tetris_b.field,
        vec![
            vec![e, e, e, e],
            vec![e, e, e, e],
            vec![e, e, e, e],
            vec![o, o, e, e],
            vec![o, o, e, e],
            vec![z, z, e, z],
        ]
    );
    assert!(!pair.is_game_over());
}

#[test]
fn a_drop_that_clears_rows_sends_them_over() {
    let e = CellType::Empty;
    let z = CellType::Z;
    let mut pair = TetrisPair::with_next(4, 3, TetrominoType::I, TetrominoType::I);
    let chance = pair_chance(TetrominoType::I, 3, 0);
    pair.step_player_with(PlayerSide::A, chance);
    pair.step_player_with(PlayerSide::B, chance);
    assert_eq!(
        pair.add_player_action_with(PlayerSide::B, Action::Drop, chance),
        ActionResult::Dropped(StepResult::LineCleared(1))
    );
    let state = pair.get_game_state();
    assert_eq!(state.tetris_b.field, new_field(4, 3));
    assert_eq!(state.tetris_a.field, vec![vec![e, e, e, e], vec![e, e, e, e], vec![z, z, z, e]]);
    assert_eq!(state.tetris_a.current, Some(Tetromino::new(TetrominoType::I, Rotation::R0, 0, 0)));
    assert_eq!(
        pair.add_player_action_with(PlayerSide::A, Action::MoveDown, chance),
        ActionResult::Applied
    );
    assert_eq!(
        pair.add_player_action_with(PlayerSide::A, Action::MoveDown, chance),
        ActionResult::Rejected
    );
    assert_eq!(pair.add_player_action(PlayerSide::A, Action::MoveLeft), ActionResult::Rejected);
    assert_eq!(pair.get_player_game_state(PlayerSide::B).field, new_field(4, 3));
}

#[test]
fn the_game_of_a_pair_ends_with_either_board() {
    let mut pair = TetrisPair::with_next(4, 2, TetrominoType::O, TetrominoType::I);
    let chance = pair_chance(TetrominoType::I, 0, 0);
    pair.step_player_with(PlayerSide::A, chance);
    pair.step_player_with(PlayerSide::B, chance);
    assert!(!pair.is_game_over());
    // Side A locks the square, and the bar that follows has no room.
    pair.step_player_with(PlayerSide::A, chance);
    pair.step_player_with(PlayerSide::B, chance);
    assert!(pair.is_game_over());
    assert!(pair.get_player_game_state(PlayerSide::A).game_over);
    assert!(!pair.get_player_game_state(PlayerSide::B).game_over);
}

#[test]
fn pair_chance_stays_inside_the_boards() {
    let pair = TetrisPair::new(5, 5);
    for _ in 0..50 {
        let chance = pair.draw_chance();
        assert!(chance.a.hole < 5);
        assert!(chance.b.hole < 5);
    }
}

#[test]
fn players_of_a_session_meet_and_play() {
    let mut games = TetrisMatches::new();
    assert!(games.game_state(1).is_none());
    assert!(games.add_action(1, Action::MoveLeft).is_none());
    // The first player waits.
    assert!(games.step(1).is_none());
    assert!(games.step(1).is_none());
    assert!(games.game_state(1).is_none());
    // The second player finds the first; the tick waits for the first.
    let state = games.step(2).unwrap();
    assert_eq!(state.field, new_field(10, 20));
    assert!(state.current.is_none());
    let state = games.step(2).unwrap();
    assert!(state.current.is_none());
    let state = games.step(1).unwrap();
    let piece = state.current.unwrap();
    assert_eq!((piece.x, piece.y, piece.rotation), (3, 0, Rotation::R0));
    let own = games.game_state(2).unwrap();
    let piece = own.current.unwrap();
    assert_eq!((piece.x, piece.y), (3, 0));
    assert_eq!(games.add_action(2, Action::MoveDown), Some(ActionResult::Applied));
    assert_eq!(games.game_state(2).unwrap().current.unwrap().y, 1);
    assert_eq!(games.game_state(1).unwrap().current.unwrap().y, 0);
    assert!(games.add_action(3, Action::MoveDown).is_none());
}

#[test]
fn a_session_removes_a_match_when_its_game_is_over() {
    let mut games = TetrisMatches::new();
    assert!(games.step(1).is_none());
    assert!(games.step(2).is_some());
    let mut rounds = 0;
    loop {
        rounds += 1;
        assert!(rounds < 1000);
        let first = games.step(1);
        if first.is_none() {
            break;
        }
        assert_eq!(games.add_action(1, Action::Drop).map(|r| r != ActionResult::Rejected), Some(true));
        if games.step(2).is_none() {
            break;
        }
    }
    // Both players are free again, and neither waits.
    assert!(games.game_state(1).is_none());
    assert!(games.game_state(2).is_none());
    assert!(games.add_action(1, Action::MoveLeft).is_none());
}

#[test]
fn free_user_ids_are_not_in_use() {
    let mut games = TetrisMatches::new();
    assert!(games.get_free_user_id(0).is_none());
    let id = games.get_free_user_id(10).unwrap();
    assert!(games.game_state(id).is_none());
    assert!(games.step(id).is_none());
    let other = games.get_free_user_id(1000).unwrap();
    assert!(other != id);
}
