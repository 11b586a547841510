use gameserver::grid::new_field;
use gameserver::tetris::{Action, ActionResult, Chance, StepResult, TetrominoType};
use gameserver::tetris_pair::PairChance;
use gameserver::tetris_pair_match::{Player, TetrisPairMatch};

fn both(shape: TetrominoType) -> PairChance {
    PairChance { a: Chance { shape, hole: 0 }, b: Chance { shape, hole: 0 } }
}

#[test]
fn a_tick_needs_both_players() {
    let mut pair = TetrisPairMatch::new(10, 20);
    pair.step(Player::B);
    pair.step_with(Player::B, both(TetrominoType::O));
    assert!(pair.get_game_state(Player::A).current.is_none());
    assert!(pair.get_game_state(Player::B).current.is_none());
    pair.step_with(Player::A, both(TetrominoType::O));
    let a = pair.get_game_state(Player::A);
    let b = pair.get_game_state(Player::B);
    assert_eq!((a.current.unwrap().x, a.current.unwrap().y), (3, 0));
    assert_eq!((b.current.unwrap().x, b.current.unwrap().y), (3, 0));
    assert_eq!(a.next, TetrominoType::O);
    assert_eq!(b.next, TetrominoType::O);
    pair.step_with(Player::A, both(TetrominoType::O));
    assert_eq!(pair.get_game_state(Player::A).current.unwrap().y, 0);
    pair.step_with(Player::B, both(TetrominoType::O));
    assert_eq!(pair.get_game_state(Player::A).current.unwrap().y, 1);
    assert_eq!(pair.get_game_state(Player::B).current.unwrap().y, 1);
    assert!(!pair.is_game_over());
}

#[test]
fn cleared_rows_stay_at_home() {
    let mut pair = TetrisPairMatch::new(4, 3);
    let chance = both(TetrominoType::I);
    pair.step_with(Player::A, chance);
    pair.step_with(Player::B, chance);
    // Whatever came in first, a bar follows on both boards.
    let first = pair.add_action_with(Player::A, Action::Drop, chance.a);
    assert!(first == ActionResult::Dropped(StepResult::LineCleared(0))
        || first == ActionResult::Dropped(StepResult::LineCleared(1))
        || first == ActionResult::Dropped(StepResult::GameOver));
    let b = pair.get_game_state(Player::B);
    assert_eq!(b.field, new_field(4, 3));
    assert_eq!(pair.add_action(Player::B, Action::MoveDown), ActionResult::Applied);
    assert_eq!(pair.get_game_state(Player::B).current.unwrap().y, 1);
}

#[test]
fn the_match_ends_with_either_board() {
    let mut pair = TetrisPairMatch::new(4, 1);
    let chance = both(TetrominoType::O);
    // On a board of one row only the bar has room; the square that follows
    // it has none.
    let mut ticks = 0;
    while !pair.is_game_over() {
        ticks += 1;
        assert!(ticks <= 3);
        pair.step_with(Player::A, chance);
        pair.step_with(Player::B, chance);
    }
    assert!(pair.get_game_state(Player::A).game_over || pair.get_game_state(Player::B).game_over);
}
