//! Move legality: one fixture per rule, with the expected verdict.

use xiangqi_cli::fen::FenProcessor;
use xiangqi_cli::rules::IllegalMoveReason;
use xiangqi_cli::state::{GameState, MoveError, Position};

fn pos(row: usize, col: usize) -> Position {
    Position { row, col }
}

fn state_of(fen: &str) -> GameState {
    FenProcessor::parse_fen(fen).expect("fixture FEN must parse")
}

#[test]
fn empty_source_square_is_rejected() {
    let st = GameState::new();
    assert_eq!(
        st.is_valid_move(pos(4, 4), pos(5, 4)),
        Err(IllegalMoveReason::NoPieceAtSource)
    );
}

#[test]
fn moving_the_opponents_piece_is_rejected() {
    let st = GameState::new();
    // Red to move; row 9 holds Black's back rank.
    assert_eq!(
        st.is_valid_move(pos(9, 0), pos(8, 0)),
        Err(IllegalMoveReason::NotCurrentPlayersPiece)
    );
}

#[test]
fn capturing_an_own_piece_is_rejected() {
    let st = GameState::new();
    // Red rook a0 straight up onto the red pawn a3.
    assert_eq!(
        st.is_valid_move(pos(0, 0), pos(3, 0)),
        Err(IllegalMoveReason::DestinationOccupied)
    );
}

#[test]
fn general_may_not_leave_the_palace() {
    // Lone red general at e0.
    let st = state_of("9/9/9/9/9/9/9/9/9/4K4 w");
    assert_eq!(
        st.is_valid_move(pos(0, 4), pos(0, 2)),
        Err(IllegalMoveReason::GeneralOutsidePalace)
    );
}

#[test]
fn general_moves_one_straight_step() {
    let st = state_of("9/9/9/9/9/9/9/9/9/4K4 w");
    assert_eq!(st.is_valid_move(pos(0, 4), pos(1, 4)), Ok(()));
    assert_eq!(
        st.is_valid_move(pos(0, 4), pos(1, 5)),
        Err(IllegalMoveReason::GeneralBadStep)
    );
    assert_eq!(
        st.is_valid_move(pos(0, 4), pos(2, 4)),
        Err(IllegalMoveReason::GeneralBadStep)
    );
}

#[test]
fn advisor_stays_in_palace_and_steps_diagonally() {
    let st = state_of("9/9/9/9/9/9/9/9/9/3A5 w");
    assert_eq!(st.is_valid_move(pos(0, 3), pos(1, 4)), Ok(()));
    assert_eq!(
        st.is_valid_move(pos(0, 3), pos(1, 3)),
        Err(IllegalMoveReason::AdvisorBadStep)
    );
    // One diagonal step out of the palace at column 2.
    assert_eq!(
        st.is_valid_move(pos(0, 3), pos(1, 2)),
        Err(IllegalMoveReason::AdvisorOutsidePalace)
    );
}

#[test]
fn elephant_may_not_cross_the_river() {
    // Red elephant on c4 (row 4, col 2); crossing to row 6 is barred
    // before the step shape is even looked at.
    let st = state_of("9/9/9/9/9/2B6/9/9/9/9 w");
    assert_eq!(
        st.is_valid_move(pos(4, 2), pos(6, 4)),
        Err(IllegalMoveReason::ElephantAcrossRiver)
    );
    assert_eq!(st.is_valid_move(pos(4, 2), pos(2, 4)), Ok(()));
    assert_eq!(
        st.is_valid_move(pos(4, 2), pos(3, 3)),
        Err(IllegalMoveReason::ElephantBadStep)
    );
}

#[test]
fn elephant_eye_block_is_rejected() {
    // Red elephant c0, a red pawn on the eye square d1.
    let st = state_of("9/9/9/9/9/9/9/9/3P5/2B6 w");
    assert_eq!(
        st.is_valid_move(pos(0, 2), pos(2, 4)),
        Err(IllegalMoveReason::ElephantEyeBlocked)
    );
    // The other diagonal is free.
    assert_eq!(st.is_valid_move(pos(0, 2), pos(2, 0)), Ok(()));
}

#[test]
fn horse_moves_in_an_l_and_is_blocked_at_the_leg() {
    let st = GameState::new();
    // Red horse b0 jumps over nothing to c2.
    assert_eq!(st.is_valid_move(pos(0, 1), pos(2, 2)), Ok(()));
    assert_eq!(
        st.is_valid_move(pos(0, 1), pos(2, 3)),
        Err(IllegalMoveReason::HorseBadStep)
    );
    // Horse b0 towards d1 is blocked by the rook... craft a block: horse
    // at b0, own piece at c0 blocks the horizontal leg towards d1.
    let blocked = state_of("9/9/9/9/9/9/9/9/9/1NP6 w");
    assert_eq!(
        blocked.is_valid_move(pos(0, 1), pos(1, 3)),
        Err(IllegalMoveReason::HorseLegBlocked)
    );
}

#[test]
fn rook_moves_straight_on_a_clear_path() {
    let st = GameState::new();
    // Red rook a0 up the open a-file to a2.
    assert_eq!(st.is_valid_move(pos(0, 0), pos(2, 0)), Ok(()));
    assert_eq!(
        st.is_valid_move(pos(0, 0), pos(1, 1)),
        Err(IllegalMoveReason::RookNotStraight)
    );
    // a0 to a4 passes the red pawn on a3.
    assert_eq!(
        st.is_valid_move(pos(0, 0), pos(4, 0)),
        Err(IllegalMoveReason::RookPathBlocked)
    );
}

#[test]
fn cannon_capture_needs_exactly_one_screen() {
    // Red cannon b2 and the black horse b9 with the black cannon b7
    // between them: exactly one screen, so the capture is legal.
    let st = GameState::new();
    assert_eq!(st.is_valid_move(pos(2, 1), pos(9, 1)), Ok(()));
    // Capturing the black cannon b7 directly has no screen.
    assert_eq!(
        st.is_valid_move(pos(2, 1), pos(7, 1)),
        Err(IllegalMoveReason::CannonMissingScreen)
    );
    // Two screens: red cannon a0, pieces at a3 and a6, black rook a9.
    let two = state_of("r8/9/9/P8/9/9/p8/9/9/C8 w");
    assert_eq!(
        two.is_valid_move(pos(0, 0), pos(9, 0)),
        Err(IllegalMoveReason::CannonTooManyScreens)
    );
}

#[test]
fn cannon_quiet_move_needs_a_clear_path() {
    let st = GameState::new();
    // b2 to b5 is clear.
    assert_eq!(st.is_valid_move(pos(2, 1), pos(5, 1)), Ok(()));
    // b2 to b8 passes over the black cannon b7 onto an empty square.
    assert_eq!(
        st.is_valid_move(pos(2, 1), pos(8, 1)),
        Err(IllegalMoveReason::CannonPathBlocked)
    );
    assert_eq!(
        st.is_valid_move(pos(2, 1), pos(4, 2)),
        Err(IllegalMoveReason::CannonNotStraight)
    );
}

#[test]
fn pawn_never_moves_backward() {
    // Red pawn on e5 (crossed the river).
    let st = state_of("9/9/9/9/4P4/9/9/9/9/9 w");
    assert_eq!(
        st.is_valid_move(pos(5, 4), pos(4, 4)),
        Err(IllegalMoveReason::PawnAfterRiverStep)
    );
    assert_eq!(st.is_valid_move(pos(5, 4), pos(6, 4)), Ok(()));
    assert_eq!(st.is_valid_move(pos(5, 4), pos(5, 3)), Ok(()));
}

#[test]
fn pawn_moves_sideways_only_after_crossing() {
    let st = GameState::new();
    // Red pawn a3, before the river: sideways is barred...
    assert_eq!(
        st.is_valid_move(pos(3, 0), pos(3, 1)),
        Err(IllegalMoveReason::PawnBeforeRiverStep)
    );
    // ...and so is backward; only straight forward works.
    assert_eq!(
        st.is_valid_move(pos(3, 0), pos(2, 0)),
        Err(IllegalMoveReason::PawnBeforeRiverStep)
    );
    assert_eq!(st.is_valid_move(pos(3, 0), pos(4, 0)), Ok(()));
}

#[test]
fn black_pawn_marches_down() {
    let mut st = GameState::new();
    st.apply_move("h2e2").expect("red opening move");
    // Black pawn a6 forward means towards row 0.
    assert_eq!(st.is_valid_move(pos(6, 0), pos(5, 0)), Ok(()));
    assert_eq!(
        st.is_valid_move(pos(6, 0), pos(7, 0)),
        Err(IllegalMoveReason::PawnBeforeRiverStep)
    );
}

#[test]
fn apply_move_flips_the_turn_only_on_success() {
    let mut st = GameState::new();
    let before = st.current_player;
    // An illegal move changes nothing.
    let r = st.apply_move("a0a4");
    assert!(matches!(
        r,
        Err(MoveError::Illegal(IllegalMoveReason::RookPathBlocked))
    ));
    assert_eq!(st.current_player, before);
    assert_eq!(st.history.len(), 0);
    // A malformed move string changes nothing either.
    assert!(st.apply_move("a0a").is_err());
    assert_eq!(st.current_player, before);
    // A legal move flips the side to move.
    st.apply_move("h2e2").expect("legal cannon move");
    assert_eq!(st.current_player, before.opponent());
    assert_eq!(st.history.len(), 1);
}
