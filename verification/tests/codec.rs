//! The FEN codec and the Chinese notation.

use xiangqi_cli::fen::{FenError, FenProcessor};
use xiangqi_cli::state::{GameState, MoveError, MoveFormatError, PieceKind, PlayerColor, Position};

const START_FEN: &str = "rnbakabnr/9/1c5c1/p1p1p1p1p/9/9/P1P1P1P1P/1C5C1/9/RNBAKABNR w";

#[test]
fn the_initial_state_prints_the_standard_opening_fen() {
    let st = GameState::new();
    assert_eq!(st.to_fen(), START_FEN);
}

#[test]
fn parsing_the_standard_opening_fen_matches_the_initial_state() {
    let st = FenProcessor::parse_fen(START_FEN).expect("the opening FEN parses");
    assert_eq!(st.to_fen(), START_FEN);
    assert_eq!(st.current_player, PlayerColor::Red);
    assert!(st.history.is_empty());
    assert!(!st.flipped);
    let general = st.board.get(Position { row: 0, col: 4 }).expect("red general");
    assert_eq!(general.color, PlayerColor::Red);
    assert_eq!(general.kind, PieceKind::General);
    let horse = st.board.get(Position { row: 9, col: 1 }).expect("black horse");
    assert_eq!(horse.color, PlayerColor::Black);
    assert_eq!(horse.kind, PieceKind::Horse);
    assert!(st.board.get(Position { row: 4, col: 4 }).is_none());
}

#[test]
fn fen_round_trips_through_play() {
    let mut st = GameState::new();
    for mv in ["h2e2", "h7e7", "h0g2", "b9c7"] {
        st.apply_move(mv).expect("book moves are legal");
    }
    let fen = st.to_fen();
    let reparsed = FenProcessor::parse_fen(&fen).expect("generated FEN parses");
    assert_eq!(reparsed.to_fen(), fen);
    assert_eq!(reparsed.current_player, st.current_player);
    for row in 0..10 {
        for col in 0..9 {
            let p = Position { row, col };
            assert_eq!(st.board.get(p), reparsed.board.get(p));
        }
    }
}

#[test]
fn fen_with_one_field_is_rejected() {
    assert!(matches!(
        FenProcessor::parse_fen("rnbakabnr/9/1c5c1/p1p1p1p1p/9/9/P1P1P1P1P/1C5C1/9/RNBAKABNR"),
        Err(FenError::MissingField)
    ));
}

#[test]
fn fen_with_wrong_row_count_is_rejected() {
    assert!(matches!(
        FenProcessor::parse_fen("9/9/9 w"),
        Err(FenError::WrongRowCount)
    ));
}

#[test]
fn fen_row_must_come_to_nine_columns() {
    assert!(matches!(
        FenProcessor::parse_fen("8/9/9/9/9/9/9/9/9/9 w"),
        Err(FenError::BadRowLength)
    ));
    // Digits may be split: 45 reads as 4 + 5 empty squares.
    assert!(FenProcessor::parse_fen("45/9/9/9/9/9/9/9/9/9 w").is_ok());
    // A piece placed past the ninth column fails the row too.
    assert!(matches!(
        FenProcessor::parse_fen("9K/9/9/9/9/9/9/9/9/9 w"),
        Err(FenError::BadRowLength)
    ));
}

#[test]
fn fen_with_an_unknown_letter_is_rejected() {
    assert!(matches!(
        FenProcessor::parse_fen("x8/9/9/9/9/9/9/9/9/9 w"),
        Err(FenError::InvalidPieceChar('x'))
    ));
}

#[test]
fn fen_side_marker_must_be_w_or_b() {
    assert!(matches!(
        FenProcessor::parse_fen("9/9/9/9/9/9/9/9/9/9 r"),
        Err(FenError::InvalidSideMarker)
    ));
    let black = FenProcessor::parse_fen("9/9/9/9/9/9/9/9/9/9 b").expect("b side parses");
    assert_eq!(black.current_player, PlayerColor::Black);
}

#[test]
fn extra_fen_fields_are_ignored() {
    let st = FenProcessor::parse_fen("9/9/9/9/9/9/9/9/9/4K4 w - - 0 1").expect("extra fields");
    assert_eq!(st.current_player, PlayerColor::Red);
}

#[test]
fn move_strings_must_be_four_characters_in_range() {
    assert!(matches!(
        GameState::parse_move("h2e"),
        Err(MoveFormatError::WrongLength)
    ));
    assert!(matches!(
        GameState::parse_move("j2e2"),
        Err(MoveFormatError::BadFromColumn)
    ));
    assert!(matches!(
        GameState::parse_move("hxe2"),
        Err(MoveFormatError::BadFromRow)
    ));
    assert!(matches!(
        GameState::parse_move("h2z2"),
        Err(MoveFormatError::BadToColumn)
    ));
    assert!(matches!(
        GameState::parse_move("h2ex"),
        Err(MoveFormatError::BadToRow)
    ));
    let (from, to) = GameState::parse_move("h2e2").expect("well-formed move");
    assert_eq!(from, Position { row: 2, col: 7 });
    assert_eq!(to, Position { row: 2, col: 4 });
}

#[test]
fn opening_cannon_move_is_recorded_in_chinese() {
    // The scenario of the opening FEN: h2e2 succeeds, Black is to move,
    // and the history gains a level-move entry ending in the destination
    // column label.
    let mut st = FenProcessor::parse_fen(START_FEN).expect("opening FEN");
    st.apply_move("h2e2").expect("the cannon move is legal");
    assert_eq!(st.current_player, PlayerColor::Black);
    assert_eq!(st.history.len(), 1);
    assert_eq!(st.history[0], "炮二平五");
    assert!(st.history[0].ends_with("平五"));
}

#[test]
fn single_cannon_is_named_by_its_column() {
    let st = GameState::new();
    // Only one red cannon stands on the h file.
    assert_eq!(st.move_to_chinese("h2e2").expect("renders"), "炮二平五");
}

#[test]
fn doubled_cannons_take_front_and_back_names() {
    // Two red cannons on the b file, rows 2 and 4.
    let st = FenProcessor::parse_fen("9/9/9/9/9/1C7/9/1C7/9/9 w").expect("two cannons");
    // The front cannon is the one closest to Black's back rank.
    assert_eq!(st.move_to_chinese("b4b5").expect("front"), "前炮进一");
    assert_eq!(st.move_to_chinese("b2b3").expect("back"), "后炮进一");
}

#[test]
fn black_notation_uses_arabic_digits() {
    let mut st = GameState::new();
    st.apply_move("h2e2").expect("red move");
    // Black cannon h7 to e7: Black counts files 1..9 from its own right.
    let zh = st.move_to_chinese("h7e7").expect("renders");
    assert_eq!(zh, "炮8平5");
}

#[test]
fn advance_and_retreat_use_step_counts_on_a_file() {
    let st = GameState::new();
    // Red rook a0 two steps up its own file.
    assert_eq!(st.move_to_chinese("a0a2").expect("renders"), "车九进二");
    // Red horse b0 to c2 changes file: the destination column names it.
    assert_eq!(st.move_to_chinese("b0c2").expect("renders"), "马八进七");
}

#[test]
fn notation_needs_a_piece_on_the_source_square() {
    let st = GameState::new();
    assert!(matches!(
        st.move_to_chinese("e4e5"),
        Err(MoveError::Illegal(_))
    ));
    assert!(matches!(
        st.move_to_chinese("bad"),
        Err(MoveError::Format(MoveFormatError::WrongLength))
    ));
}

#[test]
fn pv_rendering_replays_without_touching_the_game() {
    let st = GameState::new();
    let pv = vec!["h2e2".to_string(), "h7e7".to_string()];
    let zh = st.pv_to_chinese(&pv).expect("both moves replay");
    assert_eq!(zh, vec!["炮二平五".to_string(), "炮8平5".to_string()]);
    // The live state is untouched.
    assert_eq!(st.current_player, PlayerColor::Red);
    assert!(st.history.is_empty());
    // A variation with an illegal continuation fails as a whole.
    let bad = vec!["h2e2".to_string(), "a9a0".to_string()];
    assert!(st.pv_to_chinese(&bad).is_err());
}

#[test]
fn get_chinese_name_follows_color_and_kind() {
    let st = GameState::new();
    let red_general = st.board.get(Position { row: 0, col: 4 }).unwrap();
    assert_eq!(red_general.get_chinese_name(), "帅");
    let black_general = st.board.get(Position { row: 9, col: 4 }).unwrap();
    assert_eq!(black_general.get_chinese_name(), "将");
    let red_pawn = st.board.get(Position { row: 3, col: 0 }).unwrap();
    assert_eq!(red_pawn.get_chinese_name(), "兵");
    let black_pawn = st.board.get(Position { row: 6, col: 0 }).unwrap();
    assert_eq!(black_pawn.get_chinese_name(), "卒");
}

#[test]
fn default_state_is_the_opening() {
    let st = GameState::default();
    assert_eq!(st.to_fen(), START_FEN);
}

#[test]
fn reset_restores_the_opening() {
    let mut st = GameState::new();
    st.apply_move("h2e2").expect("legal");
    st.reset();
    assert_eq!(st.to_fen(), START_FEN);
    assert!(st.history.is_empty());
}
