//! The engine registry, the game manager, and command parsing.

use xiangqi_cli::command::{parse_command, Command, CommandError};
use xiangqi_cli::manager::{ConfigError, EngineConfig, EngineManager, GameManager};
use xiangqi_cli::protocol::{EngineGoResult, EngineThinkingInfo, EngineType};
use xiangqi_cli::state::PlayerColor;
use xiangqi_cli::text::{parse_isize, parse_usize, split_words};

const START_FEN: &str = "rnbakabnr/9/1c5c1/p1p1p1p1p/9/9/P1P1P1P1P/1C5C1/9/RNBAKABNR w";

fn cfg(path: &str) -> EngineConfig {
    EngineConfig {
        path: path.to_string(),
        options: vec![("Threads".to_string(), Some("2".to_string()))],
    }
}

#[test]
fn registry_accepts_known_engines_and_rejects_unknown_ones() {
    let mgr = EngineManager::from_entries(vec![("Pikafish".to_string(), cfg("/opt/pika"))])
        .expect("a known engine, whatever its case");
    assert_eq!(mgr.list_engines(), vec!["pikafish".to_string()]);
    let found = mgr.get_config(&EngineType::Pikafish).expect("configured");
    assert_eq!(found.path, "/opt/pika");
    assert_eq!(found.options.len(), 1);

    let err = EngineManager::from_entries(vec![("gnuchess".to_string(), cfg("/x"))]);
    assert!(matches!(err, Err(ConfigError::UnknownEngine(n)) if n == "gnuchess"));
}

#[test]
fn registry_keeps_the_last_entry_per_engine() {
    let mgr = EngineManager::from_entries(vec![
        ("pikafish".to_string(), cfg("/old")),
        ("PIKAFISH".to_string(), cfg("/new")),
    ])
    .expect("both entries name the same engine");
    assert_eq!(mgr.list_engines().len(), 1);
    assert_eq!(mgr.get_config(&EngineType::Pikafish).unwrap().path, "/new");
}

#[test]
fn empty_registry_has_no_configuration() {
    let mgr = EngineManager::from_entries(Vec::new()).expect("no entries");
    assert!(mgr.list_engines().is_empty());
    assert!(matches!(
        mgr.get_config(&EngineType::Pikafish),
        Err(ConfigError::EngineNotConfigured)
    ));
}

#[test]
fn env_prefixed_paths_split_into_variable_and_rest() {
    let (var, rest) = EngineManager::split_env_prefix("$HOME/engines/pikafish").expect("split");
    assert_eq!(var, "HOME");
    assert_eq!(rest, "engines/pikafish");
    assert!(EngineManager::split_env_prefix("/usr/bin/pikafish").is_none());
    assert!(EngineManager::split_env_prefix("").is_none());
}

#[test]
fn new_game_from_the_opening_lets_the_human_start_as_red() {
    let mut game = GameManager::new();
    let setup = game
        .start_new_game(PlayerColor::Red, None)
        .expect("the opening always parses");
    assert!(!setup.engine_starts);
    assert!(!game.state.flipped);
    assert_eq!(setup.position_fen, START_FEN);
}

#[test]
fn new_game_as_black_gives_the_engine_the_first_move() {
    let mut game = GameManager::new();
    let setup = game.start_new_game(PlayerColor::Black, None).expect("opening");
    assert!(setup.engine_starts);
    assert!(game.state.flipped);
}

#[test]
fn new_game_from_a_black_to_move_fen() {
    let mut game = GameManager::new();
    let fen = "rnbakabnr/9/1c5c1/p1p1p1p1p/9/9/P1P1P1P1P/1C2C4/9/RNBAKABNR b".to_string();
    let setup = game
        .start_new_game(PlayerColor::Black, Some(fen.clone()))
        .expect("parses");
    // Black to move and the human is Black: the human starts.
    assert!(!setup.engine_starts);
    assert_eq!(setup.position_fen, fen);

    let bad = game.start_new_game(PlayerColor::Red, Some("9/9 w".to_string()));
    assert!(bad.is_err());
    // The failed restart left the previous game standing.
    assert_eq!(game.state.to_fen(), fen);
}

#[test]
fn player_move_returns_the_position_to_push() {
    let mut game = GameManager::new();
    let fen = game.player_move("h2e2").expect("legal");
    assert_eq!(
        fen,
        "rnbakabnr/9/1c5c1/p1p1p1p1p/9/9/P1P1P1P1P/1C2C4/9/RNBAKABNR b"
    );
    assert!(game.player_move("h2e2").is_err());
}

#[test]
fn engine_move_applies_the_bestmove_and_keeps_the_last_report() {
    let mut game = GameManager::new();
    game.player_move("h2e2").expect("red opens");
    let result = EngineGoResult {
        infos: vec![
            EngineThinkingInfo {
                depth: 5,
                score: Some(-10),
                nps: None,
                time: None,
                pv: None,
            },
            EngineThinkingInfo {
                depth: 9,
                score: Some(12),
                nps: Some(1000),
                time: Some(250),
                pv: Some(vec!["h7e7".to_string(), "h0g2".to_string()]),
            },
        ],
        best_move: "h7e7".to_string(),
    };
    let fen = game.engine_move(result).expect("bestmove applies");
    assert_eq!(
        fen,
        "rnbakabnr/9/1c2c4/p1p1p1p1p/9/9/P1P1P1P1P/1C2C4/9/RNBAKABNR w"
    );
    let report = game.think_info.as_ref().expect("the last report is kept");
    assert_eq!(report.depth, 9);
    assert_eq!(report.score, Some(12));
    // The variation was rendered against the pre-move state, where Black
    // was to move.
    assert_eq!(
        report.pv,
        Some(vec!["炮8平5".to_string(), "马二进三".to_string()])
    );
}

#[test]
fn engine_move_with_an_illegal_bestmove_fails() {
    let mut game = GameManager::new();
    let result = EngineGoResult {
        infos: Vec::new(),
        best_move: "a0a9".to_string(),
    };
    let before = game.state.to_fen();
    assert!(game.engine_move(result).is_err());
    assert_eq!(game.state.to_fen(), before);
    assert!(game.think_info.is_none());
}

#[test]
fn command_lines_parse_into_commands() {
    assert!(matches!(parse_command(""), Err(CommandError::Empty)));
    assert!(matches!(parse_command("  \t "), Err(CommandError::Empty)));
    assert!(matches!(parse_command("dance"), Err(CommandError::UnknownCommand)));
    assert!(matches!(parse_command("BOARD"), Ok(Command::ShowBoard)));
    assert!(matches!(parse_command("history"), Ok(Command::History)));
    assert!(matches!(parse_command("listengines"), Ok(Command::ListEngines)));
    assert!(matches!(parse_command("help"), Ok(Command::Help)));
    assert!(matches!(parse_command("quit"), Ok(Command::Quit)));
    assert!(matches!(parse_command("Exit"), Ok(Command::Quit)));
}

#[test]
fn move_command_checks_its_argument() {
    assert!(matches!(
        parse_command("move h2e2"),
        Ok(Command::MakeMove(m)) if m == "h2e2"
    ));
    assert!(matches!(parse_command("move"), Err(CommandError::MissingMove)));
    assert!(matches!(
        parse_command("move h2e2x"),
        Err(CommandError::BadMoveLength)
    ));
}

#[test]
fn new_command_reads_engine_color_and_fen() {
    match parse_command("new Pikafish RED") {
        Ok(Command::NewGame { engine_type, player_color, fen }) => {
            assert_eq!(engine_type, EngineType::Pikafish);
            assert_eq!(player_color, PlayerColor::Red);
            assert!(fen.is_none());
        }
        other => panic!("unexpected: {:?}", other),
    }
    match parse_command("new pikafish black 9/9/9/9/9/9/9/9/9/4K4   w") {
        Ok(Command::NewGame { player_color, fen, .. }) => {
            assert_eq!(player_color, PlayerColor::Black);
            // The FEN argument is re-joined with single spaces.
            assert_eq!(fen.as_deref(), Some("9/9/9/9/9/9/9/9/9/4K4 w"));
        }
        other => panic!("unexpected: {:?}", other),
    }
    assert!(matches!(
        parse_command("new"),
        Err(CommandError::MissingEngineType)
    ));
    assert!(matches!(
        parse_command("new gnuchess red"),
        Err(CommandError::UnknownEngineType)
    ));
    assert!(matches!(
        parse_command("new pikafish"),
        Err(CommandError::MissingColor)
    ));
    assert!(matches!(
        parse_command("new pikafish purple"),
        Err(CommandError::InvalidColor)
    ));
}

#[test]
fn set_command_takes_a_name_and_optional_value() {
    assert!(matches!(
        parse_command("set Threads 4"),
        Ok(Command::SetOption { name, value: Some(v) }) if name == "Threads" && v == "4"
    ));
    assert!(matches!(
        parse_command("set Ponder"),
        Ok(Command::SetOption { name, value: None }) if name == "Ponder"
    ));
    assert!(matches!(
        parse_command("set"),
        Err(CommandError::MissingOptionName)
    ));
}

#[test]
fn words_split_on_any_whitespace() {
    assert_eq!(
        split_words("  one\ttwo \n three  "),
        vec!["one".to_string(), "two".to_string(), "three".to_string()]
    );
    assert!(split_words("").is_empty());
}

#[test]
fn decimal_parsing_follows_the_standard_library() {
    assert_eq!(parse_usize("0"), Some(0));
    assert_eq!(parse_usize("+123"), Some(123));
    assert_eq!(parse_usize("18446744073709551615"), Some(usize::MAX));
    assert_eq!(parse_usize("18446744073709551616"), None);
    assert_eq!(parse_usize(""), None);
    assert_eq!(parse_usize("+"), None);
    assert_eq!(parse_usize("12x"), None);
    assert_eq!(parse_usize("-1"), None);
    assert_eq!(parse_isize("-35"), Some(-35));
    assert_eq!(parse_isize("+35"), Some(35));
    assert_eq!(parse_isize("-9223372036854775808"), Some(isize::MIN));
    assert_eq!(parse_isize("-9223372036854775809"), None);
    assert_eq!(parse_isize("9223372036854775807"), Some(isize::MAX));
    assert_eq!(parse_isize("9223372036854775808"), None);
}
