//! The engine session state machine and the `info` line parser.

use xiangqi_cli::protocol::{
    str_contains, EngineThinkingInfo, EngineType, InfoParseError, SessionState, UciEngine,
};

#[test]
fn handshake_completes_on_uciok_then_readyok() {
    let mut session = UciEngine::new();
    assert_eq!(session.state, SessionState::Uninitialized);
    assert_eq!(session.begin_init(), "uci");
    assert_eq!(session.state, SessionState::AwaitUciOk);
    // Option advertisements before uciok are ignored.
    assert!(session.on_init_line("id name some engine").is_none());
    assert_eq!(session.state, SessionState::AwaitUciOk);
    assert_eq!(session.on_init_line("uciok"), Some("isready".to_string()));
    assert_eq!(session.state, SessionState::AwaitReadyOk);
    assert!(session.on_init_line("readyok").is_none());
    assert_eq!(session.state, SessionState::Ready);
    assert!(session.is_ready());
}

#[test]
fn a_full_go_transcript_yields_infos_and_bestmove() {
    let mut session = UciEngine::new();
    session.begin_init();
    session.on_init_line("uciok");
    session.on_init_line("readyok");
    let cmd = session.begin_go(Some(1000));
    assert_eq!(cmd, "go movetime 1000");
    assert_eq!(session.state, SessionState::Thinking);
    assert!(session
        .on_go_line("info depth 10 score cp 20 pv h2e2 h7e7")
        .is_none());
    let result = session
        .on_go_line("bestmove h2e2")
        .expect("bestmove ends the search");
    assert_eq!(result.best_move, "h2e2");
    assert_eq!(result.infos.len(), 1);
    let info = &result.infos[0];
    assert_eq!(info.depth, 10);
    assert_eq!(info.score, Some(20));
    assert_eq!(
        info.pv,
        Some(vec!["h2e2".to_string(), "h7e7".to_string()])
    );
    assert_eq!(session.state, SessionState::Ready);
}

#[test]
fn malformed_info_lines_are_ignored_during_go() {
    let mut session = UciEngine::new();
    session.begin_init();
    session.on_init_line("uciok");
    session.on_init_line("readyok");
    session.begin_go(None);
    assert!(session.on_go_line("info depth notanumber").is_none());
    assert!(session.on_go_line("info currmove h2e2").is_none());
    // A bare bestmove without a move keeps the search open.
    assert!(session.on_go_line("bestmove").is_none());
    assert_eq!(session.state, SessionState::Thinking);
    let result = session.on_go_line("bestmove a0a1 ponder h9h8").unwrap();
    assert_eq!(result.best_move, "a0a1");
    assert!(result.infos.is_empty());
}

#[test]
fn begin_go_starts_a_fresh_report_collection() {
    let mut session = UciEngine::new();
    session.begin_init();
    session.on_init_line("uciok");
    session.on_init_line("readyok");
    assert_eq!(session.begin_go(None), "go");
    session.on_go_line("info depth 3");
    session.on_go_line("bestmove h2e2");
    // The next search does not carry the old reports over.
    session.begin_go(Some(5));
    let result = session.on_go_line("bestmove h7e7").unwrap();
    assert!(result.infos.is_empty());
    // But the last report survives across searches.
    let last = session.get_last_think_info().expect("kept");
    assert_eq!(last.depth, 3);
}

#[test]
fn quit_twice_is_harmless() {
    let mut session = UciEngine::new();
    assert_eq!(session.quit(), Some("quit".to_string()));
    assert_eq!(session.state, SessionState::Quit);
    assert_eq!(session.quit(), None);
    assert_eq!(session.state, SessionState::Quit);
}

#[test]
fn commands_are_built_verbatim() {
    let session = UciEngine::new();
    assert_eq!(
        session.set_position("9/9/9/9/9/9/9/9/9/4K4 w"),
        "position fen 9/9/9/9/9/9/9/9/9/4K4 w"
    );
    assert_eq!(
        session.set_option("Clear Hash", None),
        "setoption name Clear Hash"
    );
    assert_eq!(
        session.set_option("Threads", Some("4")),
        "setoption name Threads value 4"
    );
    assert_eq!(session.stop(), "stop");
}

#[test]
fn info_parsing_reads_each_field() {
    let info =
        EngineThinkingInfo::parse("info depth 12 score cp -35 nps 123456 time 998 pv a0a1 b0c2")
            .expect("parses");
    assert_eq!(info.depth, 12);
    assert_eq!(info.score, Some(-35));
    assert_eq!(info.nps, Some(123456));
    assert_eq!(info.time, Some(998));
    assert_eq!(info.pv, Some(vec!["a0a1".to_string(), "b0c2".to_string()]));
}

#[test]
fn info_parsing_reports_each_failure() {
    assert!(matches!(
        EngineThinkingInfo::parse("bestmove h2e2"),
        Err(InfoParseError::NotInfoLine)
    ));
    assert!(matches!(
        EngineThinkingInfo::parse("info depth x"),
        Err(InfoParseError::BadDepth)
    ));
    assert!(matches!(
        EngineThinkingInfo::parse("info score cp x depth 3"),
        Err(InfoParseError::BadScore)
    ));
    assert!(matches!(
        EngineThinkingInfo::parse("info depth 3 nps ?"),
        Err(InfoParseError::BadNps)
    ));
    assert!(matches!(
        EngineThinkingInfo::parse("info depth 3 time ?"),
        Err(InfoParseError::BadTime)
    ));
    assert!(matches!(
        EngineThinkingInfo::parse("info nps 5"),
        Err(InfoParseError::MissingDepth)
    ));
}

#[test]
fn info_parsing_lets_later_fields_overwrite() {
    let info = EngineThinkingInfo::parse("info depth 3 depth 7").expect("parses");
    assert_eq!(info.depth, 7);
    assert!(info.pv.is_none());
    // An unguarded depth at the end of the line is skipped, as is any
    // unknown token.
    let tail = EngineThinkingInfo::parse("info depth 4 seldepth 9 depth").expect("parses");
    assert_eq!(tail.depth, 4);
}

#[test]
fn errors_match_the_parse_result_of_each_engine_name() {
    assert_eq!(EngineType::parse("pikafish"), Some(EngineType::Pikafish));
    // Case folding is real: an uppercase spelling still matches.
    assert_eq!(EngineType::parse("PikaFish"), Some(EngineType::Pikafish));
    assert_eq!(EngineType::parse("stockfish"), None);
    assert_eq!(EngineType::Pikafish.name(), "pikafish");
}

#[test]
fn substring_search_is_exact() {
    assert!(str_contains("prefix uciok suffix", "uciok"));
    assert!(str_contains("uciok", "uciok"));
    assert!(!str_contains("ucio", "uciok"));
    assert!(!str_contains("", "uciok"));
    assert!(str_contains("anything", ""));
}

#[test]
fn default_report_is_empty() {
    let info = EngineThinkingInfo::default();
    assert_eq!(info.depth, 0);
    assert!(info.score.is_none() && info.nps.is_none() && info.time.is_none());
    assert!(info.pv.is_none());
}
