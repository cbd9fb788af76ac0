//! The user command surface: one line of input read into a command. The
//! terminal loop around it lives outside the library.

use vstd::prelude::*;
use crate::protocol::{lower_of, EngineType};
use crate::state::PlayerColor;
use crate::text::{split_words, words};

verus! {

/// One command of the interactive loop.
#[derive(Debug)]
pub enum Command {
    NewGame { engine_type: EngineType, player_color: PlayerColor, fen: Option<String> },
    MakeMove(String),
    ShowBoard,
    History,
    SetOption { name: String, value: Option<String> },
    ListEngines,
    Reverse,
    Help,
    Quit,
    Error(String),
}

/// Why an input line is not a command.
#[derive(Debug, Clone, Copy, PartialEq, Eq, Structural)]
pub enum CommandError {
    /// The line holds no word at all.
    Empty,
    /// The first word names no command.
    UnknownCommand,
    /// `new` without an engine name.
    MissingEngineType,
    /// `new` with an engine name the library does not know.
    UnknownEngineType,
    /// `new` without a color.
    MissingColor,
    /// `new` with a word that is neither red nor black.
    InvalidColor,
    /// `move` without a move string.
    MissingMove,
    /// A move string that is not exactly four characters.
    BadMoveLength,
    /// `set` without an option name.
    MissingOptionName,
}

/// Whether a word names the Red side, ignoring case.
pub open spec fn is_red_word(w: Seq<char>) -> bool {
    lower_of(w) == "red"@ || lower_of(w) == "\u{7ea2}"@
}

/// Whether a word names the Black side, ignoring case.
pub open spec fn is_black_word(w: Seq<char>) -> bool {
    lower_of(w) == "black"@ || lower_of(w) == "\u{9ed1}"@
}

/// The words of a trailing FEN argument joined back with single spaces.
pub open spec fn fen_arg(ws: Seq<Seq<char>>) -> Seq<char>
    decreases ws.len(),
{
    if ws.len() == 0 {
        Seq::empty()
    } else if ws.len() == 1 {
        ws[0]
    } else {
        ws[0] + seq![' '] + fen_arg(ws.drop_first())
    }
}

/// Joining one more word appends a space and the word.
proof fn lemma_fen_arg_push(ws: Seq<Seq<char>>, x: Seq<char>)
    ensures
        fen_arg(ws.push(x)) == if ws.len() == 0 {
            x
        } else {
            fen_arg(ws) + seq![' '] + x
        },
    decreases ws.len(),
{
    if ws.len() == 0 {
        assert(ws.push(x) =~= seq![x]);
    } else if ws.len() == 1 {
        assert(ws.push(x)[0] == ws[0]);
        assert(ws.push(x).drop_first() =~= seq![x]);
        assert(fen_arg(seq![x]) == x);
    } else {
        lemma_fen_arg_push(ws.drop_first(), x);
        assert(ws.push(x)[0] == ws[0]);
        assert(ws.push(x).drop_first() =~= ws.drop_first().push(x));
        assert(ws[0] + seq![' '] + (fen_arg(ws.drop_first()) + seq![' '] + x) =~= (ws[0] + seq![' ']
            + fen_arg(ws.drop_first())) + seq![' '] + x);
    }
}

/// Whether the first word of a line names any command at all.
pub open spec fn known_command_word(w: Seq<char>) -> bool {
    ||| w == "new"@
    ||| w == "move"@
    ||| w == "board"@
    ||| w == "history"@
    ||| w == "set"@
    ||| w == "listengines"@
    ||| w == "help"@
    ||| w == "quit"@
    ||| w == "exit"@
}

/// Read one input line into a command. The command word and, for `new`,
/// the engine and color words are matched ignoring case; a `new` line's
/// remaining words form the FEN argument, re-joined with single spaces;
/// `move` and `set` arguments are taken as written.
pub fn parse_command(input: &str) -> (r: Result<Command, CommandError>)
    ensures
        ({
            let ws = words(input@);
            let low0 = lower_of(ws[0]);
            match r {
                Err(CommandError::Empty) => ws.len() == 0,
                Err(CommandError::UnknownCommand) => ws.len() >= 1 && !known_command_word(low0),
                Ok(Command::NewGame { engine_type, player_color, fen }) => {
                    &&& ws.len() >= 3
                    &&& low0 == "new"@
                    &&& lower_of(ws[1]) == "pikafish"@ && engine_type == EngineType::Pikafish
                    &&& (player_color == PlayerColor::Red && is_red_word(ws[2])) || (player_color
                        == PlayerColor::Black && !is_red_word(ws[2]) && is_black_word(ws[2]))
                    &&& match fen {
                        Some(f) => ws.len() > 3 && f@ == fen_arg(ws.skip(3)),
                        None => ws.len() == 3,
                    }
                },
                Err(CommandError::MissingEngineType) => ws.len() == 1 && low0 == "new"@,
                Err(CommandError::UnknownEngineType) => ws.len() >= 2 && low0 == "new"@ && lower_of(
                    ws[1],
                ) != "pikafish"@,
                Err(CommandError::MissingColor) => ws.len() == 2 && low0 == "new"@ && lower_of(
                    ws[1],
                ) == "pikafish"@,
                Err(CommandError::InvalidColor) => ws.len() >= 3 && low0 == "new"@ && lower_of(
                    ws[1],
                ) == "pikafish"@ && !is_red_word(ws[2]) && !is_black_word(ws[2]),
                Ok(Command::MakeMove(m)) => ws.len() >= 2 && low0 == "move"@ && ws[1].len() == 4
                    && m@ == ws[1],
                Err(CommandError::MissingMove) => ws.len() == 1 && low0 == "move"@,
                Err(CommandError::BadMoveLength) => ws.len() >= 2 && low0 == "move"@ && ws[1].len()
                    != 4,
                Ok(Command::ShowBoard) => ws.len() >= 1 && low0 == "board"@,
                Ok(Command::History) => ws.len() >= 1 && low0 == "history"@,
                Ok(Command::SetOption { name, value }) => {
                    &&& ws.len() >= 2
                    &&& low0 == "set"@
                    &&& name@ == ws[1]
                    &&& match value {
                        Some(v) => ws.len() >= 3 && v@ == ws[2],
                        None => ws.len() == 2,
                    }
                },
                Err(CommandError::MissingOptionName) => ws.len() == 1 && low0 == "set"@,
                Ok(Command::ListEngines) => ws.len() >= 1 && low0 == "listengines"@,
                Ok(Command::Help) => ws.len() >= 1 && low0 == "help"@,
                Ok(Command::Quit) => ws.len() >= 1 && (low0 == "quit"@ || low0 == "exit"@),
                Ok(Command::Reverse) => false,
                Ok(Command::Error(_)) => false,
            }
        }),
{
    let parts = split_words(input);
    let ghost ws = words(input@);
    if parts.len() == 0 {
        return Err(CommandError::Empty);
    }
    proof {
        assert(parts.deep_view()[0] == parts@[0]@);
    }
    let cmd = crate::protocol::lowercase(parts[0].as_str());
    if cmd == String::from_str("new") {
        if parts.len() < 2 {
            return Err(CommandError::MissingEngineType);
        }
        proof {
            assert(parts.deep_view()[1] == parts@[1]@);
        }
        let engine_type = match EngineType::parse(parts[1].as_str()) {
            Some(t) => t,
            None => {
                return Err(CommandError::UnknownEngineType);
            },
        };
        if parts.len() < 3 {
            return Err(CommandError::MissingColor);
        }
        proof {
            assert(parts.deep_view()[2] == parts@[2]@);
        }
        let color_word = crate::protocol::lowercase(parts[2].as_str());
        let player_color = if color_word == String::from_str("red") || color_word
            == String::from_str("\u{7ea2}") {
            PlayerColor::Red
        } else if color_word == String::from_str("black") || color_word == String::from_str(
            "\u{9ed1}",
        ) {
            PlayerColor::Black
        } else {
            return Err(CommandError::InvalidColor);
        };
        let fen: Option<String> = if parts.len() > 3 {
            let mut joined = String::new();
            let mut k: usize = 3;
            proof {
                assert(ws.subrange(3, 3) =~= Seq::<Seq<char>>::empty());
            }
            while k < parts.len()
                invariant
                    ws == parts.deep_view(),
                    ws.len() == parts@.len(),
                    3 <= k,
                    k <= ws.len() || k == 3,
                    3 < ws.len(),
                    joined@ == fen_arg(ws.subrange(3, k as int)),
                decreases ws.len() - k,
            {
                if k > 3 {
                    let sep = " ";
                    proof {
                        reveal_strlit(" ");
                    }
                    joined.append(sep);
                }
                joined.append(parts[k].as_str());
                proof {
                    assert(ws[k as int] == parts@[k as int]@);
                    assert(ws.subrange(3, k as int + 1) =~= ws.subrange(3, k as int).push(
                        ws[k as int],
                    ));
                    lemma_fen_arg_push(ws.subrange(3, k as int), ws[k as int]);
                    assert(joined@ =~= fen_arg(ws.subrange(3, k as int + 1)));
                }
                k = k + 1;
            }
            proof {
                assert(ws.subrange(3, ws.len() as int) =~= ws.skip(3));
            }
            Some(joined)
        } else {
            None
        };
        Ok(Command::NewGame { engine_type, player_color, fen })
    } else if cmd == String::from_str("move") {
        if parts.len() < 2 {
            return Err(CommandError::MissingMove);
        }
        proof {
            assert(parts.deep_view()[1] == parts@[1]@);
        }
        if parts[1].as_str().unicode_len() != 4 {
            return Err(CommandError::BadMoveLength);
        }
        let m = parts[1].clone();
        Ok(Command::MakeMove(m))
    } else if cmd == String::from_str("board") {
        Ok(Command::ShowBoard)
    } else if cmd == String::from_str("history") {
        Ok(Command::History)
    } else if cmd == String::from_str("set") {
        if parts.len() < 2 {
            return Err(CommandError::MissingOptionName);
        }
        proof {
            assert(parts.deep_view()[1] == parts@[1]@);
        }
        let name = parts[1].clone();
        let value: Option<String> = if parts.len() > 2 {
            proof {
                assert(parts.deep_view()[2] == parts@[2]@);
            }
            Some(parts[2].clone())
        } else {
            None
        };
        Ok(Command::SetOption { name, value })
    } else if cmd == String::from_str("listengines") {
        Ok(Command::ListEngines)
    } else if cmd == String::from_str("help") {
        Ok(Command::Help)
    } else if cmd == String::from_str("quit") || cmd == String::from_str("exit") {
        Ok(Command::Quit)
    } else {
        Err(CommandError::UnknownCommand)
    }
}

} // verus!
