//! Chinese move notation: traditional piece names, per-color column
//! labels, front/back disambiguation on a file, and the
//! level/advance/retreat suffix.

use vstd::prelude::*;
use crate::rules::{abs, IllegalMoveReason};
use crate::state::{
    apply_outcome, at, board_after, parse_move_spec, pos_valid, Board, GameState, MoveError,
    Piece, PieceKind, PlayerColor, Position,
};

verus! {

/// The traditional one-character name of a piece, which depends on its side.
pub open spec fn piece_name(p: Piece) -> char {
    match (p.color, p.kind) {
        (PlayerColor::Red, PieceKind::General) => '帅',
        (PlayerColor::Red, PieceKind::Advisor) => '仕',
        (PlayerColor::Red, PieceKind::Elephant) => '相',
        (PlayerColor::Red, PieceKind::Horse) => '马',
        (PlayerColor::Red, PieceKind::Rook) => '车',
        (PlayerColor::Red, PieceKind::Cannon) => '炮',
        (PlayerColor::Red, PieceKind::Pawn) => '兵',
        (PlayerColor::Black, PieceKind::General) => '将',
        (PlayerColor::Black, PieceKind::Advisor) => '士',
        (PlayerColor::Black, PieceKind::Elephant) => '象',
        (PlayerColor::Black, PieceKind::Horse) => '马',
        (PlayerColor::Black, PieceKind::Rook) => '车',
        (PlayerColor::Black, PieceKind::Cannon) => '炮',
        (PlayerColor::Black, PieceKind::Pawn) => '卒',
    }
}

/// Red's column labels: Chinese numerals descending from `九` on column 0.
pub open spec fn zh_cols() -> Seq<char> {
    seq!['九', '八', '七', '六', '五', '四', '三', '二', '一']
}

/// Black's column labels: Arabic digits ascending from `1` on column 0.
pub open spec fn dig_cols() -> Seq<char> {
    seq!['1', '2', '3', '4', '5', '6', '7', '8', '9']
}

/// The label a side uses for a board column.
pub open spec fn col_label(player: PlayerColor, col: int) -> char {
    match player {
        PlayerColor::Red => zh_cols()[col],
        PlayerColor::Black => dig_cols()[col],
    }
}

/// The numeral a side uses for a step count of `diff` rows.
pub open spec fn step_label(player: PlayerColor, diff: int) -> char {
    match player {
        PlayerColor::Red => zh_cols()[9 - diff],
        PlayerColor::Black => dig_cols()[diff - 1],
    }
}

/// Whether square `(row, col)` holds a piece of the same side and kind
/// as `piece`.
pub open spec fn file_match(b: Seq<Option<Piece>>, row: int, col: int, piece: Piece) -> bool {
    at(b, row, col) matches Some(q) && q.color == piece.color && q.kind == piece.kind
}

/// How many rows `r` with `lo <= r < hi` match `piece` on column `col`.
pub open spec fn count_file_range(
    b: Seq<Option<Piece>>,
    col: int,
    piece: Piece,
    lo: int,
    hi: int,
) -> nat
    decreases hi - lo,
{
    if hi <= lo {
        0
    } else {
        count_file_range(b, col, piece, lo, hi - 1) + (if file_match(b, hi - 1, col, piece) {
            1nat
        } else {
            0nat
        })
    }
}

/// Among like pieces sharing a file, the front one is the one closest to
/// the opponent's home rank.
pub open spec fn is_front(
    b: Seq<Option<Piece>>,
    player: PlayerColor,
    from: Position,
    piece: Piece,
) -> bool {
    match player {
        PlayerColor::Red => count_file_range(b, from.col as int, piece, from.row + 1, 10) == 0,
        PlayerColor::Black => count_file_range(b, from.col as int, piece, 0, from.row as int) == 0,
    }
}

/// The two leading characters: the piece's name with its column label
/// when it is alone on its file, or a front/back marker with the name.
pub open spec fn notation_prefix(
    b: Seq<Option<Piece>>,
    player: PlayerColor,
    from: Position,
    piece: Piece,
) -> Seq<char> {
    if count_file_range(b, from.col as int, piece, 0, 10) == 1 {
        seq![piece_name(piece), col_label(player, from.col as int)]
    } else {
        seq![
            if is_front(b, player, from, piece) {
                '前'
            } else {
                '后'
            },
            piece_name(piece),
        ]
    }
}

/// The two trailing characters: `平` with a column label for a level move,
/// or an advance/retreat marker with a step numeral (same column) or the
/// destination column label.
pub open spec fn notation_suffix(player: PlayerColor, from: Position, to: Position) -> Seq<char> {
    if from.row == to.row {
        seq!['平', col_label(player, to.col as int)]
    } else {
        let advance = match player {
            PlayerColor::Red => from.row < to.row,
            PlayerColor::Black => from.row > to.row,
        };
        let mark = if advance {
            '进'
        } else {
            '退'
        };
        if from.col == to.col {
            seq![mark, step_label(player, abs(from.row - to.row))]
        } else {
            seq![mark, col_label(player, to.col as int)]
        }
    }
}

/// The full four-character Chinese notation of the move from `from` to
/// `to` on board `b` with `player` to move.
pub open spec fn chinese_of(
    b: Seq<Option<Piece>>,
    player: PlayerColor,
    from: Position,
    to: Position,
) -> Seq<char>
    recommends
        at(b, from.row as int, from.col as int) is Some,
{
    let piece = at(b, from.row as int, from.col as int)->0;
    notation_prefix(b, player, from, piece) + notation_suffix(player, from, to)
}

/// What `move_to_chinese` returns on a move string: the notation, or why
/// the string could not be rendered.
pub open spec fn move_notation(b: Seq<Option<Piece>>, player: PlayerColor, s: Seq<char>) -> Result<
    Seq<char>,
    MoveError,
> {
    match parse_move_spec(s) {
        Err(e) => Err(MoveError::Format(e)),
        Ok((from, to)) => {
            if at(b, from.row as int, from.col as int) is None {
                Err(MoveError::Illegal(IllegalMoveReason::NoPieceAtSource))
            } else {
                Ok(chinese_of(b, player, from, to))
            }
        },
    }
}

/// A principal variation rendered in Chinese notation: each move is
/// converted against the position reached by replaying the moves before
/// it, and the first failing move stops the whole rendering.
pub open spec fn pv_chinese(
    b: Seq<Option<Piece>>,
    player: PlayerColor,
    moves: Seq<Seq<char>>,
) -> Result<Seq<Seq<char>>, MoveError>
    decreases moves.len(),
{
    if moves.len() == 0 {
        Ok(Seq::empty())
    } else {
        let s = moves[0];
        match move_notation(b, player, s) {
            Err(e) => Err(e),
            Ok(zh) => match apply_outcome(b, player, s) {
                Err(e) => Err(e),
                Ok(v) => match pv_chinese(
                    board_after(b, v.0, v.1),
                    player.opponent_spec(),
                    moves.drop_first(),
                ) {
                    Err(e) => Err(e),
                    Ok(rest) => Ok(seq![zh] + rest),
                },
            },
        }
    }
}

impl Piece {
    /// The traditional Chinese name of the piece.
    pub fn get_chinese_name(&self) -> (r: &'static str)
        ensures
            r@ == seq![piece_name(*self)],
    {
        match (self.color, self.kind) {
            (PlayerColor::Red, PieceKind::General) => {
                let r = "帅";
                proof {
                    reveal_strlit("帅");
                    assert(r@ =~= seq![piece_name(*self)]);
                }
                r
            },
            (PlayerColor::Red, PieceKind::Advisor) => {
                let r = "仕";
                proof {
                    reveal_strlit("仕");
                    assert(r@ =~= seq![piece_name(*self)]);
                }
                r
            },
            (PlayerColor::Red, PieceKind::Elephant) => {
                let r = "相";
                proof {
                    reveal_strlit("相");
                    assert(r@ =~= seq![piece_name(*self)]);
                }
                r
            },
            (PlayerColor::Red, PieceKind::Horse) => {
                let r = "马";
                proof {
                    reveal_strlit("马");
                    assert(r@ =~= seq![piece_name(*self)]);
                }
                r
            },
            (PlayerColor::Red, PieceKind::Rook) => {
                let r = "车";
                proof {
                    reveal_strlit("车");
                    assert(r@ =~= seq![piece_name(*self)]);
                }
                r
            },
            (PlayerColor::Red, PieceKind::Cannon) => {
                let r = "炮";
                proof {
                    reveal_strlit("炮");
                    assert(r@ =~= seq![piece_name(*self)]);
                }
                r
            },
            (PlayerColor::Red, PieceKind::Pawn) => {
                let r = "兵";
                proof {
                    reveal_strlit("兵");
                    assert(r@ =~= seq![piece_name(*self)]);
                }
                r
            },
            (PlayerColor::Black, PieceKind::General) => {
                let r = "将";
                proof {
                    reveal_strlit("将");
                    assert(r@ =~= seq![piece_name(*self)]);
                }
                r
            },
            (PlayerColor::Black, PieceKind::Advisor) => {
                let r = "士";
                proof {
                    reveal_strlit("士");
                    assert(r@ =~= seq![piece_name(*self)]);
                }
                r
            },
            (PlayerColor::Black, PieceKind::Elephant) => {
                let r = "象";
                proof {
                    reveal_strlit("象");
                    assert(r@ =~= seq![piece_name(*self)]);
                }
                r
            },
            (PlayerColor::Black, PieceKind::Horse) => {
                let r = "马";
                proof {
                    reveal_strlit("马");
                    assert(r@ =~= seq![piece_name(*self)]);
                }
                r
            },
            (PlayerColor::Black, PieceKind::Rook) => {
                let r = "车";
                proof {
                    reveal_strlit("车");
                    assert(r@ =~= seq![piece_name(*self)]);
                }
                r
            },
            (PlayerColor::Black, PieceKind::Cannon) => {
                let r = "炮";
                proof {
                    reveal_strlit("炮");
                    assert(r@ =~= seq![piece_name(*self)]);
                }
                r
            },
            (PlayerColor::Black, PieceKind::Pawn) => {
                let r = "卒";
                proof {
                    reveal_strlit("卒");
                    assert(r@ =~= seq![piece_name(*self)]);
                }
                r
            },
        }
    }
}

/// Append the label a side uses for board column `col`.
fn append_col_label(out: &mut String, player: PlayerColor, col: usize)
    requires
        col < 9,
    ensures
        final(out)@ == old(out)@.push(col_label(player, col as int)),
{
    match player {
        PlayerColor::Red => append_zh_numeral_for_index(out, 8 - col),
        PlayerColor::Black => append_digit_label(out, col),
    }
}

/// Append the Chinese numeral for `idx + 1` (index 0 is `一`).
fn append_zh_numeral_for_index(out: &mut String, idx: usize)
    requires
        idx < 9,
    ensures
        final(out)@ == old(out)@.push(zh_cols()[8 - idx]),
{
    let lit: &'static str = match idx {
        0 => "一",
        1 => "二",
        2 => "三",
        3 => "四",
        4 => "五",
        5 => "六",
        6 => "七",
        7 => "八",
        _ => "九",
    };
    proof {
        reveal_strlit("一");
        reveal_strlit("二");
        reveal_strlit("三");
        reveal_strlit("四");
        reveal_strlit("五");
        reveal_strlit("六");
        reveal_strlit("七");
        reveal_strlit("八");
        reveal_strlit("九");
        assert(lit@ =~= seq![zh_cols()[8 - idx]]);
    }
    out.append(lit);
    assert(out@ =~= old(out)@.push(zh_cols()[8 - idx as int]));
}

/// Append the Arabic digit for `idx + 1` (index 0 is `1`).
fn append_digit_label(out: &mut String, idx: usize)
    requires
        idx < 9,
    ensures
        final(out)@ == old(out)@.push(dig_cols()[idx as int]),
{
    let lit: &'static str = match idx {
        0 => "1",
        1 => "2",
        2 => "3",
        3 => "4",
        4 => "5",
        5 => "6",
        6 => "7",
        7 => "8",
        _ => "9",
    };
    proof {
        reveal_strlit("1");
        reveal_strlit("2");
        reveal_strlit("3");
        reveal_strlit("4");
        reveal_strlit("5");
        reveal_strlit("6");
        reveal_strlit("7");
        reveal_strlit("8");
        reveal_strlit("9");
        assert(lit@ =~= seq![dig_cols()[idx as int]]);
    }
    out.append(lit);
    assert(out@ =~= old(out)@.push(dig_cols()[idx as int]));
}

impl GameState {
    /// Render a move string such as `h2e2` in Chinese notation against the
    /// current position, without playing it. Fails exactly when the string
    /// does not parse or its source square is empty.
    #[verifier::rlimit(60)]
    pub fn move_to_chinese(&self, move_str: &str) -> (r: Result<String, MoveError>)
        requires
            self.wf(),
        ensures
            r is Ok <==> move_notation(self.board@, self.current_player, move_str@) is Ok,
            r matches Ok(out) ==> out@ == move_notation(
                self.board@,
                self.current_player,
                move_str@,
            )->Ok_0,
            r matches Err(e) ==> Err::<Seq<char>, MoveError>(e) == move_notation(
                self.board@,
                self.current_player,
                move_str@,
            ),
    {
        let (from, to) = match Self::parse_move(move_str) {
            Ok(p) => p,
            Err(e) => {
                return Err(MoveError::Format(e));
            },
        };
        let piece = match self.board.get(from) {
            Some(p) => p,
            None => {
                return Err(MoveError::Illegal(IllegalMoveReason::NoPieceAtSource));
            },
        };
        let ghost b = self.board@;
        let ghost player = self.current_player;

        // How many like pieces share the source file, and how many of them
        // stand beyond the source square on either side.
        let mut total: usize = 0;
        let mut row: usize = 0;
        while row < 10
            invariant
                self.wf(),
                pos_valid(from),
                row <= 10,
                total <= row,
                total == count_file_range(b, from.col as int, piece, 0, row as int),
                b == self.board@,
            decreases 10 - row,
        {
            if let Some(q) = self.board.get(Position { row, col: from.col }) {
                if q.color == piece.color && q.kind == piece.kind {
                    total = total + 1;
                }
            }
            row = row + 1;
        }
        let mut above: usize = 0;
        let mut row2: usize = from.row + 1;
        while row2 < 10
            invariant
                self.wf(),
                pos_valid(from),
                from.row + 1 <= row2,
                row2 <= 10 || row2 == from.row + 1,
                above <= row2,
                above == count_file_range(b, from.col as int, piece, from.row + 1, row2 as int),
                b == self.board@,
            decreases 10 - row2,
        {
            if let Some(q) = self.board.get(Position { row: row2, col: from.col }) {
                if q.color == piece.color && q.kind == piece.kind {
                    above = above + 1;
                }
            }
            row2 = row2 + 1;
        }
        let mut below: usize = 0;
        let mut row3: usize = 0;
        while row3 < from.row
            invariant
                self.wf(),
                pos_valid(from),
                row3 <= from.row,
                below <= row3,
                below == count_file_range(b, from.col as int, piece, 0, row3 as int),
                b == self.board@,
            decreases from.row - row3,
        {
            if let Some(q) = self.board.get(Position { row: row3, col: from.col }) {
                if q.color == piece.color && q.kind == piece.kind {
                    below = below + 1;
                }
            }
            row3 = row3 + 1;
        }

        let mut out = String::new();
        if total == 1 {
            out.append(piece.get_chinese_name());
            append_col_label(&mut out, self.current_player, from.col);
        } else {
            let front = match self.current_player {
                PlayerColor::Red => above == 0,
                PlayerColor::Black => below == 0,
            };
            assert(front == is_front(b, player, from, piece));
            if front {
                let lit = "前";
                proof {
                    reveal_strlit("前");
                }
                out.append(lit);
            } else {
                let lit = "后";
                proof {
                    reveal_strlit("后");
                }
                out.append(lit);
            }
            out.append(piece.get_chinese_name());
        }
        assert(out@ =~= notation_prefix(b, player, from, piece));

        if from.row == to.row {
            let lit = "平";
            proof {
                reveal_strlit("平");
            }
            out.append(lit);
            append_col_label(&mut out, self.current_player, to.col);
        } else {
            let advance = match self.current_player {
                PlayerColor::Red => from.row < to.row,
                PlayerColor::Black => from.row > to.row,
            };
            if advance {
                let lit = "进";
                proof {
                    reveal_strlit("进");
                }
                out.append(lit);
            } else {
                let lit = "退";
                proof {
                    reveal_strlit("退");
                }
                out.append(lit);
            }
            if from.col == to.col {
                let diff = if from.row < to.row {
                    to.row - from.row
                } else {
                    from.row - to.row
                };
                match self.current_player {
                    PlayerColor::Red => append_zh_numeral_for_index(&mut out, diff - 1),
                    PlayerColor::Black => append_digit_label(&mut out, diff - 1),
                }
            } else {
                append_col_label(&mut out, self.current_player, to.col);
            }
        }
        assert(out@ =~= chinese_of(b, player, from, to));
        Ok(out)
    }

    /// Render a whole principal variation in Chinese notation by replaying
    /// it against a copy of this state; the live state is untouched. Fails
    /// with the first move that does not parse, render or apply.
    pub fn pv_to_chinese(&self, pv: &Vec<String>) -> (r: Result<Vec<String>, MoveError>)
        requires
            self.wf(),
        ensures
            r is Ok <==> pv_chinese(self.board@, self.current_player, pv.deep_view()) is Ok,
            r matches Ok(out) ==> out.deep_view() == pv_chinese(
                self.board@,
                self.current_player,
                pv.deep_view(),
            )->Ok_0,
            r matches Err(e) ==> Err::<Seq<Seq<char>>, MoveError>(e) == pv_chinese(
                self.board@,
                self.current_player,
                pv.deep_view(),
            ),
    {
        let ghost b0 = self.board@;
        let ghost p0 = self.current_player;
        let ghost moves = pv.deep_view();
        let mut sim = GameState {
            board: self.board.duplicate(),
            current_player: self.current_player,
            history: Vec::new(),
            flipped: false,
        };
        let mut zh_moves: Vec<String> = Vec::new();
        let mut i: usize = 0;
        proof {
            assert(moves.skip(0) =~= moves);
            assert(zh_moves.deep_view() =~= Seq::<Seq<char>>::empty());
            match pv_chinese(sim.board@, sim.current_player, moves) {
                Ok(rest) => {
                    assert(zh_moves.deep_view() + rest =~= rest);
                },
                Err(e) => {},
            }
        }
        while i < pv.len()
            invariant
                sim.wf(),
                i <= pv.len(),
                b0 == self.board@,
                p0 == self.current_player,
                moves == pv.deep_view(),
                moves.len() == pv.len(),
                match pv_chinese(sim.board@, sim.current_player, moves.skip(i as int)) {
                    Ok(rest) => pv_chinese(b0, p0, moves) == Ok::<Seq<Seq<char>>, MoveError>(
                        zh_moves.deep_view() + rest,
                    ),
                    Err(e) => pv_chinese(b0, p0, moves) == Err::<Seq<Seq<char>>, MoveError>(e),
                },
            decreases pv.len() - i,
        {
            let ghost pre_b = sim.board@;
            let ghost pre_p = sim.current_player;
            let ghost acc = zh_moves.deep_view();
            proof {
                assert(moves.skip(i as int).len() == moves.len() - i);
                assert(moves.skip(i as int)[0] == moves[i as int]);
                assert(moves[i as int] == pv[i as int]@);
                assert(moves.skip(i as int).drop_first() =~= moves.skip(i as int + 1));
            }
            let move_str = &pv[i];
            let zh = match sim.move_to_chinese(move_str.as_str()) {
                Ok(z) => z,
                Err(e) => {
                    proof {
                        assert(pv_chinese(pre_b, pre_p, moves.skip(i as int)) == Err::<
                            Seq<Seq<char>>,
                            MoveError,
                        >(e));
                    }
                    return Err(e);
                },
            };
            match sim.apply_move(move_str.as_str()) {
                Ok(()) => {},
                Err(e) => {
                    proof {
                        assert(pv_chinese(pre_b, pre_p, moves.skip(i as int)) == Err::<
                            Seq<Seq<char>>,
                            MoveError,
                        >(e));
                    }
                    return Err(e);
                },
            }
            zh_moves.push(zh);
            proof {
                let v = apply_outcome(pre_b, pre_p, moves[i as int])->Ok_0;
                assert(sim.board@ == board_after(pre_b, v.0, v.1));
                assert(zh_moves.deep_view() =~= acc.push(zh@));
                match pv_chinese(sim.board@, sim.current_player, moves.skip(i as int + 1)) {
                    Ok(rest) => {
                        assert(pv_chinese(pre_b, pre_p, moves.skip(i as int)) == Ok::<
                            Seq<Seq<char>>,
                            MoveError,
                        >(seq![zh@] + rest));
                        assert(acc + (seq![zh@] + rest) =~= acc.push(zh@) + rest);
                    },
                    Err(e) => {},
                }
            }
            i = i + 1;
        }
        proof {
            assert(moves.skip(pv.len() as int).len() == 0);
            assert(zh_moves.deep_view() + Seq::<Seq<char>>::empty() =~= zh_moves.deep_view());
        }
        Ok(zh_moves)
    }
}

} // verus!
