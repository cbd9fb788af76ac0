//! The FEN-style position codec: ten `/`-separated rows from Black's back
//! rank down to Red's, run-length-encoded empty squares, and a `w`/`b`
//! side-to-move marker.

use vstd::prelude::*;
use crate::state::{at, Board, GameState, Piece, PieceKind, PlayerColor, Position};
use crate::text::{split_words, words};

verus! {

/// Why a FEN string was rejected.
#[derive(Debug, Clone, Copy, PartialEq, Eq, Structural)]
pub enum FenError {
    /// Fewer than two whitespace-separated fields.
    MissingField,
    /// The board field does not have exactly ten rows.
    WrongRowCount,
    /// A row does not come to exactly nine columns.
    BadRowLength,
    /// A character that is neither a digit nor a piece letter.
    InvalidPieceChar(char),
    /// The side-to-move field is neither `w` nor `b`.
    InvalidSideMarker,
}

/// The FEN letter of a piece: uppercase for Red, lowercase for Black.
pub open spec fn piece_char(p: Piece) -> char {
    match (p.color, p.kind) {
        (PlayerColor::Red, PieceKind::General) => 'K',
        (PlayerColor::Red, PieceKind::Advisor) => 'A',
        (PlayerColor::Red, PieceKind::Elephant) => 'B',
        (PlayerColor::Red, PieceKind::Horse) => 'N',
        (PlayerColor::Red, PieceKind::Rook) => 'R',
        (PlayerColor::Red, PieceKind::Cannon) => 'C',
        (PlayerColor::Red, PieceKind::Pawn) => 'P',
        (PlayerColor::Black, PieceKind::General) => 'k',
        (PlayerColor::Black, PieceKind::Advisor) => 'a',
        (PlayerColor::Black, PieceKind::Elephant) => 'b',
        (PlayerColor::Black, PieceKind::Horse) => 'n',
        (PlayerColor::Black, PieceKind::Rook) => 'r',
        (PlayerColor::Black, PieceKind::Cannon) => 'c',
        (PlayerColor::Black, PieceKind::Pawn) => 'p',
    }
}

/// The piece a FEN letter names, if any.
pub open spec fn char_piece(c: char) -> Option<Piece> {
    if c == 'K' {
        Some(Piece { color: PlayerColor::Red, kind: PieceKind::General })
    } else if c == 'A' {
        Some(Piece { color: PlayerColor::Red, kind: PieceKind::Advisor })
    } else if c == 'B' {
        Some(Piece { color: PlayerColor::Red, kind: PieceKind::Elephant })
    } else if c == 'N' {
        Some(Piece { color: PlayerColor::Red, kind: PieceKind::Horse })
    } else if c == 'R' {
        Some(Piece { color: PlayerColor::Red, kind: PieceKind::Rook })
    } else if c == 'C' {
        Some(Piece { color: PlayerColor::Red, kind: PieceKind::Cannon })
    } else if c == 'P' {
        Some(Piece { color: PlayerColor::Red, kind: PieceKind::Pawn })
    } else if c == 'k' {
        Some(Piece { color: PlayerColor::Black, kind: PieceKind::General })
    } else if c == 'a' {
        Some(Piece { color: PlayerColor::Black, kind: PieceKind::Advisor })
    } else if c == 'b' {
        Some(Piece { color: PlayerColor::Black, kind: PieceKind::Elephant })
    } else if c == 'n' {
        Some(Piece { color: PlayerColor::Black, kind: PieceKind::Horse })
    } else if c == 'r' {
        Some(Piece { color: PlayerColor::Black, kind: PieceKind::Rook })
    } else if c == 'c' {
        Some(Piece { color: PlayerColor::Black, kind: PieceKind::Cannon })
    } else if c == 'p' {
        Some(Piece { color: PlayerColor::Black, kind: PieceKind::Pawn })
    } else {
        None
    }
}

/// The numeric value of an ASCII decimal digit, if `c` is one.
pub open spec fn digit_val(c: char) -> Option<int> {
    if '0' as int <= c as int && c as int <= '9' as int {
        Some(c as int - '0' as int)
    } else {
        None
    }
}

/// The ASCII digit for a value in 0..=9.
pub open spec fn digit_char(d: int) -> char {
    (('0' as int + d) as char)
}

/// The side-to-move marker: `w` for Red, `b` for Black.
pub open spec fn side_char(player: PlayerColor) -> char {
    match player {
        PlayerColor::Red => 'w',
        PlayerColor::Black => 'b',
    }
}

/// The rest of a row's FEN text from column `col` on, with `pending`
/// not-yet-emitted empty squares just before `col`.
pub open spec fn fen_row_from(b: Seq<Option<Piece>>, row: int, col: int, pending: int) -> Seq<char>
    decreases 9 - col,
{
    if col < 0 || col >= 9 {
        if pending > 0 {
            seq![digit_char(pending)]
        } else {
            Seq::empty()
        }
    } else {
        match at(b, row, col) {
            Some(p) => (if pending > 0 {
                seq![digit_char(pending)]
            } else {
                Seq::empty()
            }) + seq![piece_char(p)] + fen_row_from(b, row, col + 1, 0),
            None => fen_row_from(b, row, col + 1, pending + 1),
        }
    }
}

/// One row's FEN text.
pub open spec fn fen_row(b: Seq<Option<Piece>>, row: int) -> Seq<char> {
    fen_row_from(b, row, 0, 0)
}

/// The board field of rows `y` down to 0, `/`-separated.
pub open spec fn fen_rows_down(b: Seq<Option<Piece>>, y: int) -> Seq<char>
    decreases y,
{
    if y <= 0 {
        fen_row(b, 0)
    } else {
        fen_row(b, y) + seq!['/'] + fen_rows_down(b, y - 1)
    }
}

/// The whole board field: rows from Black's back rank (row 9) down to
/// Red's back rank (row 0).
pub open spec fn fen_board(b: Seq<Option<Piece>>) -> Seq<char> {
    fen_rows_down(b, 9)
}

/// The full FEN text of a position.
pub open spec fn fen_of(b: Seq<Option<Piece>>, player: PlayerColor) -> Seq<char> {
    fen_board(b) + seq![' ', side_char(player)]
}

/// The longest prefix of `s` without a row separator.
pub open spec fn take_field(s: Seq<char>) -> Seq<char>
    decreases s.len(),
{
    if s.len() == 0 || s[0] == '/' {
        Seq::empty()
    } else {
        seq![s[0]] + take_field(s.drop_first())
    }
}

/// A field is never longer than the text it is read from.
pub proof fn lemma_take_field_len(s: Seq<char>)
    ensures
        take_field(s).len() <= s.len(),
    decreases s.len(),
{
    if s.len() == 0 || s[0] == '/' {
    } else {
        lemma_take_field_len(s.drop_first());
    }
}

/// A field is the text up to its first row separator.
pub proof fn lemma_take_field_subrange(s: Seq<char>, j: int)
    requires
        0 <= j <= s.len(),
        forall|k: int| 0 <= k < j ==> s[k] != '/',
        j == s.len() || s[j] == '/',
    ensures
        take_field(s) == s.subrange(0, j),
    decreases j,
{
    if j == 0 {
        assert(take_field(s) =~= s.subrange(0, 0));
    } else {
        lemma_take_field_subrange(s.drop_first(), j - 1);
        assert(seq![s[0]] + s.drop_first().subrange(0, j - 1) =~= s.subrange(0, j));
    }
}

/// The `/`-separated fields of `s`, in order; empty fields are kept, so
/// there is always one more field than separators.
pub open spec fn split_slash(s: Seq<char>) -> Seq<Seq<char>>
    decreases s.len(),
{
    let f = take_field(s);
    proof {
        lemma_take_field_len(s);
    }
    if f.len() == s.len() {
        seq![f]
    } else {
        seq![f] + split_slash(s.skip(f.len() as int + 1))
    }
}

/// Split `s` on `/`, keeping empty fields.
pub fn split_on_slash(s: &str) -> (r: Vec<String>)
    ensures
        r.deep_view() == split_slash(s@),
{
    let n = s.unicode_len();
    let mut r: Vec<String> = Vec::new();
    let mut i: usize = 0;
    let mut done = false;
    proof {
        assert(s@.skip(0) =~= s@);
        assert(r.deep_view() + split_slash(s@) =~= split_slash(s@));
    }
    while !done
        invariant
            n == s@.len(),
            i <= n,
            !done ==> split_slash(s@) == r.deep_view() + split_slash(s@.skip(i as int)),
            done ==> split_slash(s@) == r.deep_view(),
        decreases n - i + (if done {
            0int
        } else {
            1int
        }),
    {
        let ghost acc = r.deep_view();
        let mut j: usize = i;
        while j < n && s.get_char(j) != '/'
            invariant
                n == s@.len(),
                i <= j <= n,
                forall|k: int| i <= k < j ==> s@[k] != '/',
            decreases n - j,
        {
            j = j + 1;
        }
        let w = s.substring_char(i, j);
        proof {
            lemma_take_field_subrange(s@.skip(i as int), j - i);
            assert(s@.skip(i as int).subrange(0, j - i) =~= s@.subrange(i as int, j as int));
            assert(take_field(s@.skip(i as int)) == w@);
        }
        r.push(w.to_owned());
        proof {
            assert(r.deep_view() =~= acc.push(w@));
        }
        if j < n {
            proof {
                assert(s@.skip(i as int).skip(j - i + 1) =~= s@.skip(j + 1));
                assert(split_slash(s@.skip(i as int)) == seq![w@] + split_slash(s@.skip(j + 1)));
                assert(acc + (seq![w@] + split_slash(s@.skip(j + 1))) =~= acc.push(w@)
                    + split_slash(s@.skip(j + 1)));
            }
            i = j + 1;
        } else {
            proof {
                assert(w@.len() == s@.skip(i as int).len());
                assert(split_slash(s@.skip(i as int)) == seq![w@]);
                assert(acc + seq![w@] =~= acc.push(w@));
            }
            done = true;
        }
    }
    r
}

/// A row of nine empty squares.
pub open spec fn empty_row() -> Seq<Option<Piece>> {
    Seq::new(9, |i: int| None)
}

/// Read one row's text, filling `acc` from column `col` on: a digit skips
/// that many empty squares, a piece letter fills one square, and the row
/// must come to exactly nine columns.
pub open spec fn parse_row_rec(
    s: Seq<char>,
    col: int,
    acc: Seq<Option<Piece>>,
) -> Result<Seq<Option<Piece>>, FenError>
    decreases s.len(),
{
    if s.len() == 0 {
        if col == 9 {
            Ok(acc)
        } else {
            Err(FenError::BadRowLength)
        }
    } else {
        let c = s[0];
        match digit_val(c) {
            Some(d) => parse_row_rec(s.drop_first(), col + d, acc),
            None => match char_piece(c) {
                None => Err(FenError::InvalidPieceChar(c)),
                Some(p) => {
                    if col >= 9 {
                        Err(FenError::BadRowLength)
                    } else {
                        parse_row_rec(s.drop_first(), col + 1, acc.update(col, Some(p)))
                    }
                },
            },
        }
    }
}

/// Read one row's text into nine squares.
pub open spec fn parse_row(s: Seq<char>) -> Result<Seq<Option<Piece>>, FenError> {
    parse_row_rec(s, 0, empty_row())
}

/// Read the rows `y..10` (each taken from the reversed row list) into
/// their concatenated cells.
pub open spec fn parse_board_rec(rows: Seq<Seq<char>>, y: int) -> Result<
    Seq<Option<Piece>>,
    FenError,
>
    decreases 10 - y,
{
    if y >= 10 {
        Ok(Seq::empty())
    } else {
        match parse_row(rows[9 - y]) {
            Err(e) => Err(e),
            Ok(cells) => match parse_board_rec(rows, y + 1) {
                Err(e) => Err(e),
                Ok(rest) => Ok(cells + rest),
            },
        }
    }
}

/// How a FEN string reads as a position: the board cells and the side to
/// move, or the first error in the fixed order fields, row count, rows
/// (bottom row of the board first), side marker.
pub open spec fn fen_parse(s: Seq<char>) -> Result<(Seq<Option<Piece>>, PlayerColor), FenError> {
    let ws = words(s);
    if ws.len() < 2 {
        Err(FenError::MissingField)
    } else {
        let rows = split_slash(ws[0]);
        if rows.len() != 10 {
            Err(FenError::WrongRowCount)
        } else {
            match parse_board_rec(rows, 0) {
                Err(e) => Err(e),
                Ok(cells) => {
                    if ws[1] == seq!['w'] {
                        Ok((cells, PlayerColor::Red))
                    } else if ws[1] == seq!['b'] {
                        Ok((cells, PlayerColor::Black))
                    } else {
                        Err(FenError::InvalidSideMarker)
                    }
                },
            }
        }
    }
}

/// The piece a FEN letter names, if any.
fn char_piece_exec(c: char) -> (r: Option<Piece>)
    ensures
        r == char_piece(c),
{
    if c == 'K' {
        Some(Piece { color: PlayerColor::Red, kind: PieceKind::General })
    } else if c == 'A' {
        Some(Piece { color: PlayerColor::Red, kind: PieceKind::Advisor })
    } else if c == 'B' {
        Some(Piece { color: PlayerColor::Red, kind: PieceKind::Elephant })
    } else if c == 'N' {
        Some(Piece { color: PlayerColor::Red, kind: PieceKind::Horse })
    } else if c == 'R' {
        Some(Piece { color: PlayerColor::Red, kind: PieceKind::Rook })
    } else if c == 'C' {
        Some(Piece { color: PlayerColor::Red, kind: PieceKind::Cannon })
    } else if c == 'P' {
        Some(Piece { color: PlayerColor::Red, kind: PieceKind::Pawn })
    } else if c == 'k' {
        Some(Piece { color: PlayerColor::Black, kind: PieceKind::General })
    } else if c == 'a' {
        Some(Piece { color: PlayerColor::Black, kind: PieceKind::Advisor })
    } else if c == 'b' {
        Some(Piece { color: PlayerColor::Black, kind: PieceKind::Elephant })
    } else if c == 'n' {
        Some(Piece { color: PlayerColor::Black, kind: PieceKind::Horse })
    } else if c == 'r' {
        Some(Piece { color: PlayerColor::Black, kind: PieceKind::Rook })
    } else if c == 'c' {
        Some(Piece { color: PlayerColor::Black, kind: PieceKind::Cannon })
    } else if c == 'p' {
        Some(Piece { color: PlayerColor::Black, kind: PieceKind::Pawn })
    } else {
        None
    }
}

/// Read one row's text into its nine squares.
fn parse_row_exec(s: &str) -> (r: Result<Vec<Option<Piece>>, FenError>)
    ensures
        match r {
            Ok(cells) => parse_row(s@) == Ok::<Seq<Option<Piece>>, FenError>(cells@) && cells@.len()
                == 9,
            Err(e) => parse_row(s@) == Err::<Seq<Option<Piece>>, FenError>(e),
        },
{
    let n = s.unicode_len();
    let mut cells: Vec<Option<Piece>> = Vec::new();
    let mut k: usize = 0;
    while k < 9
        invariant
            k <= 9,
            cells@.len() == k,
            forall|m: int| 0 <= m < k ==> cells@[m] is None,
        decreases 9 - k,
    {
        cells.push(None);
        k = k + 1;
    }
    proof {
        assert(cells@ =~= empty_row());
        assert(s@.skip(0) =~= s@);
    }
    // `col` follows the true column clamped to 10, which keeps both the
    // "exactly nine" and the "already past nine" tests exact.
    let mut col: usize = 0;
    let ghost mut col_true: int = 0;
    let mut i: usize = 0;
    while i < n
        invariant
            n == s@.len(),
            i <= n,
            cells@.len() == 9,
            0 <= col_true,
            col as int == (if col_true > 10 {
                10int
            } else {
                col_true
            }),
            parse_row(s@) == parse_row_rec(s@.skip(i as int), col_true, cells@),
        decreases n - i,
    {
        let c = s.get_char(i);
        let v = c as u32;
        proof {
            assert(s@.skip(i as int).drop_first() =~= s@.skip(i as int + 1));
        }
        if '0' as u32 <= v && v <= '9' as u32 {
            let d = (v - '0' as u32) as usize;
            proof {
                col_true = col_true + d;
            }
            col = if col + d > 10 {
                10
            } else {
                col + d
            };
        } else {
            match char_piece_exec(c) {
                None => {
                    return Err(FenError::InvalidPieceChar(c));
                },
                Some(p) => {
                    if col >= 9 {
                        return Err(FenError::BadRowLength);
                    }
                    cells.set(col, Some(p));
                    proof {
                        col_true = col_true + 1;
                    }
                    col = col + 1;
                },
            }
        }
        i = i + 1;
    }
    proof {
        assert(s@.skip(n as int).len() == 0);
    }
    if col == 9 {
        Ok(cells)
    } else {
        Err(FenError::BadRowLength)
    }
}

/// Append the FEN letter of a piece.
fn append_piece_char(out: &mut String, p: Piece)
    ensures
        final(out)@ == old(out)@.push(piece_char(p)),
{
    let lit: &'static str = match (p.color, p.kind) {
        (PlayerColor::Red, PieceKind::General) => "K",
        (PlayerColor::Red, PieceKind::Advisor) => "A",
        (PlayerColor::Red, PieceKind::Elephant) => "B",
        (PlayerColor::Red, PieceKind::Horse) => "N",
        (PlayerColor::Red, PieceKind::Rook) => "R",
        (PlayerColor::Red, PieceKind::Cannon) => "C",
        (PlayerColor::Red, PieceKind::Pawn) => "P",
        (PlayerColor::Black, PieceKind::General) => "k",
        (PlayerColor::Black, PieceKind::Advisor) => "a",
        (PlayerColor::Black, PieceKind::Elephant) => "b",
        (PlayerColor::Black, PieceKind::Horse) => "n",
        (PlayerColor::Black, PieceKind::Rook) => "r",
        (PlayerColor::Black, PieceKind::Cannon) => "c",
        (PlayerColor::Black, PieceKind::Pawn) => "p",
    };
    proof {
        reveal_strlit("K");
        reveal_strlit("A");
        reveal_strlit("B");
        reveal_strlit("N");
        reveal_strlit("R");
        reveal_strlit("C");
        reveal_strlit("P");
        reveal_strlit("k");
        reveal_strlit("a");
        reveal_strlit("b");
        reveal_strlit("n");
        reveal_strlit("r");
        reveal_strlit("c");
        reveal_strlit("p");
        assert(lit@ =~= seq![piece_char(p)]);
    }
    out.append(lit);
    assert(out@ =~= old(out)@.push(piece_char(p)));
}

/// Append the ASCII digit for a run of `d` empty squares, 1..=9.
fn append_digit_char(out: &mut String, d: usize)
    requires
        1 <= d <= 9,
    ensures
        final(out)@ == old(out)@.push(digit_char(d as int)),
{
    let lit: &'static str = match d {
        1 => "1",
        2 => "2",
        3 => "3",
        4 => "4",
        5 => "5",
        6 => "6",
        7 => "7",
        8 => "8",
        _ => "9",
    };
    proof {
        reveal_strlit("1");
        reveal_strlit("2");
        reveal_strlit("3");
        reveal_strlit("4");
        reveal_strlit("5");
        reveal_strlit("6");
        reveal_strlit("7");
        reveal_strlit("8");
        reveal_strlit("9");
        assert(lit@ =~= seq![digit_char(d as int)]);
    }
    out.append(lit);
    assert(out@ =~= old(out)@.push(digit_char(d as int)));
}

/// The FEN parse/generate pair.
pub struct FenProcessor;

impl FenProcessor {
    /// Read a FEN string into a fresh game state: two whitespace-separated
    /// fields at least (extra fields are ignored), ten `/`-separated rows
    /// from Black's back rank down to Red's, each coming to exactly nine
    /// columns, then `w` (Red to move) or `b` (Black to move).
    pub fn parse_fen(fen: &str) -> (r: Result<GameState, FenError>)
        ensures
            r is Ok <==> fen_parse(fen@) is Ok,
            r matches Ok(st) ==> ({
                &&& st.wf()
                &&& fen_parse(fen@) == Ok::<(Seq<Option<Piece>>, PlayerColor), FenError>(
                    (st.board@, st.current_player),
                )
                &&& st.history@.len() == 0
                &&& !st.flipped
            }),
            r matches Err(e) ==> fen_parse(fen@) == Err::<
                (Seq<Option<Piece>>, PlayerColor),
                FenError,
            >(e),
    {
        let parts = split_words(fen);
        if parts.len() < 2 {
            return Err(FenError::MissingField);
        }
        let rows = split_on_slash(parts[0].as_str());
        proof {
            assert(parts.deep_view()[0] == parts@[0]@);
            assert(rows.deep_view() == split_slash(words(fen@)[0]));
        }
        if rows.len() != 10 {
            return Err(FenError::WrongRowCount);
        }
        let ghost rs = rows.deep_view();
        let mut grid: Vec<Option<Piece>> = Vec::new();
        let mut y: usize = 0;
        proof {
            assert(grid@ + parse_board_rec(rs, 0)->Ok_0 =~= parse_board_rec(rs, 0)->Ok_0);
        }
        while y < 10
            invariant
                y <= 10,
                rows@.len() == 10,
                rs == rows.deep_view(),
                rs.len() == 10,
                words(fen@).len() >= 2,
                rs == split_slash(words(fen@)[0]),
                grid@.len() == y * 9,
                match parse_board_rec(rs, y as int) {
                    Ok(rest) => parse_board_rec(rs, 0) == Ok::<Seq<Option<Piece>>, FenError>(
                        grid@ + rest,
                    ),
                    Err(e) => parse_board_rec(rs, 0) == Err::<Seq<Option<Piece>>, FenError>(e),
                },
            decreases 10 - y,
        {
            proof {
                assert(rs[9 - y as int] == rows@[9 - y as int]@);
            }
            let row_cells = match parse_row_exec(rows[9 - y].as_str()) {
                Ok(c) => c,
                Err(e) => {
                    return Err(e);
                },
            };
            let ghost pre = grid@;
            let mut k: usize = 0;
            while k < 9
                invariant
                    k <= 9,
                    row_cells@.len() == 9,
                    grid@ == pre + row_cells@.subrange(0, k as int),
                decreases 9 - k,
            {
                grid.push(row_cells[k]);
                proof {
                    assert(grid@ =~= pre + row_cells@.subrange(0, k + 1));
                }
                k = k + 1;
            }
            proof {
                assert(row_cells@.subrange(0, 9) =~= row_cells@);
                match parse_board_rec(rs, y + 1) {
                    Ok(rest) => {
                        assert(pre + (row_cells@ + rest) =~= (pre + row_cells@) + rest);
                    },
                    Err(e) => {},
                }
            }
            y = y + 1;
        }
        proof {
            assert(grid@ + Seq::<Option<Piece>>::empty() =~= grid@);
        }
        let board = Board::from_cells(grid);
        let red_marker = String::from_str("w");
        let black_marker = String::from_str("b");
        proof {
            reveal_strlit("w");
            reveal_strlit("b");
            assert(red_marker@ =~= seq!['w']);
            assert(black_marker@ =~= seq!['b']);
            assert(parts.deep_view()[1] == parts@[1]@);
        }
        let current_player = if parts[1] == red_marker {
            PlayerColor::Red
        } else if parts[1] == black_marker {
            PlayerColor::Black
        } else {
            return Err(FenError::InvalidSideMarker);
        };
        Ok(GameState { board, current_player, history: Vec::new(), flipped: false })
    }

    /// Write a position as FEN text: ten rows from Black's back rank down
    /// to Red's, empty squares run-length encoded, then the side marker.
    pub fn generate_fen(state: &GameState) -> (r: String)
        requires
            state.wf(),
        ensures
            r@ == fen_of(state.board@, state.current_player),
    {
        let ghost b = state.board@;
        let mut out = String::new();
        let mut y_plus: usize = 10;
        while y_plus > 0
            invariant
                state.wf(),
                b == state.board@,
                y_plus <= 10,
                fen_board(b) == out@ + (if y_plus > 0 {
                    fen_rows_down(b, y_plus - 1)
                } else {
                    Seq::<char>::empty()
                }),
            decreases y_plus,
        {
            let y = y_plus - 1;
            let ghost row_start = out@;
            let mut empty: usize = 0;
            let mut col: usize = 0;
            while col < 9
                invariant
                    state.wf(),
                    b == state.board@,
                    y < 10,
                    col <= 9,
                    empty <= col,
                    fen_row(b, y as int) == out@.skip(row_start.len() as int) + fen_row_from(
                        b,
                        y as int,
                        col as int,
                        empty as int,
                    ),
                    out@.subrange(0, row_start.len() as int) == row_start,
                    out@.len() >= row_start.len(),
                decreases 9 - col,
            {
                match state.board.get(Position { row: y, col }) {
                    Some(p) => {
                        if empty > 0 {
                            append_digit_char(&mut out, empty);
                            empty = 0;
                        }
                        append_piece_char(&mut out, p);
                        proof {
                            assert(out@.skip(row_start.len() as int) =~= out@.subrange(
                                row_start.len() as int,
                                out@.len() as int,
                            ));
                        }
                    },
                    None => {
                        empty = empty + 1;
                    },
                }
                proof {
                    assert(out@.subrange(0, row_start.len() as int) =~= row_start);
                    assert(fen_row(b, y as int) =~= out@.skip(row_start.len() as int)
                        + fen_row_from(b, y as int, col + 1, empty as int));
                }
                col = col + 1;
            }
            if empty > 0 {
                append_digit_char(&mut out, empty);
            }
            proof {
                assert(fen_row(b, y as int) =~= out@.skip(row_start.len() as int));
                assert(out@ =~= row_start + fen_row(b, y as int));
            }
            if y > 0 {
                let lit = "/";
                proof {
                    reveal_strlit("/");
                }
                out.append(lit);
                proof {
                    assert(fen_rows_down(b, y as int) == fen_row(b, y as int) + seq!['/']
                        + fen_rows_down(b, y as int - 1));
                    assert(out@ =~= row_start + fen_row(b, y as int) + seq!['/']);
                }
            }
            y_plus = y;
            proof {
                assert(fen_board(b) =~= out@ + (if y_plus > 0 {
                    fen_rows_down(b, y_plus - 1)
                } else {
                    Seq::<char>::empty()
                }));
            }
        }
        let space = " ";
        proof {
            reveal_strlit(" ");
        }
        out.append(space);
        match state.current_player {
            PlayerColor::Red => {
                let lit = "w";
                proof {
                    reveal_strlit("w");
                }
                out.append(lit);
            },
            PlayerColor::Black => {
                let lit = "b";
                proof {
                    reveal_strlit("b");
                }
                out.append(lit);
            },
        }
        assert(out@ =~= fen_of(b, state.current_player));
        out
    }
}

impl GameState {
    /// This position as FEN text.
    pub fn to_fen(&self) -> (r: String)
        requires
            self.wf(),
        ensures
            r@ == fen_of(self.board@, self.current_player),
    {
        FenProcessor::generate_fen(self)
    }
}

} // verus!
