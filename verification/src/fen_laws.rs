//! The codec law: reading back a generated FEN string reproduces the
//! position exactly.

use vstd::prelude::*;
use crate::fen::{
    char_piece, digit_char, digit_val, fen_board, fen_of, fen_parse, fen_row, fen_row_from,
    fen_rows_down, parse_board_rec, parse_row, parse_row_rec, piece_char, side_char, split_slash,
    take_field, FenError,
};
use crate::state::{at, Piece, PlayerColor};
use crate::text::{is_ws, take_word, words};

verus! {

/// The nine squares of one board row.
spec fn row_cells(b: Seq<Option<Piece>>, row: int) -> Seq<Option<Piece>> {
    Seq::new(9, |c: int| at(b, row, c))
}

/// The rows `y..10` of a board, as one row-major sequence.
spec fn board_suffix(b: Seq<Option<Piece>>, y: int) -> Seq<Option<Piece>> {
    Seq::new(((10 - y) * 9) as nat, |k: int| b[y * 9 + k])
}

/// A character a row's text can contain: a digit or a piece letter.
spec fn is_row_char(c: char) -> bool {
    digit_val(c) is Some || char_piece(c) is Some
}

/// Piece letters read back as the piece they were written for, and are
/// neither digits, separators nor whitespace.
proof fn lemma_piece_char_facts(p: Piece)
    ensures
        char_piece(piece_char(p)) == Some(p),
        digit_val(piece_char(p)) is None,
        piece_char(p) != '/',
        !is_ws(piece_char(p)),
{
}

/// Digits written for runs of 1..=9 empty squares read back as their
/// value, and are neither piece letters, separators nor whitespace.
proof fn lemma_digit_char_facts(d: int)
    requires
        1 <= d <= 9,
    ensures
        digit_val(digit_char(d)) == Some(d),
        char_piece(digit_char(d)) is None,
        digit_char(d) != '/',
        !is_ws(digit_char(d)),
{
}

/// Every character of a row's text is a digit or a piece letter.
proof fn lemma_fen_row_chars(b: Seq<Option<Piece>>, row: int, col: int, pending: int)
    requires
        0 <= pending <= col <= 9,
    ensures
        forall|k: int|
            0 <= k < fen_row_from(b, row, col, pending).len() ==> is_row_char(
                #[trigger] fen_row_from(b, row, col, pending)[k],
            ),
    decreases 9 - col,
{
    if col >= 9 {
        if pending > 0 {
            lemma_digit_char_facts(pending);
            assert(fen_row_from(b, row, col, pending) =~= seq![digit_char(pending)]);
        }
    } else {
        match at(b, row, col) {
            Some(p) => {
                lemma_piece_char_facts(p);
                lemma_fen_row_chars(b, row, col + 1, 0);
                let digitpart = if pending > 0 {
                    seq![digit_char(pending)]
                } else {
                    Seq::<char>::empty()
                };
                if pending > 0 {
                    lemma_digit_char_facts(pending);
                }
                let tail = fen_row_from(b, row, col + 1, 0);
                let s = digitpart + seq![piece_char(p)] + tail;
                assert(fen_row_from(b, row, col, pending) == s);
                assert forall|k: int|
                    0 <= k < fen_row_from(b, row, col, pending).len() implies is_row_char(
                    #[trigger] fen_row_from(b, row, col, pending)[k],
                ) by {
                    assert(fen_row_from(b, row, col, pending)[k] == s[k]);
                    if k < digitpart.len() {
                        assert(s[k] == digit_char(pending));
                    } else if k == digitpart.len() {
                        assert(s[k] == piece_char(p));
                    } else {
                        assert(s[k] == tail[k - digitpart.len() - 1]);
                        assert(is_row_char(tail[k - digitpart.len() - 1]));
                    }
                }
            },
            None => {
                lemma_fen_row_chars(b, row, col + 1, pending + 1);
                assert(fen_row_from(b, row, col, pending) == fen_row_from(
                    b,
                    row,
                    col + 1,
                    pending + 1,
                ));
                assert forall|k: int|
                    0 <= k < fen_row_from(b, row, col, pending).len() implies is_row_char(
                    #[trigger] fen_row_from(b, row, col, pending)[k],
                ) by {
                    assert(is_row_char(fen_row_from(b, row, col + 1, pending + 1)[k]));
                }
            },
        }
    }
}

/// Row characters are neither separators nor whitespace.
proof fn lemma_row_char_plain(c: char)
    requires
        is_row_char(c),
    ensures
        c != '/',
        !is_ws(c),
{
}

/// A row's text is never empty while squares or a pending run remain.
proof fn lemma_fen_row_nonempty(b: Seq<Option<Piece>>, row: int, col: int, pending: int)
    requires
        0 <= col,
        0 <= pending,
        pending > 0 || col < 9,
    ensures
        fen_row_from(b, row, col, pending).len() >= 1,
    decreases 9 - col,
{
    if col < 0 || col >= 9 {
    } else {
        match at(b, row, col) {
            Some(p) => {},
            None => {
                lemma_fen_row_nonempty(b, row, col + 1, pending + 1);
            },
        }
    }
}

/// Every character of the whole board field is a row character or `/`.
proof fn lemma_fen_rows_down_chars(b: Seq<Option<Piece>>, y: int)
    requires
        0 <= y <= 9,
    ensures
        forall|k: int|
            0 <= k < fen_rows_down(b, y).len() ==> (is_row_char(#[trigger] fen_rows_down(b, y)[k])
                || fen_rows_down(b, y)[k] == '/'),
    decreases y,
{
    lemma_fen_row_chars(b, y, 0, 0);
    if y > 0 {
        lemma_fen_rows_down_chars(b, y - 1);
        let row = fen_row(b, y);
        let rest = fen_rows_down(b, y - 1);
        let s = row + seq!['/'] + rest;
        assert(fen_rows_down(b, y) == s);
        assert forall|k: int| 0 <= k < s.len() implies (is_row_char(#[trigger] s[k]) || s[k]
            == '/') by {
            if k < row.len() {
                assert(s[k] == row[k]);
            } else if k == row.len() {
                assert(s[k] == '/');
            } else {
                assert(s[k] == rest[k - row.len() - 1]);
            }
        }
    }
}

/// A text of non-whitespace characters is one whole word.
proof fn lemma_take_word_all(s: Seq<char>)
    requires
        forall|k: int| 0 <= k < s.len() ==> !is_ws(#[trigger] s[k]),
    ensures
        take_word(s) == s,
    decreases s.len(),
{
    if s.len() == 0 {
        assert(take_word(s) =~= s);
    } else {
        lemma_take_word_all(s.drop_first());
        assert(seq![s[0]] + s.drop_first() =~= s);
    }
}

/// A word stops exactly at the first whitespace character.
proof fn lemma_take_word_prefix(a: Seq<char>, rest: Seq<char>)
    requires
        forall|k: int| 0 <= k < a.len() ==> !is_ws(#[trigger] a[k]),
        rest.len() > 0,
        is_ws(rest[0]),
    ensures
        take_word(a + rest) == a,
    decreases a.len(),
{
    if a.len() == 0 {
        assert(a + rest =~= rest);
        assert(take_word(rest) =~= a);
    } else {
        lemma_take_word_prefix(a.drop_first(), rest);
        assert((a + rest).drop_first() =~= a.drop_first() + rest);
        assert(seq![a[0]] + a.drop_first() =~= a);
    }
}

/// Two whitespace-free fields joined by one space split into exactly
/// those two words.
proof fn lemma_words_two(a: Seq<char>, c: Seq<char>)
    requires
        a.len() > 0,
        c.len() > 0,
        forall|k: int| 0 <= k < a.len() ==> !is_ws(#[trigger] a[k]),
        forall|k: int| 0 <= k < c.len() ==> !is_ws(#[trigger] c[k]),
    ensures
        words(a + seq![' '] + c) == seq![a, c],
{
    let s = a + seq![' '] + c;
    let rest = seq![' '] + c;
    assert(s =~= a + rest);
    assert(is_ws(' '));
    lemma_take_word_prefix(a, rest);
    assert(take_word(s) == a);
    assert(s[0] == a[0]);
    assert(s.skip(a.len() as int) =~= rest);
    assert(rest.drop_first() =~= c);
    lemma_take_word_all(c);
    assert(c.skip(c.len() as int) =~= Seq::<char>::empty());
    assert(words(c.skip(c.len() as int)) =~= Seq::<Seq<char>>::empty());
    assert(words(c) =~= seq![c]);
    assert(words(rest) == words(c));
    assert(words(s) =~= seq![a, c]);
}

/// A text without separators is one whole field.
proof fn lemma_take_field_all(s: Seq<char>)
    requires
        forall|k: int| 0 <= k < s.len() ==> s[k] != '/',
    ensures
        take_field(s) == s,
    decreases s.len(),
{
    if s.len() == 0 {
        assert(take_field(s) =~= s);
    } else {
        lemma_take_field_all(s.drop_first());
        assert(seq![s[0]] + s.drop_first() =~= s);
    }
}

/// A field stops exactly at the first separator.
proof fn lemma_take_field_prefix(a: Seq<char>, rest: Seq<char>)
    requires
        forall|k: int| 0 <= k < a.len() ==> a[k] != '/',
        rest.len() > 0,
        rest[0] == '/',
    ensures
        take_field(a + rest) == a,
    decreases a.len(),
{
    if a.len() == 0 {
        assert(a + rest =~= rest);
        assert(take_field(rest) =~= a);
    } else {
        lemma_take_field_prefix(a.drop_first(), rest);
        assert((a + rest).drop_first() =~= a.drop_first() + rest);
        assert(seq![a[0]] + a.drop_first() =~= a);
    }
}

/// The board field splits back into its rows, top row first.
proof fn lemma_split_board(b: Seq<Option<Piece>>, y: int)
    requires
        0 <= y <= 9,
    ensures
        split_slash(fen_rows_down(b, y)) == Seq::new((y + 1) as nat, |i: int| fen_row(b, y - i)),
    decreases y,
{
    lemma_fen_row_chars(b, y, 0, 0);
    assert forall|k: int| 0 <= k < fen_row(b, y).len() implies fen_row(b, y)[k] != '/' by {
        lemma_row_char_plain(fen_row(b, y)[k]);
    }
    if y == 0 {
        lemma_take_field_all(fen_row(b, 0));
        assert(split_slash(fen_rows_down(b, 0)) =~= Seq::new(1, |i: int| fen_row(b, 0 - i)));
    } else {
        let s = fen_rows_down(b, y);
        let row = fen_row(b, y);
        let rest = seq!['/'] + fen_rows_down(b, y - 1);
        assert(s =~= row + rest);
        lemma_take_field_prefix(row, rest);
        assert(take_field(s) == row);
        assert(s.skip(row.len() as int + 1) =~= fen_rows_down(b, y - 1));
        lemma_split_board(b, y - 1);
        assert(split_slash(s) =~= Seq::new((y + 1) as nat, |i: int| fen_row(b, y - i)));
    }
}

/// Reading back a row's text fills in exactly the squares the row holds.
proof fn lemma_row_roundtrip_rec(
    b: Seq<Option<Piece>>,
    row: int,
    col: int,
    pending: int,
    acc: Seq<Option<Piece>>,
)
    requires
        0 <= pending <= col <= 9,
        acc.len() == 9,
        forall|j: int| 0 <= j < col - pending ==> acc[j] == at(b, row, j),
        forall|j: int| col - pending <= j < 9 ==> acc[j] is None,
        forall|j: int| col - pending <= j < col ==> #[trigger] at(b, row, j) is None,
    ensures
        parse_row_rec(fen_row_from(b, row, col, pending), col - pending, acc) == Ok::<
            Seq<Option<Piece>>,
            FenError,
        >(row_cells(b, row)),
    decreases 9 - col,
{
    if col >= 9 {
        if pending > 0 {
            lemma_digit_char_facts(pending);
            let s = fen_row_from(b, row, col, pending);
            assert(s =~= seq![digit_char(pending)]);
            assert(s.drop_first() =~= Seq::<char>::empty());
            assert(parse_row_rec(s, col - pending, acc) == parse_row_rec(
                Seq::<char>::empty(),
                9,
                acc,
            ));
        }
        assert(acc =~= row_cells(b, row));
    } else {
        match at(b, row, col) {
            Some(p) => {
                lemma_piece_char_facts(p);
                let tail = fen_row_from(b, row, col + 1, 0);
                let s = fen_row_from(b, row, col, pending);
                let acc2 = acc.update(col, Some(p));
                if pending > 0 {
                    lemma_digit_char_facts(pending);
                    assert(s =~= seq![digit_char(pending)] + (seq![piece_char(p)] + tail));
                    let s1 = seq![piece_char(p)] + tail;
                    assert(s.drop_first() =~= s1);
                    assert(parse_row_rec(s, col - pending, acc) == parse_row_rec(s1, col, acc));
                    assert(s1.drop_first() =~= tail);
                    assert(parse_row_rec(s1, col, acc) == parse_row_rec(tail, col + 1, acc2));
                } else {
                    assert(s =~= seq![piece_char(p)] + tail);
                    assert(s.drop_first() =~= tail);
                    assert(parse_row_rec(s, col - pending, acc) == parse_row_rec(
                        tail,
                        col + 1,
                        acc2,
                    ));
                }
                lemma_row_roundtrip_rec(b, row, col + 1, 0, acc2);
            },
            None => {
                lemma_row_roundtrip_rec(b, row, col + 1, pending + 1, acc);
            },
        }
    }
}

/// One row of any board reads back from its own FEN text.
proof fn lemma_row_roundtrip(b: Seq<Option<Piece>>, row: int)
    ensures
        parse_row(fen_row(b, row)) == Ok::<Seq<Option<Piece>>, FenError>(row_cells(b, row)),
{
    lemma_row_roundtrip_rec(b, row, 0, 0, crate::fen::empty_row());
}

/// All rows from `y` on read back into the board's own squares.
proof fn lemma_parse_board(rows: Seq<Seq<char>>, b: Seq<Option<Piece>>, y: int)
    requires
        0 <= y <= 10,
        rows.len() == 10,
        forall|i: int| 0 <= i < 10 ==> rows[i] == fen_row(b, 9 - i),
    ensures
        parse_board_rec(rows, y) == Ok::<Seq<Option<Piece>>, FenError>(board_suffix(b, y)),
    decreases 10 - y,
{
    if y >= 10 {
        assert(board_suffix(b, 10) =~= Seq::<Option<Piece>>::empty());
    } else {
        assert(rows[9 - y] == fen_row(b, y));
        lemma_row_roundtrip(b, y);
        lemma_parse_board(rows, b, y + 1);
        assert(row_cells(b, y) + board_suffix(b, y + 1) =~= board_suffix(b, y));
    }
}

/// The codec round trip: for any 10x9 board and side to move, parsing the
/// generated FEN text gives back exactly the same board and side.
pub proof fn lemma_fen_round_trip(b: Seq<Option<Piece>>, player: PlayerColor)
    requires
        b.len() == 90,
    ensures
        fen_parse(fen_of(b, player)) == Ok::<(Seq<Option<Piece>>, PlayerColor), FenError>(
            (b, player),
        ),
{
    let board_field = fen_board(b);
    let marker = seq![side_char(player)];
    let s = fen_of(b, player);
    assert(s =~= board_field + seq![' '] + marker);

    lemma_fen_rows_down_chars(b, 9);
    assert forall|k: int| 0 <= k < board_field.len() implies !is_ws(#[trigger] board_field[k]) by {
        if is_row_char(board_field[k]) {
            lemma_row_char_plain(board_field[k]);
        }
        assert(!is_ws('/'));
    }
    lemma_fen_row_nonempty(b, 9, 0, 0);
    assert(board_field.len() >= 1);
    assert(!is_ws(side_char(player)));
    lemma_words_two(board_field, marker);
    let ws = words(s);
    assert(ws.len() == 2);
    assert(ws[0] == board_field);
    assert(ws[1] == marker);

    lemma_split_board(b, 9);
    let rows = split_slash(board_field);
    assert(rows.len() == 10);
    assert(forall|i: int| 0 <= i < 10 ==> rows[i] == fen_row(b, 9 - i));
    lemma_parse_board(rows, b, 0);
    assert(board_suffix(b, 0) =~= b);

    match player {
        PlayerColor::Red => {
            assert(marker =~= seq!['w']);
        },
        PlayerColor::Black => {
            assert(marker =~= seq!['b']);
            assert(marker[0] == 'b');
            assert(seq!['w'][0] == 'w');
            assert(marker != seq!['w']);
        },
    }
}

} // verus!
