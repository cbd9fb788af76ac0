//! Core data model: colors, piece kinds, squares, the 10x9 board and the
//! game state that a whole game lives in.

use vstd::prelude::*;

verus! {

/// The two sides of a game. Red sits at rows 0..5, Black at rows 5..10.
#[derive(Debug, Clone, Copy, PartialEq, Eq, Structural)]
pub enum PlayerColor {
    Red,
    Black,
}

impl PlayerColor {
    /// The other side; a total involution.
    pub fn opponent(&self) -> (r: Self)
        ensures
            r == self.opponent_spec(),
    {
        match self {
            PlayerColor::Red => PlayerColor::Black,
            PlayerColor::Black => PlayerColor::Red,
        }
    }

    pub open spec fn opponent_spec(self) -> PlayerColor {
        match self {
            PlayerColor::Red => PlayerColor::Black,
            PlayerColor::Black => PlayerColor::Red,
        }
    }

    /// Swapping sides twice gives the side back: `opponent` is an involution.
    pub proof fn lemma_opponent_involution(self)
        ensures
            self.opponent_spec().opponent_spec() == self,
    {
    }
}

/// The seven kinds of piece.
#[derive(Debug, Clone, Copy, PartialEq, Eq, Structural)]
pub enum PieceKind {
    General,
    Advisor,
    Elephant,
    Horse,
    Rook,
    Cannon,
    Pawn,
}

/// A piece on the board: its side and its kind.
#[derive(Debug, Clone, Copy, PartialEq, Eq, Structural)]
pub struct Piece {
    pub color: PlayerColor,
    pub kind: PieceKind,
}

/// A square. Row 0 is Red's home rank, row 9 Black's; columns run 0..9
/// from the `a` file to the `i` file.
#[derive(Debug, Clone, Copy, PartialEq, Eq, Structural)]
pub struct Position {
    pub row: usize,
    pub col: usize,
}

/// A square that actually lies on the 10x9 board.
pub open spec fn pos_valid(p: Position) -> bool {
    p.row < 10 && p.col < 9
}

/// The board: 10 rows of 9 columns, each square empty or holding one piece.
/// Stored row-major as a flat vector of length 90.
#[derive(Debug, Clone)]
pub struct Board {
    grid: Vec<Option<Piece>>,
}

/// The square `(row, col)` of a row-major board sequence.
pub open spec fn at(b: Seq<Option<Piece>>, row: int, col: int) -> Option<Piece> {
    b[row * 9 + col]
}

impl View for Board {
    type V = Seq<Option<Piece>>;

    closed spec fn view(&self) -> Seq<Option<Piece>> {
        self.grid@
    }
}

impl Board {
    pub open spec fn wf(&self) -> bool {
        self@.len() == 90
    }

    /// The piece (if any) on a square.
    pub fn get(&self, p: Position) -> (r: Option<Piece>)
        requires
            self.wf(),
            pos_valid(p),
        ensures
            r == at(self@, p.row as int, p.col as int),
    {
        self.grid[p.row * 9 + p.col]
    }

    /// Put `v` on a square, replacing whatever was there.
    pub fn set(&mut self, p: Position, v: Option<Piece>)
        requires
            old(self).wf(),
            pos_valid(p),
        ensures
            final(self).wf(),
            final(self)@ == old(self)@.update(p.row * 9 + p.col, v),
    {
        self.grid.set(p.row * 9 + p.col, v);
    }

    /// A board made of the given 90 row-major cells.
    pub fn from_cells(cells: Vec<Option<Piece>>) -> (r: Board)
        requires
            cells@.len() == 90,
        ensures
            r.wf(),
            r@ == cells@,
    {
        Board { grid: cells }
    }

    /// The board of the standard opening position.
    pub fn initial() -> (r: Board)
        ensures
            r.wf(),
            r@ == initial_board(),
    {
        let mut grid: Vec<Option<Piece>> = Vec::new();
        let mut i: usize = 0;
        while i < 90
            invariant
                i <= 90,
                grid@.len() == i,
                forall|j: int| 0 <= j < i ==> grid@[j] == initial_square(j / 9, j % 9),
            decreases 90 - i,
        {
            grid.push(initial_square_exec(i / 9, i % 9));
            i = i + 1;
        }
        let r = Board { grid };
        assert(r@ =~= initial_board());
        r
    }

    /// A copy with the same contents.
    pub fn duplicate(&self) -> (r: Board)
        requires
            self.wf(),
        ensures
            r@ == self@,
    {
        let mut grid: Vec<Option<Piece>> = Vec::new();
        let mut i: usize = 0;
        while i < 90
            invariant
                i <= 90,
                self.wf(),
                grid@.len() == i,
                forall|j: int| 0 <= j < i ==> grid@[j] == self@[j],
            decreases 90 - i,
        {
            grid.push(self.grid[i]);
            i = i + 1;
        }
        let r = Board { grid };
        assert(r@ =~= self@);
        r
    }
}

/// The kind standing on column `col` of either back rank at the start.
pub open spec fn back_rank_kind(col: int) -> PieceKind {
    if col == 0 || col == 8 {
        PieceKind::Rook
    } else if col == 1 || col == 7 {
        PieceKind::Horse
    } else if col == 2 || col == 6 {
        PieceKind::Elephant
    } else if col == 3 || col == 5 {
        PieceKind::Advisor
    } else {
        PieceKind::General
    }
}

/// The contents of square `(row, col)` in the standard opening position.
pub open spec fn initial_square(row: int, col: int) -> Option<Piece> {
    if row == 0 {
        Some(Piece { color: PlayerColor::Red, kind: back_rank_kind(col) })
    } else if row == 2 && (col == 1 || col == 7) {
        Some(Piece { color: PlayerColor::Red, kind: PieceKind::Cannon })
    } else if row == 3 && col % 2 == 0 {
        Some(Piece { color: PlayerColor::Red, kind: PieceKind::Pawn })
    } else if row == 6 && col % 2 == 0 {
        Some(Piece { color: PlayerColor::Black, kind: PieceKind::Pawn })
    } else if row == 7 && (col == 1 || col == 7) {
        Some(Piece { color: PlayerColor::Black, kind: PieceKind::Cannon })
    } else if row == 9 {
        Some(Piece { color: PlayerColor::Black, kind: back_rank_kind(col) })
    } else {
        None
    }
}

/// The standard opening position as a row-major board sequence.
pub open spec fn initial_board() -> Seq<Option<Piece>> {
    Seq::new(90, |i: int| initial_square(i / 9, i % 9))
}

/// Row-major indexing sends `(row, col)` to `row * 9 + col` and back.
pub proof fn lemma_row_major(row: int, col: int)
    by (nonlinear_arith)
    requires
        0 <= row < 10,
        0 <= col < 9,
    ensures
        (row * 9 + col) / 9 == row,
        (row * 9 + col) % 9 == col,
{
}

fn initial_square_exec(row: usize, col: usize) -> (r: Option<Piece>)
    ensures
        r == initial_square(row as int, col as int),
{
    if row == 0 {
        Some(Piece { color: PlayerColor::Red, kind: back_rank_kind_exec(col) })
    } else if row == 2 && (col == 1 || col == 7) {
        Some(Piece { color: PlayerColor::Red, kind: PieceKind::Cannon })
    } else if row == 3 && col % 2 == 0 {
        Some(Piece { color: PlayerColor::Red, kind: PieceKind::Pawn })
    } else if row == 6 && col % 2 == 0 {
        Some(Piece { color: PlayerColor::Black, kind: PieceKind::Pawn })
    } else if row == 7 && (col == 1 || col == 7) {
        Some(Piece { color: PlayerColor::Black, kind: PieceKind::Cannon })
    } else if row == 9 {
        Some(Piece { color: PlayerColor::Black, kind: back_rank_kind_exec(col) })
    } else {
        None
    }
}

fn back_rank_kind_exec(col: usize) -> (r: PieceKind)
    ensures
        r == back_rank_kind(col as int),
{
    if col == 0 || col == 8 {
        PieceKind::Rook
    } else if col == 1 || col == 7 {
        PieceKind::Horse
    } else if col == 2 || col == 6 {
        PieceKind::Elephant
    } else if col == 3 || col == 5 {
        PieceKind::Advisor
    } else {
        PieceKind::General
    }
}

/// Why a move string could not be read as a pair of squares.
#[derive(Debug, Clone, Copy, PartialEq, Eq, Structural)]
pub enum MoveFormatError {
    /// The string is not exactly four characters long.
    WrongLength,
    /// The first character is not a column letter `a`..`i`.
    BadFromColumn,
    /// The second character is not a row digit `0`..`9`.
    BadFromRow,
    /// The third character is not a column letter `a`..`i`.
    BadToColumn,
    /// The fourth character is not a row digit `0`..`9`.
    BadToRow,
}

/// The board column named by a move-string letter, if any.
pub open spec fn col_of_char(c: char) -> Option<int> {
    if 'a' as int <= c as int && c as int <= 'i' as int {
        Some(c as int - 'a' as int)
    } else {
        None
    }
}

/// The board row named by a move-string digit, if any.
pub open spec fn row_of_char(c: char) -> Option<int> {
    if '0' as int <= c as int && c as int <= '9' as int {
        Some(c as int - '0' as int)
    } else {
        None
    }
}

/// How a four-character move string reads as a pair of squares.
pub open spec fn parse_move_spec(s: Seq<char>) -> Result<(Position, Position), MoveFormatError> {
    if s.len() != 4 {
        Err(MoveFormatError::WrongLength)
    } else if col_of_char(s[0]) is None {
        Err(MoveFormatError::BadFromColumn)
    } else if row_of_char(s[1]) is None {
        Err(MoveFormatError::BadFromRow)
    } else if col_of_char(s[2]) is None {
        Err(MoveFormatError::BadToColumn)
    } else if row_of_char(s[3]) is None {
        Err(MoveFormatError::BadToRow)
    } else {
        Ok(
            (
                Position {
                    row: row_of_char(s[1])->0 as usize,
                    col: col_of_char(s[0])->0 as usize,
                },
                Position {
                    row: row_of_char(s[3])->0 as usize,
                    col: col_of_char(s[2])->0 as usize,
                },
            ),
        )
    }
}

fn col_of_char_exec(c: char) -> (r: Option<usize>)
    ensures
        r == match col_of_char(c) {
            Some(v) => Some(v as usize),
            None => None::<usize>,
        },
        r is Some ==> r->0 < 9,
{
    let v = c as u32;
    if 'a' as u32 <= v && v <= 'i' as u32 {
        Some((v - 'a' as u32) as usize)
    } else {
        None
    }
}

fn row_of_char_exec(c: char) -> (r: Option<usize>)
    ensures
        r == match row_of_char(c) {
            Some(v) => Some(v as usize),
            None => None::<usize>,
        },
        r is Some ==> r->0 < 10,
{
    let v = c as u32;
    if '0' as u32 <= v && v <= '9' as u32 {
        Some((v - '0' as u32) as usize)
    } else {
        None
    }
}

/// Why a move was rejected: the string itself was malformed, or the move
/// it names is illegal in the current position.
#[derive(Debug, Clone, Copy, PartialEq, Eq, Structural)]
pub enum MoveError {
    Format(MoveFormatError),
    Illegal(crate::rules::IllegalMoveReason),
}

/// The board after relocating the piece on `from` to `to`: the destination
/// takes the moving piece (replacing any capture), the source empties.
pub open spec fn board_after(b: Seq<Option<Piece>>, from: Position, to: Position) -> Seq<
    Option<Piece>,
> {
    b.update(to.row * 9 + to.col, at(b, from.row as int, from.col as int)).update(
        from.row * 9 + from.col,
        None,
    )
}

/// What playing a move string against a position comes to: the two squares
/// and the Chinese notation of the move, or the first error in the fixed
/// order parse, legality.
pub open spec fn apply_outcome(
    b: Seq<Option<Piece>>,
    player: PlayerColor,
    s: Seq<char>,
) -> Result<(Position, Position, Seq<char>), MoveError> {
    match parse_move_spec(s) {
        Err(e) => Err(MoveError::Format(e)),
        Ok((from, to)) => match crate::rules::move_verdict(b, player, from, to) {
            Err(reason) => Err(MoveError::Illegal(reason)),
            Ok(()) => Ok((from, to, crate::notation::chinese_of(b, player, from, to))),
        },
    }
}

/// The game as it stands: the board, whose turn it is, the moves played so
/// far in Chinese notation, and a display-only flip flag.
#[derive(Debug, Clone)]
pub struct GameState {
    pub board: Board,
    pub current_player: PlayerColor,
    pub history: Vec<String>,
    pub flipped: bool,
}

impl GameState {
    pub open spec fn wf(&self) -> bool {
        self.board.wf()
    }

    /// The standard opening position, Red to move, no history.
    pub fn new() -> (r: Self)
        ensures
            r.wf(),
            r.board@ == initial_board(),
            r.current_player == PlayerColor::Red,
            r.history@.len() == 0,
            !r.flipped,
    {
        GameState {
            board: Board::initial(),
            current_player: PlayerColor::Red,
            history: Vec::new(),
            flipped: false,
        }
    }

    /// Back to the standard opening position.
    pub fn reset(&mut self)
        ensures
            final(self).wf(),
            final(self).board@ == initial_board(),
            final(self).current_player == PlayerColor::Red,
            final(self).history@.len() == 0,
            !final(self).flipped,
    {
        *self = Self::new();
    }

    /// Play the move named by a four-character string such as `h2e2`.
    ///
    /// On success the moving piece lands on the destination square
    /// (capturing whatever stood there), the source square becomes empty,
    /// the Chinese notation of the move — rendered against the position
    /// before the move — is appended to the history, and the turn passes
    /// to the opponent. On failure the state is left exactly as it was,
    /// and the error says which check failed; in particular the turn
    /// never changes on failure.
    pub fn apply_move(&mut self, move_str: &str) -> (r: Result<(), MoveError>)
        requires
            old(self).wf(),
        ensures
            final(self).wf(),
            final(self).flipped == old(self).flipped,
            match r {
                Ok(()) => ({
                    let oc = apply_outcome(old(self).board@, old(self).current_player, move_str@);
                    &&& oc is Ok
                    &&& final(self).board@ == board_after(
                        old(self).board@,
                        oc->Ok_0.0,
                        oc->Ok_0.1,
                    )
                    &&& final(self).current_player == old(self).current_player.opponent_spec()
                    &&& final(self).history@.len() == old(self).history@.len() + 1
                    &&& final(self).history@.subrange(0, old(self).history@.len() as int) == old(
                        self,
                    ).history@
                    &&& final(self).history@.last()@ == oc->Ok_0.2
                }),
                Err(e) => ({
                    &&& apply_outcome(old(self).board@, old(self).current_player, move_str@)
                        == Err::<(Position, Position, Seq<char>), MoveError>(e)
                    &&& *final(self) == *old(self)
                }),
            },
    {
        let (from, to) = match Self::parse_move(move_str) {
            Ok(p) => p,
            Err(e) => {
                return Err(MoveError::Format(e));
            },
        };
        match self.is_valid_move(from, to) {
            Ok(()) => {},
            Err(reason) => {
                return Err(MoveError::Illegal(reason));
            },
        }
        let zh = match self.move_to_chinese(move_str) {
            Ok(s) => s,
            Err(e) => {
                // A validated move always renders: its source square holds
                // the moving piece.
                proof {
                    assert(false);
                }
                return Err(e);
            },
        };
        let ghost old_history = self.history@;
        self.history.push(zh);
        let piece = self.board.get(from);
        self.board.set(to, piece);
        self.board.set(from, None);
        self.current_player = self.current_player.opponent();
        proof {
            assert(self.history@.subrange(0, old_history.len() as int) =~= old_history);
        }
        Ok(())
    }

    /// Read a move string such as `h2e2` into a pair of squares. Both
    /// squares of a successfully parsed move lie on the board.
    pub fn parse_move(move_str: &str) -> (r: Result<(Position, Position), MoveFormatError>)
        ensures
            r == parse_move_spec(move_str@),
            r matches Ok(p) ==> pos_valid(p.0) && pos_valid(p.1),
    {
        if move_str.unicode_len() != 4 {
            return Err(MoveFormatError::WrongLength);
        }
        let from_col = match col_of_char_exec(move_str.get_char(0)) {
            Some(v) => v,
            None => {
                return Err(MoveFormatError::BadFromColumn);
            },
        };
        let from_row = match row_of_char_exec(move_str.get_char(1)) {
            Some(v) => v,
            None => {
                return Err(MoveFormatError::BadFromRow);
            },
        };
        let to_col = match col_of_char_exec(move_str.get_char(2)) {
            Some(v) => v,
            None => {
                return Err(MoveFormatError::BadToColumn);
            },
        };
        let to_row = match row_of_char_exec(move_str.get_char(3)) {
            Some(v) => v,
            None => {
                return Err(MoveFormatError::BadToRow);
            },
        };
        Ok((Position { row: from_row, col: from_col }, Position { row: to_row, col: to_col }))
    }
}

impl Default for GameState {
    /// The standard opening position, as `GameState::new` gives it.
    fn default() -> (r: Self)
        ensures
            r.wf(),
            r.board@ == initial_board(),
            r.current_player == PlayerColor::Red,
            r.history@.len() == 0,
            !r.flipped,
    {
        Self::new()
    }
}

} // verus!
