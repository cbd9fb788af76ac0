//! Per-piece move legality: the palace, the river, blocked legs and eyes,
//! rook paths and cannon screens, and the pawn's one-way march.

use vstd::prelude::*;
use crate::state::{at, pos_valid, Board, GameState, Piece, PieceKind, PlayerColor, Position};

verus! {

/// One reason a move is illegal; the checks run in a fixed order and the
/// first failing check names the reason.
#[derive(Debug, Clone, Copy, PartialEq, Eq, Structural)]
pub enum IllegalMoveReason {
    /// The source square is empty.
    NoPieceAtSource,
    /// The piece on the source square belongs to the opponent.
    NotCurrentPlayersPiece,
    /// The destination already holds one of the mover's own pieces.
    DestinationOccupied,
    /// The general may not leave its palace.
    GeneralOutsidePalace,
    /// The general moves exactly one step, horizontally or vertically.
    GeneralBadStep,
    /// The advisor may not leave its palace.
    AdvisorOutsidePalace,
    /// The advisor moves exactly one diagonal step.
    AdvisorBadStep,
    /// The elephant may not cross the river.
    ElephantAcrossRiver,
    /// The elephant moves exactly two diagonal steps.
    ElephantBadStep,
    /// The elephant's eye (the midpoint square) is occupied.
    ElephantEyeBlocked,
    /// The horse moves two steps along one axis and one along the other.
    HorseBadStep,
    /// The horse's leg (the square adjacent along the long axis) is occupied.
    HorseLegBlocked,
    /// The rook moves horizontally or vertically.
    RookNotStraight,
    /// A piece stands strictly between the rook and its destination.
    RookPathBlocked,
    /// The cannon moves horizontally or vertically.
    CannonNotStraight,
    /// A capturing cannon needs exactly one screen; none was found.
    CannonMissingScreen,
    /// A capturing cannon needs exactly one screen; more were found.
    CannonTooManyScreens,
    /// A non-capturing cannon moves like a rook on a clear path.
    CannonPathBlocked,
    /// Before crossing the river a pawn moves one step straight forward.
    PawnBeforeRiverStep,
    /// After crossing, a pawn moves one step forward or sideways.
    PawnAfterRiverStep,
}

/// Absolute value.
pub open spec fn abs(i: int) -> int {
    if i < 0 {
        -i
    } else {
        i
    }
}

/// Whether square `(row, col)` holds a piece.
pub open spec fn occ(b: Seq<Option<Piece>>, row: int, col: int) -> bool {
    at(b, row, col) is Some
}

/// Whether `p` lies inside `color`'s palace: columns 3..=5, rows 0..=2 for
/// Red and rows 7..=9 for Black.
pub open spec fn in_palace(color: PlayerColor, p: Position) -> bool {
    &&& 3 <= p.col <= 5
    &&& match color {
        PlayerColor::Red => p.row <= 2,
        PlayerColor::Black => p.row >= 7,
    }
}

/// How many of the squares `(row, c)` with `lo < c < hi` are occupied.
pub open spec fn count_row(b: Seq<Option<Piece>>, row: int, lo: int, hi: int) -> nat
    decreases hi - lo,
{
    if hi - lo <= 1 {
        0
    } else {
        (if occ(b, row, hi - 1) {
            1nat
        } else {
            0nat
        }) + count_row(b, row, lo, hi - 1)
    }
}

/// How many of the squares `(r, col)` with `lo < r < hi` are occupied.
pub open spec fn count_col(b: Seq<Option<Piece>>, col: int, lo: int, hi: int) -> nat
    decreases hi - lo,
{
    if hi - lo <= 1 {
        0
    } else {
        (if occ(b, hi - 1, col) {
            1nat
        } else {
            0nat
        }) + count_col(b, col, lo, hi - 1)
    }
}

/// The smaller of two ints.
pub open spec fn min_int(a: int, b: int) -> int {
    if a < b {
        a
    } else {
        b
    }
}

/// The larger of two ints.
pub open spec fn max_int(a: int, b: int) -> int {
    if a < b {
        b
    } else {
        a
    }
}

/// For `from` and `to` on one row or one column: how many pieces stand
/// strictly between them.
pub open spec fn between_count(b: Seq<Option<Piece>>, from: Position, to: Position) -> nat {
    if from.row == to.row {
        count_row(b, from.row as int, min_int(from.col as int, to.col as int), max_int(from.col as int, to.col as int))
    } else {
        count_col(b, from.col as int, min_int(from.row as int, to.row as int), max_int(from.row as int, to.row as int))
    }
}

/// The general: stay in the own palace, move one step straight.
pub open spec fn general_verdict(player: PlayerColor, from: Position, to: Position) -> Result<
    (),
    IllegalMoveReason,
> {
    let dr = abs(from.row - to.row);
    let dc = abs(from.col - to.col);
    if !in_palace(player, to) {
        Err(IllegalMoveReason::GeneralOutsidePalace)
    } else if (from.row != to.row && from.col != to.col) || (from.row == to.row && dc > 1) || (
    from.col == to.col && dr > 1) {
        Err(IllegalMoveReason::GeneralBadStep)
    } else {
        Ok(())
    }
}

/// The advisor: stay in the own palace, move one diagonal step.
pub open spec fn advisor_verdict(player: PlayerColor, from: Position, to: Position) -> Result<
    (),
    IllegalMoveReason,
> {
    let dr = abs(from.row - to.row);
    let dc = abs(from.col - to.col);
    if !in_palace(player, to) {
        Err(IllegalMoveReason::AdvisorOutsidePalace)
    } else if dr != 1 || dc != 1 {
        Err(IllegalMoveReason::AdvisorBadStep)
    } else {
        Ok(())
    }
}

/// The elephant: stay on the own side of the river, move two diagonal
/// steps, with the midpoint (its eye) empty.
pub open spec fn elephant_verdict(
    b: Seq<Option<Piece>>,
    player: PlayerColor,
    from: Position,
    to: Position,
) -> Result<(), IllegalMoveReason> {
    let dr = abs(from.row - to.row);
    let dc = abs(from.col - to.col);
    let crosses = match player {
        PlayerColor::Red => to.row > 4,
        PlayerColor::Black => to.row < 5,
    };
    if crosses {
        Err(IllegalMoveReason::ElephantAcrossRiver)
    } else if dr != 2 || dc != 2 {
        Err(IllegalMoveReason::ElephantBadStep)
    } else if occ(b, (from.row + to.row) as int / 2, (from.col + to.col) as int / 2) {
        Err(IllegalMoveReason::ElephantEyeBlocked)
    } else {
        Ok(())
    }
}

/// The horse: an L-shaped step whose leg square must be empty.
pub open spec fn horse_verdict(b: Seq<Option<Piece>>, from: Position, to: Position) -> Result<
    (),
    IllegalMoveReason,
> {
    let dr = abs(from.row - to.row);
    let dc = abs(from.col - to.col);
    if !(dr == 2 && dc == 1) && !(dr == 1 && dc == 2) {
        Err(IllegalMoveReason::HorseBadStep)
    } else {
        let leg_row = if dr == 2 {
            (from.row + to.row) as int / 2
        } else {
            from.row as int
        };
        let leg_col = if dc == 2 {
            (from.col + to.col) as int / 2
        } else {
            from.col as int
        };
        if occ(b, leg_row, leg_col) {
            Err(IllegalMoveReason::HorseLegBlocked)
        } else {
            Ok(())
        }
    }
}

/// The rook: straight moves over an empty path.
pub open spec fn rook_verdict(b: Seq<Option<Piece>>, from: Position, to: Position) -> Result<
    (),
    IllegalMoveReason,
> {
    if from.row != to.row && from.col != to.col {
        Err(IllegalMoveReason::RookNotStraight)
    } else if between_count(b, from, to) > 0 {
        Err(IllegalMoveReason::RookPathBlocked)
    } else {
        Ok(())
    }
}

/// The cannon: straight moves; a capture jumps exactly one screen, a quiet
/// move needs a clear path.
pub open spec fn cannon_verdict(b: Seq<Option<Piece>>, from: Position, to: Position) -> Result<
    (),
    IllegalMoveReason,
> {
    if from.row != to.row && from.col != to.col {
        Err(IllegalMoveReason::CannonNotStraight)
    } else {
        let screens = between_count(b, from, to);
        if occ(b, to.row as int, to.col as int) {
            if screens == 0 {
                Err(IllegalMoveReason::CannonMissingScreen)
            } else if screens > 1 {
                Err(IllegalMoveReason::CannonTooManyScreens)
            } else {
                Ok(())
            }
        } else {
            if screens > 0 {
                Err(IllegalMoveReason::CannonPathBlocked)
            } else {
                Ok(())
            }
        }
    }
}

/// The pawn: always forward; after crossing the river also sideways,
/// never backward.
pub open spec fn pawn_verdict(player: PlayerColor, from: Position, to: Position) -> Result<
    (),
    IllegalMoveReason,
> {
    let dc = abs(from.col - to.col);
    match player {
        PlayerColor::Red => {
            let forward = to.row == from.row + 1 && to.col == from.col;
            if from.row < 5 {
                if !forward {
                    Err(IllegalMoveReason::PawnBeforeRiverStep)
                } else {
                    Ok(())
                }
            } else {
                if !forward && !(to.row == from.row && dc == 1) {
                    Err(IllegalMoveReason::PawnAfterRiverStep)
                } else {
                    Ok(())
                }
            }
        },
        PlayerColor::Black => {
            let forward = to.row + 1 == from.row && to.col == from.col;
            if from.row > 4 {
                if !forward {
                    Err(IllegalMoveReason::PawnBeforeRiverStep)
                } else {
                    Ok(())
                }
            } else {
                if !forward && !(to.row == from.row && dc == 1) {
                    Err(IllegalMoveReason::PawnAfterRiverStep)
                } else {
                    Ok(())
                }
            }
        },
    }
}

/// The full verdict on moving from `from` to `to` with `player` to move:
/// `Ok(())` exactly when the move is legal, and otherwise the reason of
/// the first failing check.
pub open spec fn move_verdict(
    b: Seq<Option<Piece>>,
    player: PlayerColor,
    from: Position,
    to: Position,
) -> Result<(), IllegalMoveReason> {
    match at(b, from.row as int, from.col as int) {
        None => Err(IllegalMoveReason::NoPieceAtSource),
        Some(piece) => {
            if piece.color != player {
                Err(IllegalMoveReason::NotCurrentPlayersPiece)
            } else if at(b, to.row as int, to.col as int) matches Some(t) && t.color == player {
                Err(IllegalMoveReason::DestinationOccupied)
            } else {
                match piece.kind {
                    PieceKind::General => general_verdict(player, from, to),
                    PieceKind::Advisor => advisor_verdict(player, from, to),
                    PieceKind::Elephant => elephant_verdict(b, player, from, to),
                    PieceKind::Horse => horse_verdict(b, from, to),
                    PieceKind::Rook => rook_verdict(b, from, to),
                    PieceKind::Cannon => cannon_verdict(b, from, to),
                    PieceKind::Pawn => pawn_verdict(player, from, to),
                }
            }
        },
    }
}

/// A move is legal exactly when its verdict is `Ok`.
pub open spec fn legal(b: Seq<Option<Piece>>, player: PlayerColor, from: Position, to: Position) -> bool {
    move_verdict(b, player, from, to) is Ok
}

/// `|a - b|` over in-range coordinates, computed without underflow.
fn abs_diff(a: usize, b: usize) -> (r: usize)
    requires
        a < 100,
        b < 100,
    ensures
        r == abs(a - b),
{
    if a < b {
        b - a
    } else {
        a - b
    }
}

/// Count the occupied squares of `row` strictly between columns `lo` and `hi`.
fn count_row_exec(board: &Board, row: usize, lo: usize, hi: usize) -> (r: usize)
    requires
        board.wf(),
        row < 10,
        lo < 9,
        hi < 9,
        lo <= hi,
    ensures
        r == count_row(board@, row as int, lo as int, hi as int),
{
    let mut cnt: usize = 0;
    let mut c: usize = lo + 1;
    while c < hi
        invariant
            board.wf(),
            row < 10,
            lo < 9,
            hi < 9,
            lo + 1 <= c,
            c <= hi || c == lo + 1,
            cnt <= c,
            cnt == count_row(board@, row as int, lo as int, c as int),
        decreases hi - c,
    {
        if board.get(Position { row, col: c }).is_some() {
            cnt = cnt + 1;
        }
        c = c + 1;
    }
    cnt
}

/// Count the occupied squares of `col` strictly between rows `lo` and `hi`.
fn count_col_exec(board: &Board, col: usize, lo: usize, hi: usize) -> (r: usize)
    requires
        board.wf(),
        col < 9,
        lo < 10,
        hi < 10,
        lo <= hi,
    ensures
        r == count_col(board@, col as int, lo as int, hi as int),
{
    let mut cnt: usize = 0;
    let mut r_: usize = lo + 1;
    while r_ < hi
        invariant
            board.wf(),
            col < 9,
            lo < 10,
            hi < 10,
            lo + 1 <= r_,
            r_ <= hi || r_ == lo + 1,
            cnt <= r_,
            cnt == count_col(board@, col as int, lo as int, r_ as int),
        decreases hi - r_,
    {
        if board.get(Position { row: r_, col }).is_some() {
            cnt = cnt + 1;
        }
        r_ = r_ + 1;
    }
    cnt
}

/// The pieces strictly between two aligned squares.
fn between_count_exec(board: &Board, from: Position, to: Position) -> (r: usize)
    requires
        board.wf(),
        pos_valid(from),
        pos_valid(to),
        from.row == to.row || from.col == to.col,
    ensures
        r == between_count(board@, from, to),
{
    if from.row == to.row {
        let lo = if from.col < to.col {
            from.col
        } else {
            to.col
        };
        let hi = if from.col < to.col {
            to.col
        } else {
            from.col
        };
        count_row_exec(board, from.row, lo, hi)
    } else {
        let lo = if from.row < to.row {
            from.row
        } else {
            to.row
        };
        let hi = if from.row < to.row {
            to.row
        } else {
            from.row
        };
        count_col_exec(board, from.col, lo, hi)
    }
}

impl GameState {
    /// Judge a move without playing it. Returns `Ok(())` exactly when the
    /// move is legal for the side to move, and otherwise the reason of the
    /// first failing check, in the fixed order of `move_verdict`.
    pub fn is_valid_move(&self, from: Position, to: Position) -> (r: Result<
        (),
        IllegalMoveReason,
    >)
        requires
            self.wf(),
            pos_valid(from),
            pos_valid(to),
        ensures
            r == move_verdict(self.board@, self.current_player, from, to),
            r is Ok <==> legal(self.board@, self.current_player, from, to),
    {
        let piece = match self.board.get(from) {
            Some(p) => p,
            None => {
                return Err(IllegalMoveReason::NoPieceAtSource);
            },
        };
        if piece.color != self.current_player {
            return Err(IllegalMoveReason::NotCurrentPlayersPiece);
        }
        if let Some(target) = self.board.get(to) {
            if target.color == self.current_player {
                return Err(IllegalMoveReason::DestinationOccupied);
            }
        }
        match piece.kind {
            PieceKind::General => self.check_general(from, to),
            PieceKind::Advisor => self.check_advisor(from, to),
            PieceKind::Elephant => self.check_elephant(from, to),
            PieceKind::Horse => self.check_horse(from, to),
            PieceKind::Rook => self.check_rook(from, to),
            PieceKind::Cannon => self.check_cannon(from, to),
            PieceKind::Pawn => self.check_pawn(from, to),
        }
    }

    fn in_own_palace(&self, p: Position) -> (r: bool)
        ensures
            r == in_palace(self.current_player, p),
    {
        3 <= p.col && p.col <= 5 && match self.current_player {
            PlayerColor::Red => p.row <= 2,
            PlayerColor::Black => p.row >= 7,
        }
    }

    fn check_general(&self, from: Position, to: Position) -> (r: Result<(), IllegalMoveReason>)
        requires
            pos_valid(from),
            pos_valid(to),
        ensures
            r == general_verdict(self.current_player, from, to),
    {
        if !self.in_own_palace(to) {
            return Err(IllegalMoveReason::GeneralOutsidePalace);
        }
        let dr = abs_diff(from.row, to.row);
        let dc = abs_diff(from.col, to.col);
        if (from.row != to.row && from.col != to.col) || (from.row == to.row && dc > 1) || (
        from.col == to.col && dr > 1) {
            return Err(IllegalMoveReason::GeneralBadStep);
        }
        Ok(())
    }

    fn check_advisor(&self, from: Position, to: Position) -> (r: Result<(), IllegalMoveReason>)
        requires
            pos_valid(from),
            pos_valid(to),
        ensures
            r == advisor_verdict(self.current_player, from, to),
    {
        if !self.in_own_palace(to) {
            return Err(IllegalMoveReason::AdvisorOutsidePalace);
        }
        let dr = abs_diff(from.row, to.row);
        let dc = abs_diff(from.col, to.col);
        if dr != 1 || dc != 1 {
            return Err(IllegalMoveReason::AdvisorBadStep);
        }
        Ok(())
    }

    fn check_elephant(&self, from: Position, to: Position) -> (r: Result<(), IllegalMoveReason>)
        requires
            self.wf(),
            pos_valid(from),
            pos_valid(to),
        ensures
            r == elephant_verdict(self.board@, self.current_player, from, to),
    {
        let crosses = match self.current_player {
            PlayerColor::Red => to.row > 4,
            PlayerColor::Black => to.row < 5,
        };
        if crosses {
            return Err(IllegalMoveReason::ElephantAcrossRiver);
        }
        let dr = abs_diff(from.row, to.row);
        let dc = abs_diff(from.col, to.col);
        if dr != 2 || dc != 2 {
            return Err(IllegalMoveReason::ElephantBadStep);
        }
        let mid = Position { row: (from.row + to.row) / 2, col: (from.col + to.col) / 2 };
        if self.board.get(mid).is_some() {
            return Err(IllegalMoveReason::ElephantEyeBlocked);
        }
        Ok(())
    }

    fn check_horse(&self, from: Position, to: Position) -> (r: Result<(), IllegalMoveReason>)
        requires
            self.wf(),
            pos_valid(from),
            pos_valid(to),
        ensures
            r == horse_verdict(self.board@, from, to),
    {
        let dr = abs_diff(from.row, to.row);
        let dc = abs_diff(from.col, to.col);
        if !(dr == 2 && dc == 1) && !(dr == 1 && dc == 2) {
            return Err(IllegalMoveReason::HorseBadStep);
        }
        let leg_row = if dr == 2 {
            (from.row + to.row) / 2
        } else {
            from.row
        };
        let leg_col = if dc == 2 {
            (from.col + to.col) / 2
        } else {
            from.col
        };
        if self.board.get(Position { row: leg_row, col: leg_col }).is_some() {
            return Err(IllegalMoveReason::HorseLegBlocked);
        }
        Ok(())
    }

    fn check_rook(&self, from: Position, to: Position) -> (r: Result<(), IllegalMoveReason>)
        requires
            self.wf(),
            pos_valid(from),
            pos_valid(to),
        ensures
            r == rook_verdict(self.board@, from, to),
    {
        if from.row != to.row && from.col != to.col {
            return Err(IllegalMoveReason::RookNotStraight);
        }
        if between_count_exec(&self.board, from, to) > 0 {
            return Err(IllegalMoveReason::RookPathBlocked);
        }
        Ok(())
    }

    fn check_cannon(&self, from: Position, to: Position) -> (r: Result<(), IllegalMoveReason>)
        requires
            self.wf(),
            pos_valid(from),
            pos_valid(to),
        ensures
            r == cannon_verdict(self.board@, from, to),
    {
        if from.row != to.row && from.col != to.col {
            return Err(IllegalMoveReason::CannonNotStraight);
        }
        let screens = between_count_exec(&self.board, from, to);
        if self.board.get(to).is_some() {
            if screens == 0 {
                return Err(IllegalMoveReason::CannonMissingScreen);
            }
            if screens > 1 {
                return Err(IllegalMoveReason::CannonTooManyScreens);
            }
            Ok(())
        } else {
            if screens > 0 {
                return Err(IllegalMoveReason::CannonPathBlocked);
            }
            Ok(())
        }
    }

    fn check_pawn(&self, from: Position, to: Position) -> (r: Result<(), IllegalMoveReason>)
        requires
            pos_valid(from),
            pos_valid(to),
        ensures
            r == pawn_verdict(self.current_player, from, to),
    {
        let dc = abs_diff(from.col, to.col);
        match self.current_player {
            PlayerColor::Red => {
                let forward = to.row == from.row + 1 && to.col == from.col;
                if from.row < 5 {
                    if !forward {
                        return Err(IllegalMoveReason::PawnBeforeRiverStep);
                    }
                } else {
                    if !forward && !(to.row == from.row && dc == 1) {
                        return Err(IllegalMoveReason::PawnAfterRiverStep);
                    }
                }
            },
            PlayerColor::Black => {
                let forward = to.row + 1 == from.row && to.col == from.col;
                if from.row > 4 {
                    if !forward {
                        return Err(IllegalMoveReason::PawnBeforeRiverStep);
                    }
                } else {
                    if !forward && !(to.row == from.row && dc == 1) {
                        return Err(IllegalMoveReason::PawnAfterRiverStep);
                    }
                }
            },
        }
        Ok(())
    }
}

} // verus!
