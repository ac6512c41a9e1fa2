//! Attack detection: which squares a side bears on, and whether a king
//! stands in check.

use vstd::prelude::*;
use crate::board::Board;
use crate::piece::{Color, Piece, PieceType};
use crate::position::{on_board, Position};
use crate::square::Square;

verus! {

/// Whether `o` is a piece of the given color and type.
pub open spec fn is_piece(o: Option<Piece>, color: Color, ty: PieceType) -> bool {
    o is Some && o->0.color == color && o->0.ty == ty
}

/// Whether rank `r`, file `c` is a square of the board that holds a piece of
/// the given color and type.
pub open spec fn holds_at(p: Position, r: int, c: int, color: Color, ty: PieceType) -> bool {
    on_board(r, c) && is_piece(p.at(r, c), color, ty)
}

/// The first piece met on the way from rank `r`, file `c` in steps of
/// (`dr`, `dc`), the start excluded, within `fuel` steps; none where the way
/// leaves the board first.
pub open spec fn first_seen(p: Position, r: int, c: int, dr: int, dc: int, fuel: nat) -> Option<
    Piece,
>
    decreases fuel,
{
    if fuel == 0 || !on_board(r + dr, c + dc) {
        None
    } else if p.at(r + dr, c + dc) is Some {
        p.at(r + dr, c + dc)
    } else {
        first_seen(p, r + dr, c + dc, dr, dc, (fuel - 1) as nat)
    }
}

/// Whether a knight of `by` stands a knight's move away.
pub open spec fn knight_attacks(p: Position, r: int, c: int, by: Color) -> bool {
    ||| holds_at(p, r + 1, c + 2, by, PieceType::Knight)
    ||| holds_at(p, r + 2, c + 1, by, PieceType::Knight)
    ||| holds_at(p, r + 2, c - 1, by, PieceType::Knight)
    ||| holds_at(p, r + 1, c - 2, by, PieceType::Knight)
    ||| holds_at(p, r - 1, c - 2, by, PieceType::Knight)
    ||| holds_at(p, r - 2, c - 1, by, PieceType::Knight)
    ||| holds_at(p, r - 2, c + 1, by, PieceType::Knight)
    ||| holds_at(p, r - 1, c + 2, by, PieceType::Knight)
}

/// Whether the king of `by` stands next to the square.
pub open spec fn king_attacks(p: Position, r: int, c: int, by: Color) -> bool {
    ||| holds_at(p, r + 1, c, by, PieceType::King)
    ||| holds_at(p, r + 1, c + 1, by, PieceType::King)
    ||| holds_at(p, r, c + 1, by, PieceType::King)
    ||| holds_at(p, r - 1, c + 1, by, PieceType::King)
    ||| holds_at(p, r - 1, c, by, PieceType::King)
    ||| holds_at(p, r - 1, c - 1, by, PieceType::King)
    ||| holds_at(p, r, c - 1, by, PieceType::King)
    ||| holds_at(p, r + 1, c - 1, by, PieceType::King)
}

/// Whether a pawn of `by` stands one rank behind the square, as that side
/// advances, on a neighbouring file. What stands on the square itself does
/// not matter.
pub open spec fn pawn_attacks(p: Position, r: int, c: int, by: Color) -> bool {
    ||| holds_at(p, r - by.forward(), c - 1, by, PieceType::Pawn)
    ||| holds_at(p, r - by.forward(), c + 1, by, PieceType::Pawn)
}

/// Whether the first piece met from the square in direction (`dr`, `dc`) is
/// a queen of `by`, or its piece for that sort of line.
pub open spec fn line_attacks(
    p: Position,
    r: int,
    c: int,
    by: Color,
    dr: int,
    dc: int,
    slider: PieceType,
) -> bool {
    let seen = first_seen(p, r, c, dr, dc, 7);
    is_piece(seen, by, PieceType::Queen) || is_piece(seen, by, slider)
}

/// Whether a rook, bishop or queen of `by` bears on the square along an
/// open line.
pub open spec fn slider_attacks(p: Position, r: int, c: int, by: Color) -> bool {
    ||| line_attacks(p, r, c, by, 1, 0, PieceType::Rook)
    ||| line_attacks(p, r, c, by, -1, 0, PieceType::Rook)
    ||| line_attacks(p, r, c, by, 0, 1, PieceType::Rook)
    ||| line_attacks(p, r, c, by, 0, -1, PieceType::Rook)
    ||| line_attacks(p, r, c, by, 1, 1, PieceType::Bishop)
    ||| line_attacks(p, r, c, by, 1, -1, PieceType::Bishop)
    ||| line_attacks(p, r, c, by, -1, 1, PieceType::Bishop)
    ||| line_attacks(p, r, c, by, -1, -1, PieceType::Bishop)
}

/// Whether some piece of `by` attacks the square at rank `r`, file `c`.
pub open spec fn attacked(p: Position, r: int, c: int, by: Color) -> bool {
    ||| knight_attacks(p, r, c, by)
    ||| king_attacks(p, r, c, by)
    ||| pawn_attacks(p, r, c, by)
    ||| slider_attacks(p, r, c, by)
}

/// Whether cell `i` holds a king of `color` that the other side attacks.
pub open spec fn king_attacked_at(p: Position, i: int, color: Color) -> bool {
    is_piece(p.cells[i], color, PieceType::King) && attacked(p, i / 8, i % 8, color.other())
}

/// Whether a king of `color` is attacked by the other side.
pub open spec fn in_check(p: Position, color: Color) -> bool {
    exists|i: int| 0 <= i < 64 && king_attacked_at(p, i, color)
}

impl Board {
    /// Whether the square `dr` ranks and `dc` files from rank `row`, file
    /// `col` is on the board and holds a piece of the given color and type.
    fn holds_piece(&self, row: usize, col: usize, dr: isize, dc: isize, color: Color, ty: PieceType) -> (b:
        bool)
        requires
            self.wf(),
            row < 8,
            col < 8,
            -2 <= dr <= 2,
            -2 <= dc <= 2,
        ensures
            b == holds_at(self@, row + dr, col + dc, color, ty),
    {
        let r: isize = row as isize + dr;
        let c: isize = col as isize + dc;
        if r < 0 || r >= 8 || c < 0 || c >= 8 {
            return false;
        }
        match self.cells[(r as usize) * 8 + (c as usize)].piece {
            Some(piece) => piece.color == color && piece.ty == ty,
            None => false,
        }
    }

    /// The first piece met from rank `row`, file `col` in direction
    /// (`dr`, `dc`).
    fn first_piece(&self, row: usize, col: usize, dr: isize, dc: isize) -> (seen: Option<Piece>)
        requires
            self.wf(),
            row < 8,
            col < 8,
            -1 <= dr <= 1,
            -1 <= dc <= 1,
        ensures
            seen == first_seen(self@, row as int, col as int, dr as int, dc as int, 7),
    {
        let mut r: isize = row as isize;
        let mut c: isize = col as isize;
        let mut fuel: usize = 7;
        while fuel > 0
            invariant
                self.wf(),
                0 <= r < 8,
                0 <= c < 8,
                -1 <= dr <= 1,
                -1 <= dc <= 1,
                fuel <= 7,
                first_seen(self@, r as int, c as int, dr as int, dc as int, fuel as nat)
                    == first_seen(self@, row as int, col as int, dr as int, dc as int, 7),
            decreases fuel,
        {
            let nr: isize = r + dr;
            let nc: isize = c + dc;
            if nr < 0 || nr >= 8 || nc < 0 || nc >= 8 {
                return None;
            }
            let seen = self.cells[(nr as usize) * 8 + (nc as usize)].piece;
            if seen.is_some() {
                return seen;
            }
            r = nr;
            c = nc;
            fuel -= 1;
        }
        None
    }

    /// Whether the first piece met along (`dr`, `dc`) is a queen of `by` or its `slider`.
    fn line_attacked(&self, row: usize, col: usize, by: Color, dr: isize, dc: isize, slider: PieceType) -> (b:
        bool)
        requires
            self.wf(),
            row < 8,
            col < 8,
            -1 <= dr <= 1,
            -1 <= dc <= 1,
        ensures
            b == line_attacks(self@, row as int, col as int, by, dr as int, dc as int, slider),
    {
        match self.first_piece(row, col, dr, dc) {
            Some(piece) => piece.color == by && (piece.ty == PieceType::Queen || piece.ty
                == slider),
            None => false,
        }
    }

    /// Whether some piece of `by` attacks rank `row`, file `col`, both
    /// counted from 0.
    pub(crate) fn attacked_at(&self, row: usize, col: usize, by: Color) -> (b: bool)
        requires
            self.wf(),
            row < 8,
            col < 8,
        ensures
            b == attacked(self@, row as int, col as int, by),
    {
        let n = PieceType::Knight;
        let k = PieceType::King;
        let knights = self.holds_piece(row, col, 1, 2, by, n) || self.holds_piece(row, col, 2, 1, by, n)
            || self.holds_piece(row, col, 2, -1, by, n) || self.holds_piece(row, col, 1, -2, by, n)
            || self.holds_piece(row, col, -1, -2, by, n) || self.holds_piece(row, col, -2, -1, by, n)
            || self.holds_piece(row, col, -2, 1, by, n) || self.holds_piece(row, col, -1, 2, by, n);
        let kings = self.holds_piece(row, col, 1, 0, by, k) || self.holds_piece(row, col, 1, 1, by, k)
            || self.holds_piece(row, col, 0, 1, by, k) || self.holds_piece(row, col, -1, 1, by, k)
            || self.holds_piece(row, col, -1, 0, by, k) || self.holds_piece(row, col, -1, -1, by, k)
            || self.holds_piece(row, col, 0, -1, by, k) || self.holds_piece(row, col, 1, -1, by, k);
        let back: isize = match by {
            Color::White => -1,
            Color::Black => 1,
        };
        let pawns = self.holds_piece(row, col, back, -1, by, PieceType::Pawn) || self.holds_piece(
            row,
            col,
            back,
            1,
            by,
            PieceType::Pawn,
        );
        let r = PieceType::Rook;
        let b = PieceType::Bishop;
        let sliders = self.line_attacked(row, col, by, 1, 0, r) || self.line_attacked(row, col, by, -1, 0, r)
            || self.line_attacked(row, col, by, 0, 1, r) || self.line_attacked(row, col, by, 0, -1, r)
            || self.line_attacked(row, col, by, 1, 1, b) || self.line_attacked(row, col, by, 1, -1, b)
            || self.line_attacked(row, col, by, -1, 1, b) || self.line_attacked(row, col, by, -1, -1, b);
        knights || kings || pawns || sliders
    }

    /// Whether some piece of `by_color` attacks `square`. Only the place of
    /// `square` counts, not the occupant it records.
    pub fn is_attacked(&self, square: &Square, by_color: Color) -> (b: bool)
        requires
            self.wf(),
            square.wf(),
        ensures
            b == attacked(self@, square.row as int, square.col as int, by_color),
    {
        self.attacked_at(square.row, square.col, by_color)
    }

    /// Whether a king of `color` is attacked by the other side.
    pub fn in_check(&self, color: Color) -> (b: bool)
        requires
            self.wf(),
        ensures
            b == in_check(self@, color),
    {
        let by = color.opposite();
        let mut i: usize = 0;
        while i < 64
            invariant
                self.wf(),
                0 <= i <= 64,
                by == color.other(),
                forall|j: int| 0 <= j < i ==> !king_attacked_at(self@, j, color),
            decreases 64 - i,
        {
            if let Some(piece) = self.cells[i].piece {
                if piece.color == color && piece.ty == PieceType::King {
                    if self.attacked_at(i / 8, i % 8, by) {
                        assert(king_attacked_at(self@, i as int, color));
                        return true;
                    }
                }
            }
            i += 1;
        }
        false
    }
}

} // verus!
