//! The mathematical model of a position, and what applying a ply does to it.

use vstd::prelude::*;
use crate::piece::{Color, Piece, PieceType};
use crate::square::Square;
use crate::ply::{Ply, PlyKind};

verus! {

/// Which castling moves each side may still make.
#[derive(Debug, Clone, Copy, PartialEq, Eq, Structural)]
pub struct CastlingRights {
    pub white_kingside: bool,
    pub white_queenside: bool,
    pub black_kingside: bool,
    pub black_queenside: bool,
}

/// The state of the game after a ply, for the side that moves next.
#[derive(Debug, Clone, Copy, PartialEq, Eq, Structural)]
pub enum GameStatus {
    Normal,
    Check,
    Checkmate,
    Stalemate,
}

/// What a caller can do wrong.
#[derive(Debug, Clone, Copy, PartialEq, Eq, Structural)]
pub enum ChessError {
    /// A coordinate outside the board.
    OutOfRange,
    /// A ply that does not fit the board it is applied to.
    InvalidPly,
}

/// A position as a value: the 64 occupants rank by rank from White's side,
/// and the state that legality depends on.
pub struct Position {
    pub cells: Seq<Option<Piece>>,
    pub side: Color,
    pub rights: CastlingRights,
    pub en_passant: Option<(usize, usize)>,
    pub halfmove: u32,
    pub fullmove: u32,
}

/// Whether rank `r` and file `c` name a square of the board.
pub open spec fn on_board(r: int, c: int) -> bool {
    0 <= r < 8 && 0 <= c < 8
}

/// Whether an en-passant target, where there is one, lies on the board.
pub open spec fn target_on_board(target: Option<(usize, usize)>) -> bool {
    match target {
        Some((r, c)) => r < 8 && c < 8,
        None => true,
    }
}

/// The rank on which a side's pieces start.
pub open spec fn home_row(color: Color) -> int {
    match color {
        Color::White => 0,
        Color::Black => 7,
    }
}

/// The rank on which a side's pawns start.
pub open spec fn pawn_row(color: Color) -> int {
    match color {
        Color::White => 1,
        Color::Black => 6,
    }
}

/// The rank on which a side's pawns promote.
pub open spec fn last_row(color: Color) -> int {
    match color {
        Color::White => 7,
        Color::Black => 0,
    }
}

/// `n + 1`, or `n` where that would not fit.
pub open spec fn bump(n: u32) -> u32 {
    if n < u32::MAX {
        (n + 1) as u32
    } else {
        n
    }
}

impl CastlingRights {
    /// Whether `color` may still castle on the king's side.
    pub open spec fn kingside(self, color: Color) -> bool {
        match color {
            Color::White => self.white_kingside,
            Color::Black => self.black_kingside,
        }
    }

    /// Whether `color` may still castle on the queen's side.
    pub open spec fn queenside(self, color: Color) -> bool {
        match color {
            Color::White => self.white_queenside,
            Color::Black => self.black_queenside,
        }
    }

    /// The rights that are left once `piece` has left the square at rank `r`
    /// and file `c`, by moving or by being taken: a king gives up both of its
    /// side's rights, a rook on its own corner that corner's right.
    pub open spec fn without(self, piece: Option<Piece>, r: int, c: int) -> CastlingRights {
        match piece {
            None => self,
            Some(p) => {
                let king = p.ty == PieceType::King;
                let rook_home = p.ty == PieceType::Rook && r == home_row(p.color);
                let white = p.color == Color::White;
                CastlingRights {
                    white_kingside: self.white_kingside && !(white && (king || (rook_home && c
                        == 7))),
                    white_queenside: self.white_queenside && !(white && (king || (rook_home && c
                        == 0))),
                    black_kingside: self.black_kingside && !(!white && (king || (rook_home && c
                        == 7))),
                    black_queenside: self.black_queenside && !(!white && (king || (rook_home
                        && c == 0))),
                }
            },
        }
    }
}

impl Position {
    /// The model holds 64 cells and any en-passant target lies on the board.
    pub open spec fn wf(self) -> bool {
        &&& self.cells.len() == 64
        &&& target_on_board(self.en_passant)
    }

    /// No two pieces of the position share an identity.
    pub open spec fn distinct_ids(self) -> bool {
        forall|i: int, j: int|
            0 <= i < 64 && 0 <= j < 64 && i != j && self.cells[i] is Some && self.cells[j] is Some
                ==> self.cells[i]->0.id != self.cells[j]->0.id
    }

    /// Every piece of the position has an identity below `bound`.
    pub open spec fn ids_below(self, bound: u64) -> bool {
        forall|i: int|
            0 <= i < 64 && (#[trigger] self.cells[i]) is Some ==> self.cells[i]->0.id < bound
    }

    /// The occupant at rank `r`, file `c`.
    pub open spec fn at(self, r: int, c: int) -> Option<Piece> {
        self.cells[r * 8 + c]
    }

    /// The square at rank `r`, file `c`, with its occupant.
    pub open spec fn square(self, r: int, c: int) -> Square {
        Square { col: c as usize, row: r as usize, piece: self.at(r, c) }
    }

    /// The position with the occupant at rank `r`, file `c` replaced.
    pub open spec fn put(self, r: int, c: int, piece: Option<Piece>) -> Position {
        Position { cells: self.cells.update(r * 8 + c, piece), ..self }
    }

    /// Whether `ply` can be applied: both of its squares lie on the board and
    /// its origin is occupied here.
    pub open spec fn accepts(self, ply: Ply) -> bool {
        ply.on_board() && self.at(ply.from.row as int, ply.from.col as int) is Some
    }

    /// The cells after `ply`: the origin's occupant stands on the
    /// destination, as the promoted type where the ply promotes; an en-passant
    /// capture also empties the square beside the origin in the destination's
    /// file; castling also brings the rook from its corner to the king's
    /// other side.
    pub open spec fn moved(self, ply: Ply) -> Position {
        let fr = ply.from.row as int;
        let fc = ply.from.col as int;
        let tr = ply.to.row as int;
        let tc = ply.to.col as int;
        let mover = self.at(fr, fc)->0;
        let placed = match ply.kind {
            PlyKind::Promotion(ty) => mover.retyped(ty),
            _ => mover,
        };
        let base = self.put(fr, fc, None).put(tr, tc, Some(placed));
        match ply.kind {
            PlyKind::EnPassantCapture => base.put(fr, tc, None),
            PlyKind::CastleKingside => base.put(fr, 7, None).put(fr, 5, base.at(fr, 7)),
            PlyKind::CastleQueenside => base.put(fr, 0, None).put(fr, 3, base.at(fr, 0)),
            _ => base,
        }
    }

    /// Whether `ply` takes a piece or moves a pawn: what resets the halfmove
    /// clock.
    pub open spec fn resets_clock(self, ply: Ply) -> bool {
        ||| self.at(ply.from.row as int, ply.from.col as int)->0.ty == PieceType::Pawn
        ||| self.at(ply.to.row as int, ply.to.col as int) is Some
        ||| ply.kind == PlyKind::EnPassantCapture
    }

    /// The position after `ply`: the cells as `moved` gives them, the other
    /// side to move, the castling rights without those that the mover or a
    /// piece taken on the destination gave up, the skipped square as
    /// en-passant target after a double pawn push and none otherwise, the
    /// halfmove clock reset or advanced, and the move number advanced after
    /// Black's ply.
    pub open spec fn apply(self, ply: Ply) -> Position {
        let fr = ply.from.row as int;
        let fc = ply.from.col as int;
        let tr = ply.to.row as int;
        let tc = ply.to.col as int;
        Position {
            cells: self.moved(ply).cells,
            side: self.side.other(),
            rights: self.rights.without(self.at(fr, fc), fr, fc).without(self.at(tr, tc), tr, tc),
            en_passant: if ply.kind == PlyKind::DoublePawnPush {
                Some((((fr + tr) / 2) as usize, ply.from.col))
            } else {
                None
            },
            halfmove: if self.resets_clock(ply) {
                0
            } else {
                bump(self.halfmove)
            },
            fullmove: if self.side == Color::Black {
                bump(self.fullmove)
            } else {
                self.fullmove
            },
        }
    }
    /// The position from which `ply` led to this one, given the castling
    /// rights and the en-passant target that held before it, which a ply
    /// does not record. The moving piece returns to the origin as the ply
    /// recorded it, the piece taken returns to where it stood, a castled rook
    /// returns to its corner, and the other side is to move. The two counters
    /// stay as they are.
    pub open spec fn revert(
        self,
        ply: Ply,
        rights: CastlingRights,
        en_passant: Option<(usize, usize)>,
    ) -> Position {
        let fr = ply.from.row as int;
        let fc = ply.from.col as int;
        let tr = ply.to.row as int;
        let tc = ply.to.col as int;
        let left = match ply.kind {
            PlyKind::EnPassantCapture => None,
            _ => ply.captured,
        };
        let base = self.put(tr, tc, left).put(fr, fc, ply.from.piece);
        let cells = match ply.kind {
            PlyKind::EnPassantCapture => base.put(fr, tc, ply.captured),
            PlyKind::CastleKingside => base.put(fr, 5, None).put(fr, 7, self.at(fr, 5)),
            PlyKind::CastleQueenside => base.put(fr, 3, None).put(fr, 0, self.at(fr, 3)),
            _ => base,
        };
        Position {
            cells: cells.cells,
            side: self.side.other(),
            rights,
            en_passant,
            halfmove: self.halfmove,
            fullmove: self.fullmove,
        }
    }
}

} // verus!
