//! Pieces: identity, type and color.

use vstd::prelude::*;

verus! {

/// The two sides of a game.
#[derive(Debug, Clone, Copy, PartialEq, Eq, PartialOrd, Ord, Hash, Structural)]
pub enum Color {
    Black,
    White,
}

/// The six kinds of chess piece.
#[derive(Debug, Clone, Copy, PartialEq, Eq, PartialOrd, Ord, Hash, Structural)]
pub enum PieceType {
    Pawn,
    Knight,
    Bishop,
    Rook,
    Queen,
    King,
}

/// A piece: an identity that stays with it as it moves, a type and a color.
#[derive(Debug, Clone, Copy, PartialEq, Eq, Structural)]
pub struct Piece {
    pub id: u64,
    pub ty: PieceType,
    pub color: Color,
}

/// Draws an identity for a piece that is built away from any board, by a call
/// of `rand::random::<u64>`. Nothing is claimed of the value drawn: two calls
/// may or may not agree. A board gives the pieces it places identities of its
/// own counter, so uniqueness on a board never rests on this value. The
/// thread's generator panics where the system cannot seed it; no argument
/// of the caller bears on that.
#[verifier::external_body]
fn fresh_identity() -> (id: u64) {
    rand::random::<u64>()
}

impl Color {
    /// The other side.
    pub open spec fn other(self) -> Color {
        match self {
            Color::Black => Color::White,
            Color::White => Color::Black,
        }
    }

    /// The other side.
    pub fn opposite(self) -> (r: Color)
        ensures
            r == self.other(),
    {
        match self {
            Color::Black => Color::White,
            Color::White => Color::Black,
        }
    }

    /// The direction in which this side's pawns advance: +1 rank for White,
    /// -1 for Black.
    pub open spec fn forward(self) -> int {
        match self {
            Color::White => 1,
            Color::Black => -1,
        }
    }
}

impl Piece {
    /// A piece of the given type and color, with a freshly drawn identity.
    pub fn new(ty: PieceType, color: Color) -> (p: Self)
        ensures
            p.ty == ty,
            p.color == color,
    {
        let id: u64 = fresh_identity();
        Self { id, ty, color }
    }

    /// A piece of the given type and color that carries the identity `id`.
    pub fn with_id(id: u64, ty: PieceType, color: Color) -> (p: Self)
        ensures
            p == (Piece { id, ty, color }),
    {
        Self { id, ty, color }
    }

    /// A pawn of the given color, with a freshly drawn identity.
    pub fn pawn(color: Color) -> (p: Self)
        ensures
            p.ty == PieceType::Pawn,
            p.color == color,
    {
        Self::new(PieceType::Pawn, color)
    }

    /// A rook of the given color, with a freshly drawn identity.
    pub fn rook(color: Color) -> (p: Self)
        ensures
            p.ty == PieceType::Rook,
            p.color == color,
    {
        Self::new(PieceType::Rook, color)
    }

    /// A bishop of the given color, with a freshly drawn identity.
    pub fn bishop(color: Color) -> (p: Self)
        ensures
            p.ty == PieceType::Bishop,
            p.color == color,
    {
        Self::new(PieceType::Bishop, color)
    }

    /// A knight of the given color, with a freshly drawn identity.
    pub fn knight(color: Color) -> (p: Self)
        ensures
            p.ty == PieceType::Knight,
            p.color == color,
    {
        Self::new(PieceType::Knight, color)
    }

    /// A queen of the given color, with a freshly drawn identity.
    pub fn queen(color: Color) -> (p: Self)
        ensures
            p.ty == PieceType::Queen,
            p.color == color,
    {
        Self::new(PieceType::Queen, color)
    }

    /// A king of the given color, with a freshly drawn identity.
    pub fn king(color: Color) -> (p: Self)
        ensures
            p.ty == PieceType::King,
            p.color == color,
    {
        Self::new(PieceType::King, color)
    }

    /// The piece's color.
    pub fn color(&self) -> (c: Color)
        ensures
            c == self.color,
    {
        self.color
    }

    /// The piece's type.
    pub fn ty(&self) -> (t: PieceType)
        ensures
            t == self.ty,
    {
        self.ty
    }

    /// The letter by which a piece of this type is shown.
    pub fn symbol(&self) -> (c: char)
        ensures
            c == match self.ty {
                PieceType::Pawn => '*',
                PieceType::Knight => 'N',
                PieceType::Bishop => 'B',
                PieceType::Rook => 'R',
                PieceType::Queen => 'Q',
                PieceType::King => 'K',
            },
    {
        match self.ty {
            PieceType::Pawn => '*',
            PieceType::Knight => 'N',
            PieceType::Bishop => 'B',
            PieceType::Rook => 'R',
            PieceType::Queen => 'Q',
            PieceType::King => 'K',
        }
    }

    /// The same piece with its type replaced, as on promotion.
    pub open spec fn retyped(self, ty: PieceType) -> Piece {
        Piece { id: self.id, ty, color: self.color }
    }
}

} // verus!
