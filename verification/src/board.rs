//! The board: 64 squares and the state that legality depends on.

use vstd::prelude::*;
use crate::piece::{Color, Piece, PieceType};
use crate::ply::{Ply, PlyKind};
use crate::position::{on_board, target_on_board, CastlingRights, ChessError, Position};
use crate::square::Square;

verus! {

/// An 8x8 board with the side to move, the castling rights, the en-passant
/// target, the two move counters and the counter from which pieces placed on
/// it get their identities.
#[derive(Debug, Clone)]
pub struct Board {
    pub cells: Vec<Square>,
    pub side: Color,
    pub rights: CastlingRights,
    pub en_passant: Option<(usize, usize)>,
    pub halfmove: u32,
    pub fullmove: u32,
    pub next_id: u64,
}

/// The type of the piece that starts on file `c` of a side's home rank.
pub open spec fn home_type(c: int) -> PieceType {
    if c == 0 || c == 7 {
        PieceType::Rook
    } else if c == 1 || c == 6 {
        PieceType::Knight
    } else if c == 2 || c == 5 {
        PieceType::Bishop
    } else if c == 3 {
        PieceType::Queen
    } else {
        PieceType::King
    }
}

/// The occupant of cell `i` in the starting position. Identities count up
/// from 1 in the order of the cells.
pub open spec fn starting_cell(i: int) -> Option<Piece> {
    if 0 <= i < 8 {
        Some(Piece { id: (i + 1) as u64, ty: home_type(i), color: Color::White })
    } else if 8 <= i < 16 {
        Some(Piece { id: (i + 1) as u64, ty: PieceType::Pawn, color: Color::White })
    } else if 48 <= i < 56 {
        Some(Piece { id: (i - 31) as u64, ty: PieceType::Pawn, color: Color::Black })
    } else if 56 <= i < 64 {
        Some(Piece { id: (i - 31) as u64, ty: home_type(i - 56), color: Color::Black })
    } else {
        None
    }
}

/// The starting position: White to move, every castling right held, no
/// en-passant target, move number 1.
pub open spec fn starting_position() -> Position {
    Position {
        cells: Seq::new(64, |i: int| starting_cell(i)),
        side: Color::White,
        rights: CastlingRights {
            white_kingside: true,
            white_queenside: true,
            black_kingside: true,
            black_queenside: true,
        },
        en_passant: None,
        halfmove: 0,
        fullmove: 1,
    }
}

/// A position with no piece on it and no castling right, White to move.
pub open spec fn empty_position() -> Position {
    Position {
        cells: Seq::new(64, |i: int| None::<Piece>),
        side: Color::White,
        rights: CastlingRights {
            white_kingside: false,
            white_queenside: false,
            black_kingside: false,
            black_queenside: false,
        },
        en_passant: None,
        halfmove: 0,
        fullmove: 1,
    }
}

impl View for Board {
    type V = Position;

    open spec fn view(&self) -> Position {
        Position {
            cells: Seq::new(64, |i: int| self.cells@[i].piece),
            side: self.side,
            rights: self.rights,
            en_passant: self.en_passant,
            halfmove: self.halfmove,
            fullmove: self.fullmove,
        }
    }
}

impl Board {
    /// There are 64 squares, each knows its own place, and any en-passant
    /// target lies on the board.
    pub open spec fn wf(&self) -> bool {
        &&& self.cells@.len() == 64
        &&& forall|i: int|
            0 <= i < 64 ==> (#[trigger] self.cells@[i]).col < 8 && self.cells@[i].row * 8
                + self.cells@[i].col == i
        &&& target_on_board(self.en_passant)
    }

    /// Every piece on the board has an identity below the counter, and no
    /// two share one.
    pub open spec fn identities_ok(&self) -> bool {
        &&& self@.distinct_ids()
        &&& self@.ids_below(self.next_id)
    }

    /// The board set up for a new game.
    pub fn new() -> (b: Self)
        ensures
            b.wf(),
            b@ == starting_position(),
            b.next_id == 33,
            b.identities_ok(),
    {
        let mut b = Self::empty();
        b.rights = CastlingRights {
            white_kingside: true,
            white_queenside: true,
            black_kingside: true,
            black_queenside: true,
        };
        b.populate_piece_row(0, Color::White);
        b.populate_pawns_row(1, Color::White);
        b.populate_pawns_row(6, Color::Black);
        b.populate_piece_row(7, Color::Black);
        assert(b@.cells =~= starting_position().cells);
        b
    }

    /// A board with no piece on it.
    pub fn empty() -> (b: Self)
        ensures
            b.wf(),
            b@ == empty_position(),
            b.next_id == 1,
            b.identities_ok(),
    {
        let b = Board {
            cells: Self::construct_matrix(),
            side: Color::White,
            rights: CastlingRights {
                white_kingside: false,
                white_queenside: false,
                black_kingside: false,
                black_queenside: false,
            },
            en_passant: None,
            halfmove: 0,
            fullmove: 1,
            next_id: 1,
        };
        assert(b@.cells =~= empty_position().cells);
        b
    }

    /// The square at rank `row` and file `col`, both counted from 1. A
    /// coordinate below 1 or above 8 is refused.
    pub fn square(&self, row: usize, col: usize) -> (r: Result<&Square, ChessError>)
        requires
            self.wf(),
        ensures
            1 <= row <= 8 && 1 <= col <= 8 ==> r is Ok && *r->Ok_0 == self@.square(
                row - 1,
                col - 1,
            ),
            !(1 <= row <= 8 && 1 <= col <= 8) ==> r == Err::<&Square, ChessError>(
                ChessError::OutOfRange,
            ),
    {
        if 1 <= row && row <= 8 && 1 <= col && col <= 8 {
            Ok(&self.cells[(row - 1) * 8 + (col - 1)])
        } else {
            Err(ChessError::OutOfRange)
        }
    }

    /// The square at `file` and `rank`, both counted from 0. Coordinates
    /// beyond 7 are refused.
    pub fn try_square(&self, file: usize, rank: usize) -> (r: Result<&Square, ChessError>)
        requires
            self.wf(),
        ensures
            file < 8 && rank < 8 ==> r is Ok && *r->Ok_0 == self@.square(rank as int, file as int),
            !(file < 8 && rank < 8) ==> r == Err::<&Square, ChessError>(ChessError::OutOfRange),
    {
        if file < 8 && rank < 8 {
            Ok(&self.cells[rank * 8 + file])
        } else {
            Err(ChessError::OutOfRange)
        }
    }

    /// The occupant at `file` and `rank`, both counted from 0.
    pub fn occupant_at(&self, file: usize, rank: usize) -> (r: Result<Option<Piece>, ChessError>)
        requires
            self.wf(),
        ensures
            file < 8 && rank < 8 ==> r == Ok::<Option<Piece>, ChessError>(
                self@.at(rank as int, file as int),
            ),
            !(file < 8 && rank < 8) ==> r == Err::<Option<Piece>, ChessError>(
                ChessError::OutOfRange,
            ),
    {
        if file < 8 && rank < 8 {
            Ok(self.cells[rank * 8 + file].piece)
        } else {
            Err(ChessError::OutOfRange)
        }
    }

    /// Whether some square holds a piece with identity `id`.
    pub open spec fn holds(self, id: u64) -> bool {
        exists|i: int| 0 <= i < 64 && self.holds_at(i, id)
    }

    /// Whether cell `i` holds a piece with identity `id`.
    pub open spec fn holds_at(self, i: int, id: u64) -> bool {
        self.cells@[i].piece is Some && self.cells@[i].piece->0.id == id
    }

    /// The first square, rank by rank, whose occupant has identity
    /// `piece_id`; none where no occupant has it.
    pub fn piece(&self, piece_id: u64) -> (r: Option<&Square>)
        requires
            self.wf(),
        ensures
            r is Some <==> self.holds(piece_id),
            r is Some ==> {
                let s = *r->0;
                &&& s.wf()
                &&& s == self@.square(s.row as int, s.col as int)
                &&& self.holds_at(s.index(), piece_id)
                &&& forall|j: int| 0 <= j < s.index() ==> !self.holds_at(j, piece_id)
            },
    {
        let mut i: usize = 0;
        while i < 64
            invariant
                self.wf(),
                0 <= i <= 64,
                forall|j: int| 0 <= j < i ==> !self.holds_at(j, piece_id),
            decreases 64 - i,
        {
            let square = &self.cells[i];
            if let Some(piece) = square.piece {
                if piece.id == piece_id {
                    assert(self.holds_at(i as int, piece_id));
                    return Some(square);
                }
            }
            i += 1;
        }
        None
    }

    /// The square `row` ranks and `col` files away from `square`, or none
    /// where that lies off the board.
    pub fn get_relative_square(&self, square: &Square, row: isize, col: isize) -> (r: Option<
        &Square,
    >)
        requires
            self.wf(),
            square.wf(),
        ensures
            on_board(square.row + row, square.col + col) ==> r is Some && *r->0 == self@.square(
                square.row + row,
                square.col + col,
            ),
            !on_board(square.row + row, square.col + col) ==> r is None,
    {
        if row < -8 || row > 8 || col < -8 || col > 8 {
            return None;
        }
        let new_row: isize = square.row as isize + 1 + row;
        let new_col: isize = square.col as isize + 1 + col;
        if !Self::within_bounds(new_row) || !Self::within_bounds(new_col) {
            return None;
        }
        Some(&self.cells[(new_row as usize - 1) * 8 + (new_col as usize - 1)])
    }

    /// The side that moves next.
    pub fn side_to_move(&self) -> (c: Color)
        ensures
            c == self@.side,
    {
        self.side
    }

    /// The castling rights that are still held.
    pub fn castling_rights(&self) -> (r: CastlingRights)
        ensures
            r == self@.rights,
    {
        self.rights
    }

    /// The en-passant target as (file, rank), both counted from 0.
    pub fn en_passant_target(&self) -> (t: Option<(usize, usize)>)
        ensures
            t == match self@.en_passant {
                Some(rc) => Some((rc.1, rc.0)),
                None => None,
            },
    {
        match self.en_passant {
            Some(rc) => Some((rc.1, rc.0)),
            None => None,
        }
    }

    /// The plys since the last capture or pawn move.
    pub fn halfmove_clock(&self) -> (n: u32)
        ensures
            n == self@.halfmove,
    {
        self.halfmove
    }

    /// The number of the move, which advances after each of Black's plys.
    pub fn fullmove_number(&self) -> (n: u32)
        ensures
            n == self@.fullmove,
    {
        self.fullmove
    }

    /// Sets the side to move.
    pub fn set_side_to_move(&mut self, color: Color)
        ensures
            *final(self) == (Board { side: color, ..*old(self) }),
    {
        self.side = color;
    }

    /// Sets the castling rights.
    pub fn set_castling_rights(&mut self, rights: CastlingRights)
        ensures
            *final(self) == (Board { rights, ..*old(self) }),
    {
        self.rights = rights;
    }

    /// Puts a new piece of the given type and color on `file` and `rank`,
    /// both counted from 0, in place of what stood there, and returns the
    /// identity that the board gave it: the value of its counter, which then
    /// advances. Coordinates beyond 7 are refused and leave the board as it
    /// was.
    pub fn place(&mut self, file: usize, rank: usize, ty: PieceType, color: Color) -> (r: Result<
        u64,
        ChessError,
    >)
        requires
            old(self).wf(),
        ensures
            final(self).wf(),
            file < 8 && rank < 8 ==> r == Ok::<u64, ChessError>(old(self).next_id) && final(self)@
                == old(self)@.put(
                rank as int,
                file as int,
                Some(Piece { id: old(self).next_id, ty, color }),
            ) && final(self).next_id == if old(self).next_id < u64::MAX {
                (old(self).next_id + 1) as u64
            } else {
                old(self).next_id
            },
            !(file < 8 && rank < 8) ==> r == Err::<u64, ChessError>(ChessError::OutOfRange)
                && *final(self) == *old(self),
            old(self).identities_ok() && old(self).next_id < u64::MAX ==> final(self).identities_ok(),
    {
        if file < 8 && rank < 8 {
            let id: u64 = self.next_id;
            self.put(rank, file, Some(Piece { id, ty, color }));
            if self.next_id < u64::MAX {
                self.next_id = self.next_id + 1;
            }
            Ok(id)
        } else {
            Err(ChessError::OutOfRange)
        }
    }

    /// Replaces the occupant at rank `row`, file `col`, counted from 0.
    pub(crate) fn put(&mut self, row: usize, col: usize, piece: Option<Piece>)
        requires
            old(self).wf(),
            row < 8,
            col < 8,
        ensures
            final(self).wf(),
            final(self)@ == old(self)@.put(row as int, col as int, piece),
            final(self).next_id == old(self).next_id,
    {
        let idx: usize = row * 8 + col;
        self.cells.set(idx, Square { col, row, piece });
        assert(self@.cells =~= old(self)@.put(row as int, col as int, piece).cells);
    }

    /// Whether `ply` can be applied here: its squares lie on the board and
    /// its origin is occupied.
    pub fn accepts(&self, ply: &Ply) -> (b: bool)
        requires
            self.wf(),
        ensures
            b == self@.accepts(*ply),
    {
        ply.from.row < 8 && ply.from.col < 8 && ply.to.row < 8 && ply.to.col < 8
            && self.cells[ply.from.row * 8 + ply.from.col].piece.is_some()
    }

    /// Carries out `ply` on the board, without judging the position that
    /// results.
    pub(crate) fn relocate(&mut self, ply: &Ply)
        requires
            old(self).wf(),
            old(self)@.accepts(*ply),
        ensures
            final(self).wf(),
            final(self)@ == old(self)@.apply(*ply),
            final(self).next_id == old(self).next_id,
    {
        let fr: usize = ply.from.row;
        let fc: usize = ply.from.col;
        let tr: usize = ply.to.row;
        let tc: usize = ply.to.col;
        let origin = self.cells[fr * 8 + fc].piece;
        let target = self.cells[tr * 8 + tc].piece;
        let mover = origin.unwrap();
        let placed = match ply.kind {
            PlyKind::Promotion(ty) => Piece::with_id(mover.id, ty, mover.color),
            _ => mover,
        };
        let en_passant = match ply.kind {
            PlyKind::EnPassantCapture => true,
            _ => false,
        };
        let resets = mover.ty == PieceType::Pawn || target.is_some() || en_passant;
        let rights = Self::rights_without(
            Self::rights_without(self.rights, origin, fr, fc),
            target,
            tr,
            tc,
        );
        self.put(fr, fc, None);
        self.put(tr, tc, Some(placed));
        match ply.kind {
            PlyKind::EnPassantCapture => {
                self.put(fr, tc, None);
            },
            PlyKind::CastleKingside => {
                let rook = self.cells[fr * 8 + 7].piece;
                self.put(fr, 7, None);
                self.put(fr, 5, rook);
            },
            PlyKind::CastleQueenside => {
                let rook = self.cells[fr * 8].piece;
                self.put(fr, 0, None);
                self.put(fr, 3, rook);
            },
            _ => {},
        }
        self.rights = rights;
        self.en_passant = match ply.kind {
            PlyKind::DoublePawnPush => Some(((fr + tr) / 2, fc)),
            _ => None,
        };
        self.halfmove = if resets {
            0
        } else if self.halfmove < u32::MAX {
            self.halfmove + 1
        } else {
            self.halfmove
        };
        if self.side == Color::Black && self.fullmove < u32::MAX {
            self.fullmove = self.fullmove + 1;
        }
        self.side = self.side.opposite();
        assert(self@.cells =~= old(self)@.moved(*ply).cells);
    }

    /// The rights that are left once `piece` has left rank `row`, file `col`.
    fn rights_without(rights: CastlingRights, piece: Option<Piece>, row: usize, col: usize) -> (r:
        CastlingRights)
        ensures
            r == rights.without(piece, row as int, col as int),
    {
        match piece {
            None => rights,
            Some(p) => {
                let king = p.ty == PieceType::King;
                let home: usize = match p.color {
                    Color::White => 0,
                    Color::Black => 7,
                };
                let rook_home = p.ty == PieceType::Rook && row == home;
                let white = p.color == Color::White;
                CastlingRights {
                    white_kingside: rights.white_kingside && !(white && (king || (rook_home && col
                        == 7))),
                    white_queenside: rights.white_queenside && !(white && (king || (rook_home
                        && col == 0))),
                    black_kingside: rights.black_kingside && !(!white && (king || (rook_home
                        && col == 7))),
                    black_queenside: rights.black_queenside && !(!white && (king || (rook_home
                        && col == 0))),
                }
            },
        }
    }

    /// Takes `ply` back, given the castling rights and the en-passant target
    /// that held before it. The two counters stay as they are. A ply whose
    /// squares lie off the board, or a target off the board, is refused and
    /// leaves the board as it was.
    pub fn unmake_ply(
        &mut self,
        ply: Ply,
        rights: CastlingRights,
        en_passant: Option<(usize, usize)>,
    ) -> (r: Result<(), ChessError>)
        requires
            old(self).wf(),
        ensures
            final(self).wf(),
            ply.on_board() && target_on_board(en_passant) ==> r is Ok && final(self)@ == old(
                self,
            )@.revert(ply, rights, en_passant) && final(self).next_id == old(self).next_id,
            !ply.on_board() ==> r == Err::<(), ChessError>(ChessError::InvalidPly) && *final(self)
                == *old(self),
            ply.on_board() && !target_on_board(en_passant) ==> r == Err::<(), ChessError>(
                ChessError::OutOfRange,
            ) && *final(self) == *old(self),
    {
        if !(ply.from.row < 8 && ply.from.col < 8 && ply.to.row < 8 && ply.to.col < 8) {
            return Err(ChessError::InvalidPly);
        }
        let target_ok = match en_passant {
            Some(rc) => rc.0 < 8 && rc.1 < 8,
            None => true,
        };
        if !target_ok {
            return Err(ChessError::OutOfRange);
        }
        let fr: usize = ply.from.row;
        let fc: usize = ply.from.col;
        let tr: usize = ply.to.row;
        let tc: usize = ply.to.col;
        let rook_near = self.cells[fr * 8 + 5].piece;
        let rook_far = self.cells[fr * 8 + 3].piece;
        let left = match ply.kind {
            PlyKind::EnPassantCapture => None,
            _ => ply.captured,
        };
        self.put(tr, tc, left);
        self.put(fr, fc, ply.from.piece);
        match ply.kind {
            PlyKind::EnPassantCapture => {
                self.put(fr, tc, ply.captured);
            },
            PlyKind::CastleKingside => {
                self.put(fr, 5, None);
                self.put(fr, 7, rook_near);
            },
            PlyKind::CastleQueenside => {
                self.put(fr, 3, None);
                self.put(fr, 0, rook_far);
            },
            _ => {},
        }
        self.side = self.side.opposite();
        self.rights = rights;
        self.en_passant = en_passant;
        assert(self@.cells =~= old(self)@.revert(ply, rights, en_passant).cells);
        Ok(())
    }

    /// A copy of the board.
    pub fn duplicate(&self) -> (b: Board)
        requires
            self.wf(),
        ensures
            b.wf(),
            b@ == self@,
            b.next_id == self.next_id,
            self.identities_ok() ==> b.identities_ok(),
    {
        let mut cells: Vec<Square> = Vec::new();
        let mut i: usize = 0;
        while i < 64
            invariant
                self.wf(),
                0 <= i <= 64,
                cells@.len() == i,
                forall|j: int| 0 <= j < i ==> cells@[j] == self.cells@[j],
            decreases 64 - i,
        {
            cells.push(self.cells[i]);
            i += 1;
        }
        let b = Board {
            cells,
            side: self.side,
            rights: self.rights,
            en_passant: self.en_passant,
            halfmove: self.halfmove,
            fullmove: self.fullmove,
            next_id: self.next_id,
        };
        assert(b@.cells =~= self@.cells);
        b
    }

    /// The 64 squares, rank by rank, all empty.
    fn construct_matrix() -> (cells: Vec<Square>)
        ensures
            cells@.len() == 64,
            forall|i: int|
                0 <= i < 64 ==> (#[trigger] cells@[i]).col < 8 && cells@[i].row * 8 + cells@[i].col
                    == i && cells@[i].piece is None,
    {
        let mut cells: Vec<Square> = Vec::new();
        let mut row: usize = 0;
        while row < 8
            invariant
                0 <= row <= 8,
                cells@.len() == row * 8,
                forall|i: int|
                    0 <= i < row * 8 ==> (#[trigger] cells@[i]).col < 8 && cells@[i].row * 8
                        + cells@[i].col == i && cells@[i].piece is None,
            decreases 8 - row,
        {
            let mut col: usize = 0;
            while col < 8
                invariant
                    0 <= row < 8,
                    0 <= col <= 8,
                    cells@.len() == row * 8 + col,
                    forall|i: int|
                        0 <= i < row * 8 + col ==> (#[trigger] cells@[i]).col < 8 && cells@[i].row
                            * 8 + cells@[i].col == i && cells@[i].piece is None,
                decreases 8 - col,
            {
                cells.push(Square::new(col, row, None));
                col += 1;
            }
            row += 1;
        }
        cells
    }

    /// The type of the piece that starts on file `col` of a side's home rank.
    fn home_piece(col: usize) -> (ty: PieceType)
        ensures
            ty == home_type(col as int),
    {
        if col == 0 || col == 7 {
            PieceType::Rook
        } else if col == 1 || col == 6 {
            PieceType::Knight
        } else if col == 2 || col == 5 {
            PieceType::Bishop
        } else if col == 3 {
            PieceType::Queen
        } else {
            PieceType::King
        }
    }

    /// Sets up the pieces of `color` on rank `row`, from file 0 upwards.
    fn populate_piece_row(&mut self, row: usize, color: Color)
        requires
            old(self).wf(),
            row < 8,
            old(self).next_id < 1000,
        ensures
            final(self).wf(),
            final(self).next_id == old(self).next_id + 8,
            final(self).side == old(self).side,
            final(self).rights == old(self).rights,
            final(self).en_passant == old(self).en_passant,
            final(self).halfmove == old(self).halfmove,
            final(self).fullmove == old(self).fullmove,
            forall|i: int|
                0 <= i < 64 ==> #[trigger] final(self)@.cells[i] == if row * 8 <= i < row * 8 + 8 {
                    Some(
                        Piece {
                            id: (old(self).next_id + i - row * 8) as u64,
                            ty: home_type(i - row * 8),
                            color,
                        },
                    )
                } else {
                    old(self)@.cells[i]
                },
    {
        let mut col: usize = 0;
        while col < 8
            invariant
                self.wf(),
                row < 8,
                0 <= col <= 8,
                old(self).next_id < 1000,
                self.next_id == old(self).next_id + col,
                self.side == old(self).side,
                self.rights == old(self).rights,
                self.en_passant == old(self).en_passant,
                self.halfmove == old(self).halfmove,
                self.fullmove == old(self).fullmove,
                forall|i: int|
                    0 <= i < 64 ==> #[trigger] self@.cells[i] == if row * 8 <= i < row * 8 + col {
                        Some(
                            Piece {
                                id: (old(self).next_id + i - row * 8) as u64,
                                ty: home_type(i - row * 8),
                                color,
                            },
                        )
                    } else {
                        old(self)@.cells[i]
                    },
            decreases 8 - col,
        {
            let ty = Self::home_piece(col);
            let _ = self.place(col, row, ty, color);
            col += 1;
        }
    }

    /// Sets up the pawns of `color` on rank `row`, from file 0 upwards.
    fn populate_pawns_row(&mut self, row: usize, color: Color)
        requires
            old(self).wf(),
            row < 8,
            old(self).next_id < 1000,
        ensures
            final(self).wf(),
            final(self).next_id == old(self).next_id + 8,
            final(self).side == old(self).side,
            final(self).rights == old(self).rights,
            final(self).en_passant == old(self).en_passant,
            final(self).halfmove == old(self).halfmove,
            final(self).fullmove == old(self).fullmove,
            forall|i: int|
                0 <= i < 64 ==> #[trigger] final(self)@.cells[i] == if row * 8 <= i < row * 8 + 8 {
                    Some(
                        Piece {
                            id: (old(self).next_id + i - row * 8) as u64,
                            ty: PieceType::Pawn,
                            color,
                        },
                    )
                } else {
                    old(self)@.cells[i]
                },
    {
        let mut col: usize = 0;
        while col < 8
            invariant
                self.wf(),
                row < 8,
                0 <= col <= 8,
                old(self).next_id < 1000,
                self.next_id == old(self).next_id + col,
                self.side == old(self).side,
                self.rights == old(self).rights,
                self.en_passant == old(self).en_passant,
                self.halfmove == old(self).halfmove,
                self.fullmove == old(self).fullmove,
                forall|i: int|
                    0 <= i < 64 ==> #[trigger] self@.cells[i] == if row * 8 <= i < row * 8 + col {
                        Some(
                            Piece {
                                id: (old(self).next_id + i - row * 8) as u64,
                                ty: PieceType::Pawn,
                                color,
                            },
                        )
                    } else {
                        old(self)@.cells[i]
                    },
            decreases 8 - col,
        {
            let _ = self.place(col, row, PieceType::Pawn, color);
            col += 1;
        }
    }

    /// Whether a coordinate counted from 1 lies on the board.
    fn within_bounds(value: isize) -> (b: bool)
        ensures
            b == (1 <= value < 9),
    {
        value < 9 && value >= 1
    }
}

} // verus!
