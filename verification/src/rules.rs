//! Legality: the moves that leave the mover's king safe, and the state of
//! the game for the side to move.

use vstd::prelude::*;
use crate::attack::in_check;
use crate::board::Board;
use crate::laws::{lemma_apply_keeps_identities, lemma_legal_is_safe};
use crate::piece::{Color, Piece};
use crate::ply::{pseudo_legal, pseudo_legal_plys, Ply};
use crate::position::{ChessError, GameStatus, Position};
use crate::square::Square;

verus! {

/// Whether `ply` can be applied to `p` and leaves no king of `color`
/// attacked.
pub open spec fn keeps_king_safe(p: Position, color: Color, ply: Ply) -> bool {
    p.accepts(ply) && !in_check(p.apply(ply), color)
}

/// `keeps_king_safe` as a test on plys.
pub open spec fn safe_for(p: Position, color: Color) -> spec_fn(Ply) -> bool {
    |ply: Ply| keeps_king_safe(p, color, ply)
}

/// The legal moves of the occupant of `from`: its pseudo-legal moves, in
/// their order, without those that would leave its own king attacked.
pub open spec fn legal(p: Position, from: Square) -> Seq<Ply> {
    match from.piece {
        None => Seq::empty(),
        Some(piece) => pseudo_legal(p, from).filter(safe_for(p, piece.color)),
    }
}

/// Whether cell `i` holds a piece of `color`.
pub open spec fn owned(p: Position, i: int, color: Color) -> bool {
    p.cells[i] is Some && p.cells[i]->0.color == color
}

/// The legal moves of the pieces of `color` on the first `n` cells, cell by
/// cell.
pub open spec fn side_legal(p: Position, color: Color, n: nat) -> Seq<Ply>
    decreases n,
{
    if n == 0 {
        Seq::empty()
    } else {
        let i = n - 1;
        side_legal(p, color, i as nat) + if owned(p, i, color) {
            legal(p, p.square(i / 8, i % 8))
        } else {
            Seq::empty()
        }
    }
}

/// Whether the piece on cell `i` is of `color` and has a legal move.
pub open spec fn can_move_from(p: Position, i: int, color: Color) -> bool {
    owned(p, i, color) && legal(p, p.square(i / 8, i % 8)).len() > 0
}

/// Whether `color` has a legal move.
pub open spec fn can_move(p: Position, color: Color) -> bool {
    exists|i: int| 0 <= i < 64 && can_move_from(p, i, color)
}

/// The state of the game for the side to move: checkmate where it has no
/// legal move and is in check, stalemate where it has none and is not, check
/// where it has one and is in check.
pub open spec fn status(p: Position) -> GameStatus {
    if can_move(p, p.side) {
        if in_check(p, p.side) {
            GameStatus::Check
        } else {
            GameStatus::Normal
        }
    } else {
        if in_check(p, p.side) {
            GameStatus::Checkmate
        } else {
            GameStatus::Stalemate
        }
    }
}

/// The legal moves of the occupant that `square` records: its pseudo-legal
/// moves on `board`, without those that cannot be applied there or would
/// leave a king of its color attacked. None for a square without occupant,
/// whatever the board holds at its place.
pub fn legal_plys(board: &Board, square: &Square) -> (plys: Vec<Ply>)
    requires
        board.wf(),
        square.wf(),
    ensures
        plys@ == legal(board@, *square),
        square.piece is None ==> plys@.len() == 0,
        forall|i: int|
            0 <= i < plys@.len() ==> board@.accepts(#[trigger] plys@[i]) && !in_check(
                board@.apply(plys@[i]),
                square.piece->0.color,
            ),
{
    let color = match square.piece {
        Some(piece) => piece.color,
        None => {
            return Vec::new();
        },
    };
    let candidates = pseudo_legal_plys(board, square);
    let mut plys: Vec<Ply> = Vec::new();
    let ghost keep = safe_for(board@, color);
    let mut i: usize = 0;
    proof {
        reveal(Seq::filter);
    }
    while i < candidates.len()
        invariant
            board.wf(),
            0 <= i <= candidates@.len(),
            keep == safe_for(board@, color),
            plys@ == candidates@.take(i as int).filter(keep),
        decreases candidates@.len() - i,
    {
        let ply = candidates[i];
        let mut safe = false;
        if board.accepts(&ply) {
            let mut scratch = board.duplicate();
            scratch.relocate(&ply);
            safe = !scratch.in_check(color);
        }
        proof {
            reveal(Seq::filter);
            assert(candidates@.take(i + 1).drop_last() =~= candidates@.take(i as int));
            assert(candidates@.take(i + 1).last() == ply);
            assert(safe == keep(ply));
        }
        if safe {
            plys.push(ply);
        }
        i += 1;
    }
    assert(candidates@.take(i as int) =~= candidates@);
    proof {
        assert forall|i: int| 0 <= i < plys@.len() implies board@.accepts(#[trigger] plys@[i])
            && !in_check(board@.apply(plys@[i]), square.piece->0.color) by {
            lemma_legal_is_safe(board@, *square, i);
        }
    }
    plys
}

/// The legal moves of all pieces of `color`, square by square, rank by rank
/// from White's side.
pub fn legal_plys_for_side(board: &Board, color: Color) -> (plys: Vec<Ply>)
    requires
        board.wf(),
    ensures
        plys@ == side_legal(board@, color, 64),
{
    let mut plys: Vec<Ply> = Vec::new();
    let mut i: usize = 0;
    while i < 64
        invariant
            board.wf(),
            0 <= i <= 64,
            plys@ == side_legal(board@, color, i as nat),
        decreases 64 - i,
    {
        let square = &board.cells[i];
        let mine = match square.piece {
            Some(piece) => piece.color == color,
            None => false,
        };
        if mine {
            let mut found = legal_plys(board, square);
            plys.append(&mut found);
        }
        assert(plys@ =~= side_legal(board@, color, (i + 1) as nat));
        i += 1;
    }
    plys
}

/// Whether two plys are the same in every part.
pub fn same_ply(a: &Ply, b: &Ply) -> (same: bool)
    ensures
        same == (*a == *b),
{
    a.from.col == b.from.col && a.from.row == b.from.row && same_piece(a.from.piece, b.from.piece)
        && a.to.col == b.to.col && a.to.row == b.to.row && same_piece(a.to.piece, b.to.piece)
        && a.kind == b.kind && same_piece(a.captured, b.captured)
}

/// Whether two occupants are the same.
fn same_piece(a: Option<Piece>, b: Option<Piece>) -> (same: bool)
    ensures
        same == (a == b),
{
    match (a, b) {
        (Some(x), Some(y)) => x == y,
        (None, None) => true,
        _ => false,
    }
}

/// Whether `ply` is a legal move of the piece that stands on its origin.
pub open spec fn is_legal(p: Position, ply: Ply) -> bool {
    ply.from.wf() && legal(p, p.square(ply.from.row as int, ply.from.col as int)).contains(ply)
}

impl Board {
    /// Whether `ply` is a legal move of the piece that stands on its origin.
    pub fn is_legal_ply(&self, ply: &Ply) -> (b: bool)
        requires
            self.wf(),
        ensures
            b == is_legal(self@, *ply),
    {
        if !(ply.from.row < 8 && ply.from.col < 8) {
            return false;
        }
        let origin = &self.cells[ply.from.row * 8 + ply.from.col];
        let found = legal_plys(self, origin);
        let mut i: usize = 0;
        while i < found.len()
            invariant
                0 <= i <= found@.len(),
                ply.from.wf(),
                found@ == legal(self@, self@.square(ply.from.row as int, ply.from.col as int)),
                forall|j: int| 0 <= j < i ==> found@[j] != *ply,
            decreases found@.len() - i,
        {
            if same_ply(&found[i], ply) {
                assert(found@[i as int] == *ply);
                return true;
            }
            i += 1;
        }
        false
    }

    /// Applies `ply` as `make_ply` does, but only where it is a legal move of
    /// the piece on its origin: any other ply is refused and leaves the board
    /// as it was.
    pub fn make_legal_ply(&mut self, ply: Ply) -> (r: Result<GameStatus, ChessError>)
        requires
            old(self).wf(),
        ensures
            final(self).wf(),
            is_legal(old(self)@, ply) ==> final(self)@ == old(self)@.apply(ply) && r == Ok::<
                GameStatus,
                ChessError,
            >(status(old(self)@.apply(ply))) && final(self).next_id == old(self).next_id,
            !is_legal(old(self)@, ply) ==> r == Err::<GameStatus, ChessError>(
                ChessError::InvalidPly,
            ) && *final(self) == *old(self),
            old(self).identities_ok() ==> final(self).identities_ok(),
    {
        if !self.is_legal_ply(&ply) {
            return Err(ChessError::InvalidPly);
        }
        proof {
            let from = self@.square(ply.from.row as int, ply.from.col as int);
            let i = choose|i: int| 0 <= i < legal(self@, from).len() && legal(self@, from)[i] == ply;
            lemma_legal_is_safe(self@, from, i);
        }
        self.make_ply(ply)
    }

    /// Whether `color` has a legal move.
    pub fn has_legal_ply(&self, color: Color) -> (b: bool)
        requires
            self.wf(),
        ensures
            b == can_move(self@, color),
    {
        let mut i: usize = 0;
        while i < 64
            invariant
                self.wf(),
                0 <= i <= 64,
                forall|j: int| 0 <= j < i ==> !can_move_from(self@, j, color),
            decreases 64 - i,
        {
            let square = &self.cells[i];
            let mine = match square.piece {
                Some(piece) => piece.color == color,
                None => false,
            };
            if mine {
                let found = legal_plys(self, square);
                if found.len() > 0 {
                    assert(can_move_from(self@, i as int, color));
                    return true;
                }
            }
            i += 1;
        }
        false
    }

    /// The state of the game for the side to move.
    pub fn status(&self) -> (s: GameStatus)
        requires
            self.wf(),
        ensures
            s == status(self@),
    {
        let side = self.side;
        let checked = self.in_check(side);
        if self.has_legal_ply(side) {
            if checked {
                GameStatus::Check
            } else {
                GameStatus::Normal
            }
        } else {
            if checked {
                GameStatus::Checkmate
            } else {
                GameStatus::Stalemate
            }
        }
    }

    /// Applies `ply` and reports the state of the game for the side that
    /// moves next. A ply whose squares lie off the board, or whose origin is
    /// empty here, is refused and leaves the board as it was.
    pub fn make_ply(&mut self, ply: Ply) -> (r: Result<GameStatus, ChessError>)
        requires
            old(self).wf(),
        ensures
            final(self).wf(),
            old(self)@.accepts(ply) ==> final(self)@ == old(self)@.apply(ply) && r == Ok::<
                GameStatus,
                ChessError,
            >(status(old(self)@.apply(ply))) && final(self).next_id == old(self).next_id,
            old(self).identities_ok() ==> final(self).identities_ok(),
            !old(self)@.accepts(ply) ==> r == Err::<GameStatus, ChessError>(
                ChessError::InvalidPly,
            ) && *final(self) == *old(self),
    {
        if !self.accepts(&ply) {
            return Err(ChessError::InvalidPly);
        }
        self.relocate(&ply);
        proof {
            if old(self).identities_ok() {
                lemma_apply_keeps_identities(old(self)@, ply, old(self).next_id);
            }
        }
        Ok(self.status())
    }
}

} // verus!
