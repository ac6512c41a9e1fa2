//! Squares: a place on the board and what stands on it.

use vstd::prelude::*;
use crate::attack::in_check;
use crate::board::Board;
use crate::piece::Piece;
use crate::ply::Ply;
use crate::rules::{legal, legal_plys};

verus! {

/// A square: its file (`col`) and rank (`row`), both counted from 0, and its
/// occupant.
#[derive(Debug, Clone, Copy)]
pub struct Square {
    pub col: usize,
    pub row: usize,
    pub piece: Option<Piece>,
}

impl Default for Square {
    fn default() -> (s: Self)
        ensures
            s == (Square { col: 0, row: 0, piece: None }),
    {
        Square { col: 0, row: 0, piece: None }
    }
}

/// Whether `a` and `b` are both pieces, of different colors.
pub open spec fn opponents(a: Option<Piece>, b: Option<Piece>) -> bool {
    a is Some && b is Some && a->0.color != b->0.color
}

impl Square {
    /// Both coordinates lie on the board.
    pub open spec fn wf(self) -> bool {
        self.col < 8 && self.row < 8
    }

    /// The square's index among the 64, rank by rank.
    pub open spec fn index(self) -> int {
        self.row * 8 + self.col
    }

    /// The square on file `col` and rank `row`, both counted from 0, holding `piece`.
    pub fn new(col: usize, row: usize, piece: Option<Piece>) -> (s: Self)
        requires
            col < 8,
            row < 8,
        ensures
            s == (Square { col, row, piece }),
    {
        Self { col, row, piece }
    }

    /// The file, counted from 1.
    pub fn col(&self) -> (c: usize)
        requires
            self.wf(),
        ensures
            c == self.col + 1,
    {
        self.col + 1
    }

    /// The rank, counted from 1.
    pub fn row(&self) -> (r: usize)
        requires
            self.wf(),
        ensures
            r == self.row + 1,
    {
        self.row + 1
    }

    /// Whether the square is empty.
    pub fn is_unoccupied(&self) -> (b: bool)
        ensures
            b == (self.piece is None),
    {
        self.piece.is_none()
    }

    /// Whether this square holds a piece of the other color than the piece on
    /// `other`. False when either square is empty.
    pub fn is_occupied_by_opponent(&self, other: &Square) -> (b: bool)
        ensures
            b == opponents(self.piece, other.piece),
    {
        match (self.piece, other.piece) {
            (Some(mine), Some(theirs)) => mine.color != theirs.color,
            _ => false,
        }
    }

    /// The legal moves of the occupant of this square on `board`: none where
    /// the square has no occupant. No ply of the result leaves a king of the
    /// occupant's color attacked.
    pub fn valid_plys(&self, board: &Board) -> (plys: Vec<Ply>)
        requires
            board.wf(),
            self.wf(),
        ensures
            plys@ == legal(board@, *self),
            self.piece is None ==> plys@.len() == 0,
            forall|i: int|
                0 <= i < plys@.len() ==> board@.accepts(#[trigger] plys@[i]) && !in_check(
                    board@.apply(plys@[i]),
                    self.piece->0.color,
                ),
    {
        legal_plys(board, self)
    }
}

} // verus!
