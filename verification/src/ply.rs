//! Plys: a transition between two squares, and the rules that propose them.

use vstd::prelude::*;
use crate::attack::{attacked, holds_at};
use crate::board::Board;
use crate::piece::{Color, Piece, PieceType};
use crate::position::{home_row, last_row, on_board, pawn_row, Position};
use crate::square::{opponents, Square};

verus! {

/// What sort of move a ply is.
#[derive(Debug, Clone, Copy, PartialEq, Eq, Structural)]
pub enum PlyKind {
    Normal,
    DoublePawnPush,
    EnPassantCapture,
    CastleKingside,
    CastleQueenside,
    Promotion(PieceType),
}

/// A move by one side: origin and destination as they stood when the ply was
/// made, its kind, and the piece it takes, if any. The moving piece is the
/// occupant of the origin.
#[derive(Debug, Clone, Copy)]
pub struct Ply {
    pub from: Square,
    pub to: Square,
    pub kind: PlyKind,
    pub captured: Option<Piece>,
}

impl Ply {
    /// An ordinary move from `from` to `to`, taking whatever stands on `to`.
    pub fn new(from: Square, to: Square) -> (p: Self)
        ensures
            p == (Ply { from, to, kind: PlyKind::Normal, captured: to.piece }),
    {
        Self { from, to, kind: PlyKind::Normal, captured: to.piece }
    }

    /// A move of the given kind that takes `captured`.
    pub fn with_kind(from: Square, to: Square, kind: PlyKind, captured: Option<Piece>) -> (p: Self)
        ensures
            p == (Ply { from, to, kind, captured }),
    {
        Self { from, to, kind, captured }
    }

    /// The origin, as it stood when the ply was made.
    pub fn from(&self) -> (s: Square)
        ensures
            s == self.from,
    {
        self.from
    }

    /// The destination, as it stood when the ply was made.
    pub fn to(&self) -> (s: Square)
        ensures
            s == self.to,
    {
        self.to
    }

    /// What sort of move the ply is.
    pub fn kind(&self) -> (k: PlyKind)
        ensures
            k == self.kind,
    {
        self.kind
    }

    /// The piece that moves: the occupant of the origin.
    pub fn moving_piece(&self) -> (p: Option<Piece>)
        ensures
            p == self.from.piece,
    {
        self.from.piece
    }

    /// The piece that the ply takes, if any.
    pub fn captured(&self) -> (p: Option<Piece>)
        ensures
            p == self.captured,
    {
        self.captured
    }

    /// Both squares lie on the board.
    pub open spec fn on_board(self) -> bool {
        self.from.wf() && self.to.wf()
    }
}

/// The ordinary move of the piece on `from` to rank `r`, file `c`, taking
/// what stands there.
pub open spec fn plain_ply(p: Position, from: Square, r: int, c: int) -> Ply {
    Ply { from, to: p.square(r, c), kind: PlyKind::Normal, captured: p.at(r, c) }
}

/// Whether the piece on `from` may land on rank `r`, file `c`: the square is
/// on the board and empty or held by the other side.
pub open spec fn may_land(p: Position, from: Square, r: int, c: int) -> bool {
    on_board(r, c) && (p.at(r, c) is None || opponents(p.at(r, c), from.piece))
}

/// The move by one fixed offset, where the piece may land there.
pub open spec fn step_plys(p: Position, from: Square, dr: int, dc: int) -> Seq<Ply> {
    if may_land(p, from, from.row + dr, from.col + dc) {
        seq![plain_ply(p, from, from.row + dr, from.col + dc)]
    } else {
        Seq::empty()
    }
}

/// The moves of the piece on `from` along one ray, seen from rank `r`, file
/// `c`, a square of the ray. Each empty square gives a move and the ray goes
/// on; a piece of the other side gives a capture and ends it; a piece of the
/// mover's side, or the edge of the board, ends it with no move.
pub open spec fn ray_plys(p: Position, from: Square, r: int, c: int, dr: int, dc: int, fuel: nat) -> Seq<
    Ply,
>
    decreases fuel,
{
    if fuel == 0 || !on_board(r + dr, c + dc) {
        Seq::empty()
    } else if p.at(r + dr, c + dc) is None {
        seq![plain_ply(p, from, r + dr, c + dc)] + ray_plys(
            p,
            from,
            r + dr,
            c + dc,
            dr,
            dc,
            (fuel - 1) as nat,
        )
    } else if opponents(p.at(r + dr, c + dc), from.piece) {
        seq![plain_ply(p, from, r + dr, c + dc)]
    } else {
        Seq::empty()
    }
}

/// One whole ray from `from`.
pub open spec fn ray_from(p: Position, from: Square, dr: int, dc: int) -> Seq<Ply> {
    ray_plys(p, from, from.row as int, from.col as int, dr, dc, 7)
}

/// The moves along ranks and files.
pub open spec fn straight_plys(p: Position, from: Square) -> Seq<Ply> {
    ray_from(p, from, 1, 0) + ray_from(p, from, 0, 1) + ray_from(p, from, -1, 0) + ray_from(
        p,
        from,
        0,
        -1,
    )
}

/// The moves along diagonals.
pub open spec fn diagonal_plys(p: Position, from: Square) -> Seq<Ply> {
    ray_from(p, from, 1, 1) + ray_from(p, from, -1, 1) + ray_from(p, from, -1, -1) + ray_from(
        p,
        from,
        1,
        -1,
    )
}

/// The knight's moves: its eight jumps, each where it may land.
pub open spec fn knight_moves(p: Position, from: Square) -> Seq<Ply> {
    step_plys(p, from, 2, 1) + step_plys(p, from, 1, 2) + step_plys(p, from, -1, 2) + step_plys(
        p,
        from,
        -2,
        1,
    ) + step_plys(p, from, -2, -1) + step_plys(p, from, -1, -2) + step_plys(p, from, 1, -2)
        + step_plys(p, from, 2, -1)
}

/// The king's moves to the eight squares next to it.
pub open spec fn king_steps(p: Position, from: Square) -> Seq<Ply> {
    step_plys(p, from, 1, 0) + step_plys(p, from, 1, 1) + step_plys(p, from, 0, 1) + step_plys(
        p,
        from,
        -1,
        1,
    ) + step_plys(p, from, -1, 0) + step_plys(p, from, -1, -1) + step_plys(p, from, 0, -1)
        + step_plys(p, from, 1, -1)
}

/// Whether the king on `from` may castle towards the rook on file
/// `rook_col`: the right is held, king and rook stand on their first squares,
/// nothing stands between them, and the other side attacks neither the
/// king's square, nor the one it crosses, nor the one it reaches.
pub open spec fn may_castle(p: Position, from: Square, kingside: bool) -> bool {
    let color = from.piece->0.color;
    let row = home_row(color);
    let by = color.other();
    &&& from.piece is Some
    &&& from.row == row
    &&& from.col == 4
    &&& holds_at(p, row, 4, color, PieceType::King)
    &&& !attacked(p, row, 4, by)
    &&& if kingside {
        &&& p.rights.kingside(color)
        &&& holds_at(p, row, 7, color, PieceType::Rook)
        &&& p.at(row, 5) is None
        &&& p.at(row, 6) is None
        &&& !attacked(p, row, 5, by)
        &&& !attacked(p, row, 6, by)
    } else {
        &&& p.rights.queenside(color)
        &&& holds_at(p, row, 0, color, PieceType::Rook)
        &&& p.at(row, 1) is None
        &&& p.at(row, 2) is None
        &&& p.at(row, 3) is None
        &&& !attacked(p, row, 3, by)
        &&& !attacked(p, row, 2, by)
    }
}

/// The castling move to one side, where the king may make it.
pub open spec fn castle_plys(p: Position, from: Square, kingside: bool) -> Seq<Ply> {
    if may_castle(p, from, kingside) {
        seq![
            Ply {
                from,
                to: p.square(
                    from.row as int,
                    if kingside {
                        6
                    } else {
                        2
                    },
                ),
                kind: if kingside {
                    PlyKind::CastleKingside
                } else {
                    PlyKind::CastleQueenside
                },
                captured: None,
            },
        ]
    } else {
        Seq::empty()
    }
}

/// The king's moves: its steps, then castling to the king's side, then to
/// the queen's side.
pub open spec fn king_moves(p: Position, from: Square) -> Seq<Ply> {
    king_steps(p, from) + castle_plys(p, from, true) + castle_plys(p, from, false)
}

/// The plys by which the pawn on `from` arrives on rank `r`, file `c`: one
/// for each of knight, bishop, rook and queen where that is its last rank,
/// else the one ordinary move.
pub open spec fn arrivals(p: Position, from: Square, r: int, c: int) -> Seq<Ply> {
    let to = p.square(r, c);
    let captured = p.at(r, c);
    if r == last_row(from.piece->0.color) {
        seq![
            Ply { from, to, kind: PlyKind::Promotion(PieceType::Knight), captured },
            Ply { from, to, kind: PlyKind::Promotion(PieceType::Bishop), captured },
            Ply { from, to, kind: PlyKind::Promotion(PieceType::Rook), captured },
            Ply { from, to, kind: PlyKind::Promotion(PieceType::Queen), captured },
        ]
    } else {
        seq![Ply { from, to, kind: PlyKind::Normal, captured }]
    }
}

/// The pawn's advance by one square, onto an empty square only.
pub open spec fn pawn_advance(p: Position, from: Square) -> Seq<Ply> {
    let r = from.row + from.piece->0.color.forward();
    if on_board(r, from.col as int) && p.at(r, from.col as int) is None {
        arrivals(p, from, r, from.col as int)
    } else {
        Seq::empty()
    }
}

/// The pawn's advance by two squares: from its first rank only, and only
/// where the square it skips and the one it reaches are both empty.
pub open spec fn pawn_double(p: Position, from: Square) -> Seq<Ply> {
    let color = from.piece->0.color;
    let c = from.col as int;
    let r1 = from.row + color.forward();
    let r2 = from.row + 2 * color.forward();
    if from.row == pawn_row(color) && p.at(r1, c) is None && p.at(r2, c) is None {
        seq![Ply { from, to: p.square(r2, c), kind: PlyKind::DoublePawnPush, captured: None }]
    } else {
        Seq::empty()
    }
}

/// Whether the pawn on `from` may capture en passant onto rank `r`, file
/// `c`: that empty square is the en-passant target, and beside the pawn, in
/// file `c`, stands a pawn of the other side.
pub open spec fn may_take_en_passant(p: Position, from: Square, r: int, c: int) -> bool {
    &&& p.at(r, c) is None
    &&& p.en_passant == Some((r as usize, c as usize))
    &&& opponents(p.at(from.row as int, c), from.piece)
    &&& p.at(from.row as int, c)->0.ty == PieceType::Pawn
}

/// The pawn's captures towards file `col + dc`: onto a piece of the other
/// side, or en passant.
pub open spec fn pawn_capture(p: Position, from: Square, dc: int) -> Seq<Ply> {
    let r = from.row + from.piece->0.color.forward();
    let c = from.col + dc;
    if !on_board(r, c) {
        Seq::empty()
    } else if opponents(p.at(r, c), from.piece) {
        arrivals(p, from, r, c)
    } else if may_take_en_passant(p, from, r, c) {
        seq![
            Ply {
                from,
                to: p.square(r, c),
                kind: PlyKind::EnPassantCapture,
                captured: p.at(from.row as int, c),
            },
        ]
    } else {
        Seq::empty()
    }
}

/// The pawn's moves: one square forward, two squares forward, the capture
/// towards the lower file, the capture towards the higher file.
pub open spec fn pawn_moves(p: Position, from: Square) -> Seq<Ply> {
    pawn_advance(p, from) + pawn_double(p, from) + pawn_capture(p, from, -1) + pawn_capture(
        p,
        from,
        1,
    )
}

/// The moves that the occupant of `from` can make by the rules of its type,
/// whether or not they leave its own king attacked. None for an empty
/// square.
pub open spec fn pseudo_legal(p: Position, from: Square) -> Seq<Ply> {
    match from.piece {
        None => Seq::empty(),
        Some(piece) => match piece.ty {
            PieceType::Pawn => pawn_moves(p, from),
            PieceType::Knight => knight_moves(p, from),
            PieceType::Bishop => diagonal_plys(p, from),
            PieceType::Rook => straight_plys(p, from),
            PieceType::Queen => straight_plys(p, from) + diagonal_plys(p, from),
            PieceType::King => king_moves(p, from),
        },
    }
}

/// Whether `square` holds a piece of type `ty` and lies on the board.
pub open spec fn holds_type(square: Square, ty: PieceType) -> bool {
    square.wf() && square.piece is Some && square.piece->0.ty == ty
}

/// Adds the move by one fixed offset, where the piece may land there.
fn push_step(board: &Board, square: &Square, dr: isize, dc: isize, plys: &mut Vec<Ply>)
    requires
        board.wf(),
        square.wf(),
    ensures
        final(plys)@ == old(plys)@ + step_plys(board@, *square, dr as int, dc as int),
{
    if let Some(next) = board.get_relative_square(square, dr, dc) {
        if next.is_unoccupied() || next.is_occupied_by_opponent(square) {
            plys.push(Ply::new(*square, *next));
            assert(plys@ =~= old(plys)@ + step_plys(board@, *square, dr as int, dc as int));
            return ;
        }
    }
    assert(plys@ =~= old(plys)@ + step_plys(board@, *square, dr as int, dc as int));
}

/// Adds the moves along one ray.
fn push_ray(board: &Board, square: &Square, dr: isize, dc: isize, plys: &mut Vec<Ply>)
    requires
        board.wf(),
        square.wf(),
        -1 <= dr <= 1,
        -1 <= dc <= 1,
    ensures
        final(plys)@ == old(plys)@ + ray_from(board@, *square, dr as int, dc as int),
{
    let mut at: Square = *square;
    let mut fuel: usize = 7;
    let ghost goal = old(plys)@ + ray_from(board@, *square, dr as int, dc as int);
    while fuel > 0
        invariant
            board.wf(),
            square.wf(),
            at.wf(),
            -1 <= dr <= 1,
            -1 <= dc <= 1,
            fuel <= 7,
            goal == old(plys)@ + ray_from(board@, *square, dr as int, dc as int),
            plys@ + ray_plys(
                board@,
                *square,
                at.row as int,
                at.col as int,
                dr as int,
                dc as int,
                fuel as nat,
            ) == goal,
        decreases fuel,
    {
        let ghost rest = ray_plys(
            board@,
            *square,
            at.row as int,
            at.col as int,
            dr as int,
            dc as int,
            fuel as nat,
        );
        let ghost before = plys@;
        match board.get_relative_square(&at, dr, dc) {
            None => {
                assert(before + rest =~= before);
                return ;
            },
            Some(next) => {
                if next.is_unoccupied() {
                    plys.push(Ply::new(*square, *next));
                    at = *next;
                    fuel -= 1;
                    assert(plys@ + ray_plys(
                        board@,
                        *square,
                        at.row as int,
                        at.col as int,
                        dr as int,
                        dc as int,
                        fuel as nat,
                    ) =~= before + rest);
                } else {
                    if next.is_occupied_by_opponent(square) {
                        plys.push(Ply::new(*square, *next));
                    }
                    assert(plys@ =~= before + rest);
                    return ;
                }
            },
        }
    }
    assert(plys@ + Seq::<Ply>::empty() =~= plys@);
}

/// Adds the moves along ranks and files.
fn push_straight(board: &Board, square: &Square, plys: &mut Vec<Ply>)
    requires
        board.wf(),
        square.wf(),
    ensures
        final(plys)@ == old(plys)@ + straight_plys(board@, *square),
{
    push_ray(board, square, 1, 0, plys);
    push_ray(board, square, 0, 1, plys);
    push_ray(board, square, -1, 0, plys);
    push_ray(board, square, 0, -1, plys);
    assert(plys@ =~= old(plys)@ + straight_plys(board@, *square));
}

/// Adds the moves along diagonals.
fn push_diagonal(board: &Board, square: &Square, plys: &mut Vec<Ply>)
    requires
        board.wf(),
        square.wf(),
    ensures
        final(plys)@ == old(plys)@ + diagonal_plys(board@, *square),
{
    push_ray(board, square, 1, 1, plys);
    push_ray(board, square, -1, 1, plys);
    push_ray(board, square, -1, -1, plys);
    push_ray(board, square, 1, -1, plys);
    assert(plys@ =~= old(plys)@ + diagonal_plys(board@, *square));
}

/// The moves of the knight on `square`.
pub fn knight_plys(board: &Board, square: &Square) -> (plys: Vec<Ply>)
    requires
        board.wf(),
        holds_type(*square, PieceType::Knight),
    ensures
        plys@ == knight_moves(board@, *square),
{
    let mut plys: Vec<Ply> = Vec::new();
    push_step(board, square, 2, 1, &mut plys);
    push_step(board, square, 1, 2, &mut plys);
    push_step(board, square, -1, 2, &mut plys);
    push_step(board, square, -2, 1, &mut plys);
    push_step(board, square, -2, -1, &mut plys);
    push_step(board, square, -1, -2, &mut plys);
    push_step(board, square, 1, -2, &mut plys);
    push_step(board, square, 2, -1, &mut plys);
    assert(plys@ =~= knight_moves(board@, *square));
    plys
}

/// The moves of the bishop on `square`.
pub fn bishop_plys(board: &Board, square: &Square) -> (plys: Vec<Ply>)
    requires
        board.wf(),
        holds_type(*square, PieceType::Bishop),
    ensures
        plys@ == diagonal_plys(board@, *square),
{
    let mut plys: Vec<Ply> = Vec::new();
    push_diagonal(board, square, &mut plys);
    assert(plys@ =~= diagonal_plys(board@, *square));
    plys
}

/// The moves of the rook on `square`.
pub fn rook_plys(board: &Board, square: &Square) -> (plys: Vec<Ply>)
    requires
        board.wf(),
        holds_type(*square, PieceType::Rook),
    ensures
        plys@ == straight_plys(board@, *square),
{
    let mut plys: Vec<Ply> = Vec::new();
    push_straight(board, square, &mut plys);
    assert(plys@ =~= straight_plys(board@, *square));
    plys
}

/// The moves of the queen on `square`: those of a rook, then those of a
/// bishop.
pub fn queen_plys(board: &Board, square: &Square) -> (plys: Vec<Ply>)
    requires
        board.wf(),
        holds_type(*square, PieceType::Queen),
    ensures
        plys@ == straight_plys(board@, *square) + diagonal_plys(board@, *square),
{
    let mut plys: Vec<Ply> = Vec::new();
    push_straight(board, square, &mut plys);
    push_diagonal(board, square, &mut plys);
    assert(plys@ =~= straight_plys(board@, *square) + diagonal_plys(board@, *square));
    plys
}

/// Whether the king on `square` may castle to the given side.
fn can_castle(board: &Board, square: &Square, kingside: bool) -> (b: bool)
    requires
        board.wf(),
        holds_type(*square, PieceType::King),
    ensures
        b == may_castle(board@, *square, kingside),
{
    let color = square.piece.unwrap().color;
    let row: usize = match color {
        Color::White => 0,
        Color::Black => 7,
    };
    let by = color.opposite();
    let held = match (color, kingside) {
        (Color::White, true) => board.rights.white_kingside,
        (Color::White, false) => board.rights.white_queenside,
        (Color::Black, true) => board.rights.black_kingside,
        (Color::Black, false) => board.rights.black_queenside,
    };
    if !held || square.row != row || square.col != 4 {
        return false;
    }
    let king_home = match board.cells[row * 8 + 4].piece {
        Some(piece) => piece.color == color && piece.ty == PieceType::King,
        None => false,
    };
    let rook_col: usize = if kingside {
        7
    } else {
        0
    };
    let rook_home = match board.cells[row * 8 + rook_col].piece {
        Some(piece) => piece.color == color && piece.ty == PieceType::Rook,
        None => false,
    };
    if !king_home || !rook_home || board.attacked_at(row, 4, by) {
        return false;
    }
    if kingside {
        board.cells[row * 8 + 5].piece.is_none() && board.cells[row * 8 + 6].piece.is_none()
            && !board.attacked_at(row, 5, by) && !board.attacked_at(row, 6, by)
    } else {
        board.cells[row * 8 + 1].piece.is_none() && board.cells[row * 8 + 2].piece.is_none()
            && board.cells[row * 8 + 3].piece.is_none() && !board.attacked_at(row, 3, by)
            && !board.attacked_at(row, 2, by)
    }
}

/// Adds the castling move to the given side, where the king may make it.
fn push_castle(board: &Board, square: &Square, kingside: bool, plys: &mut Vec<Ply>)
    requires
        board.wf(),
        holds_type(*square, PieceType::King),
    ensures
        final(plys)@ == old(plys)@ + castle_plys(board@, *square, kingside),
{
    if can_castle(board, square, kingside) {
        let col: usize = if kingside {
            6
        } else {
            2
        };
        let kind = if kingside {
            PlyKind::CastleKingside
        } else {
            PlyKind::CastleQueenside
        };
        let to = board.cells[square.row * 8 + col];
        plys.push(Ply::with_kind(*square, to, kind, None));
    }
    assert(plys@ =~= old(plys)@ + castle_plys(board@, *square, kingside));
}

/// The moves of the king on `square`.
pub fn king_plys(board: &Board, square: &Square) -> (plys: Vec<Ply>)
    requires
        board.wf(),
        holds_type(*square, PieceType::King),
    ensures
        plys@ == king_moves(board@, *square),
{
    let mut plys: Vec<Ply> = Vec::new();
    push_step(board, square, 1, 0, &mut plys);
    push_step(board, square, 1, 1, &mut plys);
    push_step(board, square, 0, 1, &mut plys);
    push_step(board, square, -1, 1, &mut plys);
    push_step(board, square, -1, 0, &mut plys);
    push_step(board, square, -1, -1, &mut plys);
    push_step(board, square, 0, -1, &mut plys);
    push_step(board, square, 1, -1, &mut plys);
    assert(plys@ =~= king_steps(board@, *square));
    push_castle(board, square, true, &mut plys);
    push_castle(board, square, false, &mut plys);
    plys
}

/// Whether `square` is on the rank from which the pawn `piece` starts.
pub fn is_pawn_start_square(square: &Square, piece: &Piece) -> (b: bool)
    requires
        square.wf(),
    ensures
        b == (square.row == pawn_row(piece.color)),
{
    square.row() == 2 && piece.color() == Color::White || square.row() == 7 && piece.color()
        == Color::Black
}

/// Adds the plys by which the pawn on `square` arrives on `to`.
fn push_arrivals(board: &Board, square: &Square, to: &Square, plys: &mut Vec<Ply>)
    requires
        board.wf(),
        holds_type(*square, PieceType::Pawn),
        to.wf(),
        *to == board@.square(to.row as int, to.col as int),
    ensures
        final(plys)@ == old(plys)@ + arrivals(board@, *square, to.row as int, to.col as int),
{
    let color = square.piece.unwrap().color;
    let last: usize = match color {
        Color::White => 7,
        Color::Black => 0,
    };
    if to.row == last {
        plys.push(Ply::with_kind(*square, *to, PlyKind::Promotion(PieceType::Knight), to.piece));
        plys.push(Ply::with_kind(*square, *to, PlyKind::Promotion(PieceType::Bishop), to.piece));
        plys.push(Ply::with_kind(*square, *to, PlyKind::Promotion(PieceType::Rook), to.piece));
        plys.push(Ply::with_kind(*square, *to, PlyKind::Promotion(PieceType::Queen), to.piece));
    } else {
        plys.push(Ply::new(*square, *to));
    }
    assert(plys@ =~= old(plys)@ + arrivals(board@, *square, to.row as int, to.col as int));
}

/// Adds the pawn's captures towards file `col + dc`.
fn push_pawn_capture(board: &Board, square: &Square, forward: isize, dc: isize, plys: &mut Vec<Ply>)
    requires
        board.wf(),
        holds_type(*square, PieceType::Pawn),
        forward == square.piece->0.color.forward(),
        -1 <= dc <= 1,
    ensures
        final(plys)@ == old(plys)@ + pawn_capture(board@, *square, dc as int),
{
    if let Some(to) = board.get_relative_square(square, forward, dc) {
        if to.is_occupied_by_opponent(square) {
            push_arrivals(board, square, to, plys);
        } else if to.is_unoccupied() {
            let is_target = match board.en_passant {
                Some(rc) => rc.0 == to.row && rc.1 == to.col,
                None => false,
            };
            if is_target {
                let beside = &board.cells[square.row * 8 + to.col];
                let is_pawn = match beside.piece {
                    Some(piece) => piece.ty == PieceType::Pawn,
                    None => false,
                };
                if is_pawn && beside.is_occupied_by_opponent(square) {
                    plys.push(
                        Ply::with_kind(*square, *to, PlyKind::EnPassantCapture, beside.piece),
                    );
                }
            }
        }
    }
    assert(plys@ =~= old(plys)@ + pawn_capture(board@, *square, dc as int));
}

/// The moves of the pawn on `square`.
pub fn pawn_plys(board: &Board, square: &Square) -> (plys: Vec<Ply>)
    requires
        board.wf(),
        holds_type(*square, PieceType::Pawn),
    ensures
        plys@ == pawn_moves(board@, *square),
{
    let mut plys: Vec<Ply> = Vec::new();
    let piece = square.piece.unwrap();
    let forward_row: isize = if piece.color() == Color::White {
        1
    } else {
        -1
    };
    let mut free_ahead = false;
    if let Some(forward_square) = board.get_relative_square(square, forward_row, 0) {
        if forward_square.is_unoccupied() {
            free_ahead = true;
            push_arrivals(board, square, forward_square, &mut plys);
        }
    }
    assert(plys@ =~= pawn_advance(board@, *square));
    if free_ahead && is_pawn_start_square(square, &piece) {
        if let Some(forward_forward_square) = board.get_relative_square(
            square,
            forward_row * 2,
            0,
        ) {
            if forward_forward_square.is_unoccupied() {
                plys.push(
                    Ply::with_kind(*square, *forward_forward_square, PlyKind::DoublePawnPush, None),
                );
            }
        }
    }
    assert(plys@ =~= pawn_advance(board@, *square) + pawn_double(board@, *square));
    push_pawn_capture(board, square, forward_row, -1, &mut plys);
    push_pawn_capture(board, square, forward_row, 1, &mut plys);
    plys
}

/// The moves that the occupant of `square` can make by the rules of its
/// type, whether or not they leave its own king attacked.
pub fn pseudo_legal_plys(board: &Board, square: &Square) -> (plys: Vec<Ply>)
    requires
        board.wf(),
        square.wf(),
    ensures
        plys@ == pseudo_legal(board@, *square),
{
    match square.piece {
        None => Vec::new(),
        Some(piece) => match piece.ty {
            PieceType::Pawn => pawn_plys(board, square),
            PieceType::Knight => knight_plys(board, square),
            PieceType::Bishop => bishop_plys(board, square),
            PieceType::Rook => rook_plys(board, square),
            PieceType::Queen => queen_plys(board, square),
            PieceType::King => king_plys(board, square),
        },
    }
}

} // verus!
