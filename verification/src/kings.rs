//! The kings: no ply that the rules propose removes a king that is not in
//! check, none makes a second one, and no king steps where a queen bears on it.

use vstd::prelude::*;
use crate::attack::{first_seen, in_check, is_piece};
use crate::laws::{
    faithful, generated, lemma_king_lands_safely, lemma_legal_is_safe, lemma_pseudo_legal_generated,
};
use crate::piece::{Color, Piece, PieceType};
use crate::ply::{pseudo_legal, Ply, PlyKind};
use crate::position::{on_board, Position};
use crate::reach::{king_step, lemma_king_taken_only_in_check, lemma_line_attacks};
use crate::rules::legal;
use crate::square::Square;

verus! {

/// Whether cell `i` holds a king of `color`.
pub open spec fn king_at(p: Position, i: int, color: Color) -> bool {
    0 <= i < 64 && is_piece(p.cells[i], color, PieceType::King)
}

/// Whether cell `i` holds the only king of `color`.
pub open spec fn sole_king_at(p: Position, i: int, color: Color) -> bool {
    king_at(p, i, color) && forall|j: int| #[trigger] king_at(p, j, color) ==> j == i
}

/// Whether the position holds exactly one king of `color`.
pub open spec fn one_king(p: Position, color: Color) -> bool {
    exists|i: int| sole_king_at(p, i, color)
}

/// The occupant of cell `i` after a generated ply, cell by cell.
pub open spec fn cell_after(p: Position, ply: Ply, i: int) -> Option<Piece> {
    let row = ply.from.row * 8;
    let f = row + ply.from.col;
    let t = ply.to.row * 8 + ply.to.col;
    let mover = p.cells[f]->0;
    if i == t {
        match ply.kind {
            PlyKind::Promotion(ty) => Some(mover.retyped(ty)),
            _ => Some(mover),
        }
    } else if i == f {
        None
    } else {
        match ply.kind {
            PlyKind::EnPassantCapture => if i == row + ply.to.col {
                None
            } else {
                p.cells[i]
            },
            PlyKind::CastleKingside => if i == row + 7 {
                None
            } else if i == row + 5 {
                p.cells[row + 7]
            } else {
                p.cells[i]
            },
            PlyKind::CastleQueenside => if i == row {
                None
            } else if i == row + 3 {
                p.cells[row as int]
            } else {
                p.cells[i]
            },
            _ => p.cells[i],
        }
    }
}

proof fn lemma_cells_after(p: Position, from: Square, ply: Ply)
    requires
        p.wf(),
        faithful(p, from),
        from.piece is Some,
        generated(p, from, ply),
    ensures
        forall|i: int| 0 <= i < 64 ==> #[trigger] p.apply(ply).cells[i] == cell_after(p, ply, i),
{
}

/// The cell on which the piece of cell `k` stands after a generated ply
/// that does not take it.
pub open spec fn cell_of(ply: Ply, k: int) -> int {
    let row = ply.from.row * 8;
    if k == row + ply.from.col {
        ply.to.row * 8 + ply.to.col
    } else if ply.kind == PlyKind::CastleKingside && k == row + 7 {
        row + 5
    } else if ply.kind == PlyKind::CastleQueenside && k == row {
        row + 3
    } else {
        k
    }
}

/// A position with exactly one king of a color still has exactly one after
/// any pseudo-legal ply, provided that the ply is that side's own or that the
/// king is not in check: the rules never propose to take a king that is not
/// attacked, and no promotion makes a king.
pub proof fn lemma_one_king_kept(p: Position, from: Square, i: int, color: Color)
    requires
        p.wf(),
        faithful(p, from),
        0 <= i < pseudo_legal(p, from).len(),
        one_king(p, color),
        from.piece->0.color == color || !in_check(p, color),
    ensures
        one_king(p.apply(pseudo_legal(p, from)[i]), color),
{
    let ply = pseudo_legal(p, from)[i];
    let q = p.apply(ply);
    lemma_pseudo_legal_generated(p, from);
    assert(generated(p, from, ply));
    lemma_cells_after(p, from, ply);
    let k = choose|k: int| sole_king_at(p, k, color);
    let t = ply.to.row * 8 + ply.to.col;
    let f = ply.from.row * 8 + ply.from.col;
    if ply.captured is Some && ply.captured->0.ty == PieceType::King {
        lemma_king_taken_only_in_check(p, from, i);
    }
    assert(k == t ==> k == f) by {
        if k == t && k != f {
            assert(p.at(ply.to.row as int, ply.to.col as int) == p.cells[k]);
        }
    }
    let j = cell_of(ply, k);
    assert(q.cells[j] == cell_after(p, ply, j));
    assert(king_at(q, j, color));
    assert forall|m: int| #[trigger] king_at(q, m, color) implies m == j by {
        assert(q.cells[m] == cell_after(p, ply, m));
        if m == t {
            assert(king_at(p, f, color));
        } else if ply.kind == PlyKind::CastleKingside && m == ply.from.row * 8 + 5 {
            assert(king_at(p, ply.from.row * 8 + 7, color));
        } else if ply.kind == PlyKind::CastleQueenside && m == ply.from.row * 8 + 3 {
            assert(king_at(p, ply.from.row * 8, color));
        } else {
            assert(king_at(p, m, color));
        }
    }
    assert(sole_king_at(q, j, color));
}

/// Whether an opposing queen on rank `qr`, file `qc` bears on the
/// destination of the king's ply along (`dr`, `dc`): she stands next to the
/// destination, or one square further with the square that the king leaves
/// between them.
pub open spec fn queen_bears(from: Square, ply: Ply, qr: int, qc: int, dr: int, dc: int) -> bool {
    let tr = ply.to.row as int;
    let tc = ply.to.col as int;
    &&& king_step(dr, dc)
    &&& {
        ||| qr == tr + dr && qc == tc + dc
        ||| from.row == tr + dr && from.col == tc + dc && qr == tr + 2 * dr && qc == tc + 2 * dc
    }
}

/// A king never steps onto a square next to an opposing queen, unless it
/// takes her, and never straight away from a queen that stands next to it:
/// no legal ply of a king ends where a queen of the other side bears on it.
pub proof fn lemma_king_shuns_queen(p: Position, from: Square, i: int, qr: int, qc: int, dr: int, dc: int)
    requires
        p.wf(),
        faithful(p, from),
        from.piece is Some,
        from.piece->0.ty == PieceType::King,
        0 <= i < legal(p, from).len(),
        on_board(qr, qc),
        is_piece(p.at(qr, qc), from.piece->0.color.other(), PieceType::Queen),
    ensures
        !queen_bears(from, legal(p, from)[i], qr, qc, dr, dc),
{
    let ply = legal(p, from)[i];
    let by = from.piece->0.color.other();
    if queen_bears(from, ply, qr, qc, dr, dc) {
        lemma_legal_is_safe(p, from, i);
        lemma_king_lands_safely(p, from, i);
        lemma_pseudo_legal_generated(p, from);
        let j = choose|j: int| 0 <= j < pseudo_legal(p, from).len() && pseudo_legal(p, from)[j] == ply;
        assert(generated(p, from, pseudo_legal(p, from)[j]));
        lemma_cells_after(p, from, ply);
        let after = p.apply(ply);
        let tr = ply.to.row as int;
        let tc = ply.to.col as int;
        let q = qr * 8 + qc;
        assert(after.cells[q] == cell_after(p, ply, q));
        assert(after.at(qr, qc) == p.at(qr, qc));
        if qr == tr + dr && qc == tc + dc {
            assert(first_seen(after, tr, tc, dr, dc, 7) == p.at(qr, qc));
        } else {
            let f = from.row * 8 + from.col;
            assert(after.cells[f] == cell_after(p, ply, f));
            assert(after.at(tr + dr, tc + dc) is None);
            assert(first_seen(after, tr + dr, tc + dc, dr, dc, 6) == p.at(qr, qc));
            assert(first_seen(after, tr, tc, dr, dc, 7) == p.at(qr, qc));
        }
        lemma_line_attacks(after, tr, tc, dr, dc, p.at(qr, qc)->0);
    }
}

} // verus!
