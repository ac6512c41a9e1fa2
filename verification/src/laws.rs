//! What holds of every generated ply.

use vstd::prelude::*;
use crate::attack::{attacked, in_check, king_attacked_at};
use crate::piece::{Color, Piece, PieceType};
use crate::ply::{
    arrivals, castle_plys, diagonal_plys, king_moves, king_steps, knight_moves, pawn_advance,
    pawn_capture, pawn_double, pawn_moves, pseudo_legal, ray_from, ray_plys, step_plys,
    straight_plys, Ply, PlyKind,
};
use crate::position::{on_board, Position};
use crate::rules::{can_move, can_move_from, keeps_king_safe, legal, safe_for, side_legal};
use crate::square::{opponents, Square};

verus! {

/// Whether `from` is a square of the board as it stands in `p`, occupant
/// included.
pub open spec fn faithful(p: Position, from: Square) -> bool {
    from.wf() && from == p.square(from.row as int, from.col as int)
}

/// What a ply that the rules propose from `from` records of the position:
/// its origin is `from`, its destination is a square of the board as it
/// stands, and by its kind it records the piece it takes and finds empty the
/// squares that it needs empty.
pub open spec fn generated(p: Position, from: Square, ply: Ply) -> bool {
    let fr = from.row as int;
    let fc = from.col as int;
    let tr = ply.to.row as int;
    let tc = ply.to.col as int;
    &&& ply.from == from
    &&& ply.to.wf()
    &&& ply.to == p.square(tr, tc)
    &&& match ply.kind {
        PlyKind::Promotion(ty) => {
            &&& from.piece is Some
            &&& from.piece->0.ty == PieceType::Pawn
            &&& ty != PieceType::King
            &&& ty != PieceType::Pawn
        },
        _ => true,
    }
    &&& match ply.kind {
        PlyKind::Normal | PlyKind::Promotion(_) => {
            &&& ply.captured == p.at(tr, tc)
            &&& (p.at(tr, tc) is None || opponents(p.at(tr, tc), from.piece))
            &&& (from.piece is Some && from.piece->0.ty == PieceType::Pawn && tc == fc ==> p.at(
                tr,
                tc,
            ) is None)
        },
        PlyKind::DoublePawnPush => ply.captured is None && p.at(tr, tc) is None,
        PlyKind::EnPassantCapture => {
            &&& p.at(tr, tc) is None
            &&& tr != fr
            &&& ply.captured == p.at(fr, tc)
            &&& opponents(ply.captured, from.piece)
            &&& ply.captured->0.ty == PieceType::Pawn
        },
        PlyKind::CastleKingside => {
            &&& ply.captured is None
            &&& fc == 4
            &&& tr == fr
            &&& tc == 6
            &&& p.at(fr, 5) is None
            &&& p.at(fr, 6) is None
            &&& p.at(fr, 7) is Some
            &&& p.at(fr, 7)->0.ty == PieceType::Rook
        },
        PlyKind::CastleQueenside => {
            &&& ply.captured is None
            &&& fc == 4
            &&& tr == fr
            &&& tc == 2
            &&& p.at(fr, 0) is Some
            &&& p.at(fr, 0)->0.ty == PieceType::Rook
            &&& p.at(fr, 1) is None
            &&& p.at(fr, 2) is None
            &&& p.at(fr, 3) is None
        },
    }
}

/// Whether the occupant of `from`, if any, is no pawn.
pub open spec fn no_pawn(from: Square) -> bool {
    from.piece is Some ==> from.piece->0.ty != PieceType::Pawn
}

/// Every ply of `s` is `generated`.
pub open spec fn all_generated(p: Position, from: Square, s: Seq<Ply>) -> bool {
    forall|i: int| 0 <= i < s.len() ==> generated(p, from, #[trigger] s[i])
}

proof fn lemma_joined(p: Position, from: Square, a: Seq<Ply>, b: Seq<Ply>)
    requires
        all_generated(p, from, a),
        all_generated(p, from, b),
    ensures
        all_generated(p, from, a + b),
{
    assert forall|i: int| 0 <= i < (a + b).len() implies generated(p, from, #[trigger] (a + b)[i]) by {
        if i < a.len() {
            assert((a + b)[i] == a[i]);
        } else {
            assert((a + b)[i] == b[i - a.len()]);
        }
    }
}

proof fn lemma_step(p: Position, from: Square, dr: int, dc: int)
    requires
        p.wf(),
        faithful(p, from),
        no_pawn(from),
    ensures
        all_generated(p, from, step_plys(p, from, dr, dc)),
{
}

proof fn lemma_ray(p: Position, from: Square, r: int, c: int, dr: int, dc: int, fuel: nat)
    requires
        p.wf(),
        faithful(p, from),
        no_pawn(from),
    ensures
        all_generated(p, from, ray_plys(p, from, r, c, dr, dc, fuel)),
    decreases fuel,
{
    if fuel == 0 || !on_board(r + dr, c + dc) {
    } else if p.at(r + dr, c + dc) is None {
        lemma_ray(p, from, r + dr, c + dc, dr, dc, (fuel - 1) as nat);
        let head = seq![crate::ply::plain_ply(p, from, r + dr, c + dc)];
        assert(all_generated(p, from, head));
        lemma_joined(p, from, head, ray_plys(p, from, r + dr, c + dc, dr, dc, (fuel - 1) as nat));
    } else {
    }
}

proof fn lemma_straight(p: Position, from: Square)
    requires
        p.wf(),
        faithful(p, from),
        no_pawn(from),
    ensures
        all_generated(p, from, straight_plys(p, from)),
{
    let r = from.row as int;
    let c = from.col as int;
    lemma_ray(p, from, r, c, 1, 0, 7);
    lemma_ray(p, from, r, c, 0, 1, 7);
    lemma_ray(p, from, r, c, -1, 0, 7);
    lemma_ray(p, from, r, c, 0, -1, 7);
    let a = ray_from(p, from, 1, 0);
    let b = ray_from(p, from, 0, 1);
    let d = ray_from(p, from, -1, 0);
    lemma_joined(p, from, a, b);
    lemma_joined(p, from, a + b, d);
    lemma_joined(p, from, a + b + d, ray_from(p, from, 0, -1));
}

proof fn lemma_diagonal(p: Position, from: Square)
    requires
        p.wf(),
        faithful(p, from),
        no_pawn(from),
    ensures
        all_generated(p, from, diagonal_plys(p, from)),
{
    let r = from.row as int;
    let c = from.col as int;
    lemma_ray(p, from, r, c, 1, 1, 7);
    lemma_ray(p, from, r, c, -1, 1, 7);
    lemma_ray(p, from, r, c, -1, -1, 7);
    lemma_ray(p, from, r, c, 1, -1, 7);
    let a = ray_from(p, from, 1, 1);
    let b = ray_from(p, from, -1, 1);
    let d = ray_from(p, from, -1, -1);
    lemma_joined(p, from, a, b);
    lemma_joined(p, from, a + b, d);
    lemma_joined(p, from, a + b + d, ray_from(p, from, 1, -1));
}

proof fn lemma_eight(
    p: Position,
    from: Square,
    a: Seq<Ply>,
    b: Seq<Ply>,
    c: Seq<Ply>,
    d: Seq<Ply>,
    e: Seq<Ply>,
    f: Seq<Ply>,
    g: Seq<Ply>,
    h: Seq<Ply>,
)
    requires
        all_generated(p, from, a),
        all_generated(p, from, b),
        all_generated(p, from, c),
        all_generated(p, from, d),
        all_generated(p, from, e),
        all_generated(p, from, f),
        all_generated(p, from, g),
        all_generated(p, from, h),
    ensures
        all_generated(p, from, a + b + c + d + e + f + g + h),
{
    lemma_joined(p, from, a, b);
    lemma_joined(p, from, a + b, c);
    lemma_joined(p, from, a + b + c, d);
    lemma_joined(p, from, a + b + c + d, e);
    lemma_joined(p, from, a + b + c + d + e, f);
    lemma_joined(p, from, a + b + c + d + e + f, g);
    lemma_joined(p, from, a + b + c + d + e + f + g, h);
}

proof fn lemma_knight(p: Position, from: Square)
    requires
        p.wf(),
        faithful(p, from),
        no_pawn(from),
    ensures
        all_generated(p, from, knight_moves(p, from)),
{
    lemma_step(p, from, 2, 1);
    lemma_step(p, from, 1, 2);
    lemma_step(p, from, -1, 2);
    lemma_step(p, from, -2, 1);
    lemma_step(p, from, -2, -1);
    lemma_step(p, from, -1, -2);
    lemma_step(p, from, 1, -2);
    lemma_step(p, from, 2, -1);
    lemma_eight(
        p,
        from,
        step_plys(p, from, 2, 1),
        step_plys(p, from, 1, 2),
        step_plys(p, from, -1, 2),
        step_plys(p, from, -2, 1),
        step_plys(p, from, -2, -1),
        step_plys(p, from, -1, -2),
        step_plys(p, from, 1, -2),
        step_plys(p, from, 2, -1),
    );
}

proof fn lemma_king_steps(p: Position, from: Square)
    requires
        p.wf(),
        faithful(p, from),
        no_pawn(from),
    ensures
        all_generated(p, from, king_steps(p, from)),
{
    lemma_step(p, from, 1, 0);
    lemma_step(p, from, 1, 1);
    lemma_step(p, from, 0, 1);
    lemma_step(p, from, -1, 1);
    lemma_step(p, from, -1, 0);
    lemma_step(p, from, -1, -1);
    lemma_step(p, from, 0, -1);
    lemma_step(p, from, 1, -1);
    lemma_eight(
        p,
        from,
        step_plys(p, from, 1, 0),
        step_plys(p, from, 1, 1),
        step_plys(p, from, 0, 1),
        step_plys(p, from, -1, 1),
        step_plys(p, from, -1, 0),
        step_plys(p, from, -1, -1),
        step_plys(p, from, 0, -1),
        step_plys(p, from, 1, -1),
    );
}

proof fn lemma_castle(p: Position, from: Square, kingside: bool)
    requires
        p.wf(),
        faithful(p, from),
    ensures
        all_generated(p, from, castle_plys(p, from, kingside)),
{
}

proof fn lemma_king(p: Position, from: Square)
    requires
        p.wf(),
        faithful(p, from),
        no_pawn(from),
    ensures
        all_generated(p, from, king_moves(p, from)),
{
    lemma_king_steps(p, from);
    lemma_castle(p, from, true);
    lemma_castle(p, from, false);
    lemma_joined(p, from, king_steps(p, from), castle_plys(p, from, true));
    lemma_joined(
        p,
        from,
        king_steps(p, from) + castle_plys(p, from, true),
        castle_plys(p, from, false),
    );
}

proof fn lemma_arrivals(p: Position, from: Square, r: int, c: int)
    requires
        p.wf(),
        faithful(p, from),
        on_board(r, c),
        from.piece is Some,
        from.piece->0.ty == PieceType::Pawn,
        p.at(r, c) is None || (c != from.col && opponents(p.at(r, c), from.piece)),
    ensures
        all_generated(p, from, arrivals(p, from, r, c)),
{
}

proof fn lemma_pawn(p: Position, from: Square)
    requires
        p.wf(),
        faithful(p, from),
        from.piece is Some,
        from.piece->0.ty == PieceType::Pawn,
    ensures
        all_generated(p, from, pawn_moves(p, from)),
{
    let r = from.row + from.piece->0.color.forward();
    let c = from.col as int;
    if on_board(r, c) && p.at(r, c) is None {
        lemma_arrivals(p, from, r, c);
    }
    if on_board(r, c - 1) && opponents(p.at(r, c - 1), from.piece) {
        lemma_arrivals(p, from, r, c - 1);
    }
    if on_board(r, c + 1) && opponents(p.at(r, c + 1), from.piece) {
        lemma_arrivals(p, from, r, c + 1);
    }
    assert(all_generated(p, from, pawn_advance(p, from)));
    assert(all_generated(p, from, pawn_double(p, from)));
    assert(all_generated(p, from, pawn_capture(p, from, -1)));
    assert(all_generated(p, from, pawn_capture(p, from, 1)));
    lemma_joined(p, from, pawn_advance(p, from), pawn_double(p, from));
    lemma_joined(
        p,
        from,
        pawn_advance(p, from) + pawn_double(p, from),
        pawn_capture(p, from, -1),
    );
    lemma_joined(
        p,
        from,
        pawn_advance(p, from) + pawn_double(p, from) + pawn_capture(p, from, -1),
        pawn_capture(p, from, 1),
    );
}

/// Every pseudo-legal ply from a square of the board records the position
/// truthfully: see `generated`.
pub proof fn lemma_pseudo_legal_generated(p: Position, from: Square)
    requires
        p.wf(),
        faithful(p, from),
    ensures
        all_generated(p, from, pseudo_legal(p, from)),
{
    match from.piece {
        None => {},
        Some(piece) => match piece.ty {
            PieceType::Pawn => lemma_pawn(p, from),
            PieceType::Knight => lemma_knight(p, from),
            PieceType::Bishop => lemma_diagonal(p, from),
            PieceType::Rook => lemma_straight(p, from),
            PieceType::Queen => {
                lemma_straight(p, from);
                lemma_diagonal(p, from);
                lemma_joined(p, from, straight_plys(p, from), diagonal_plys(p, from));
            },
            PieceType::King => lemma_king(p, from),
        },
    }
}

/// Applying a pseudo-legal ply and then taking it back, with the castling
/// rights and the en-passant target that held before, gives back every
/// occupant, the side to move, the rights and the target. The move number
/// never goes down.
pub proof fn lemma_apply_then_revert(p: Position, from: Square, i: int)
    requires
        p.wf(),
        faithful(p, from),
        0 <= i < pseudo_legal(p, from).len(),
    ensures
        ({
            let ply = pseudo_legal(p, from)[i];
            let back = p.apply(ply).revert(ply, p.rights, p.en_passant);
            &&& p.accepts(ply)
            &&& back.cells == p.cells
            &&& back.side == p.side
            &&& back.rights == p.rights
            &&& back.en_passant == p.en_passant
            &&& back.fullmove >= p.fullmove
        }),
{
    lemma_pseudo_legal_generated(p, from);
    let ply = pseudo_legal(p, from)[i];
    assert(generated(p, from, ply));
    let back = p.apply(ply).revert(ply, p.rights, p.en_passant);
    assert(back.cells =~= p.cells);
}

/// Each element of a filtered sequence passes the test and stands in the
/// sequence that was filtered.
proof fn lemma_filtered(s: Seq<Ply>, keep: spec_fn(Ply) -> bool, i: int)
    requires
        0 <= i < s.filter(keep).len(),
    ensures
        keep(s.filter(keep)[i]),
        s.contains(s.filter(keep)[i]),
    decreases s.len(),
{
    reveal(Seq::filter);
    if s.len() > 0 {
        let front = s.drop_last();
        if i < front.filter(keep).len() {
            lemma_filtered(front, keep, i);
            let j = choose|j: int| 0 <= j < front.len() && front[j] == front.filter(keep)[i];
            assert(s[j] == s.filter(keep)[i]);
        } else {
            assert(s[s.len() - 1] == s.filter(keep)[i]);
        }
    }
}

/// A legal ply is a pseudo-legal ply of the same square that can be applied
/// and after which no king of the mover's color is attacked.
pub proof fn lemma_legal_is_safe(p: Position, from: Square, i: int)
    requires
        0 <= i < legal(p, from).len(),
    ensures
        from.piece is Some,
        pseudo_legal(p, from).contains(legal(p, from)[i]),
        p.accepts(legal(p, from)[i]),
        !in_check(p.apply(legal(p, from)[i]), from.piece->0.color),
{
    lemma_filtered(pseudo_legal(p, from), safe_for(p, from.piece->0.color), i);
    assert(keeps_king_safe(p, from.piece->0.color, legal(p, from)[i]));
}

/// After a generated ply that does not promote, the piece that stood on the
/// origin stands on the destination.
proof fn lemma_mover_arrives(p: Position, from: Square, ply: Ply)
    requires
        p.wf(),
        faithful(p, from),
        from.piece is Some,
        generated(p, from, ply),
        !(ply.kind is Promotion),
    ensures
        p.apply(ply).at(ply.to.row as int, ply.to.col as int) == from.piece,
{
}

/// A king never moves onto a square that the other side attacks once the
/// move is made.
pub proof fn lemma_king_lands_safely(p: Position, from: Square, i: int)
    requires
        p.wf(),
        faithful(p, from),
        from.piece is Some,
        from.piece->0.ty == PieceType::King,
        0 <= i < legal(p, from).len(),
    ensures
        ({
            let ply = legal(p, from)[i];
            !attacked(p.apply(ply), ply.to.row as int, ply.to.col as int, from.piece->0.color.other())
        }),
{
    lemma_legal_is_safe(p, from, i);
    lemma_pseudo_legal_generated(p, from);
    let ply = legal(p, from)[i];
    let j = choose|j: int| 0 <= j < pseudo_legal(p, from).len() && pseudo_legal(p, from)[j] == ply;
    assert(generated(p, from, pseudo_legal(p, from)[j]));
    lemma_mover_arrives(p, from, ply);
    if attacked(p.apply(ply), ply.to.row as int, ply.to.col as int, from.piece->0.color.other()) {
        lemma_checked_where_attacked(p.apply(ply), ply.to, from.piece);
    }
}

/// A king that stands on an attacked square is in check.
proof fn lemma_checked_where_attacked(p: Position, at: Square, king: Option<crate::piece::Piece>)
    requires
        at.wf(),
        king is Some,
        king->0.ty == PieceType::King,
        p.at(at.row as int, at.col as int) == king,
        attacked(p, at.row as int, at.col as int, king->0.color.other()),
    ensures
        in_check(p, king->0.color),
{
    let t = at.row * 8 + at.col;
    assert(t / 8 == at.row && t % 8 == at.col);
    assert(king_attacked_at(p, t, king->0.color));
}

/// Whether no piece of the position has the identity `id`.
pub open spec fn absent(p: Position, id: u64) -> bool {
    forall|i: int| 0 <= i < 64 && (#[trigger] p.cells[i]) is Some ==> p.cells[i]->0.id != id
}

proof fn lemma_emptied(p: Position, r: int, c: int, bound: u64)
    requires
        p.wf(),
        on_board(r, c),
        p.distinct_ids(),
        p.ids_below(bound),
    ensures
        p.put(r, c, None).wf(),
        p.put(r, c, None).distinct_ids(),
        p.put(r, c, None).ids_below(bound),
        p.at(r, c) is Some ==> absent(p.put(r, c, None), p.at(r, c)->0.id),
{
    let q = p.put(r, c, None);
    assert forall|i: int| 0 <= i < 64 implies (#[trigger] q.cells[i]) == if i == r * 8 + c {
        None
    } else {
        p.cells[i]
    } by {}
}

proof fn lemma_filled(p: Position, r: int, c: int, piece: Option<Piece>, bound: u64)
    requires
        p.wf(),
        on_board(r, c),
        p.distinct_ids(),
        p.ids_below(bound),
        piece is Some ==> absent(p, piece->0.id) && piece->0.id < bound,
    ensures
        p.put(r, c, piece).wf(),
        p.put(r, c, piece).distinct_ids(),
        p.put(r, c, piece).ids_below(bound),
{
    let q = p.put(r, c, piece);
    assert forall|i: int| 0 <= i < 64 implies (#[trigger] q.cells[i]) == if i == r * 8 + c {
        piece
    } else {
        p.cells[i]
    } by {}
}

/// Applying a ply never makes two pieces share an identity, and brings no
/// identity onto the board that was not there: every piece keeps its own, a
/// promoted pawn too.
pub proof fn lemma_apply_keeps_identities(p: Position, ply: Ply, bound: u64)
    requires
        p.wf(),
        p.accepts(ply),
        p.distinct_ids(),
        p.ids_below(bound),
    ensures
        p.apply(ply).distinct_ids(),
        p.apply(ply).ids_below(bound),
{
    let fr = ply.from.row as int;
    let fc = ply.from.col as int;
    let tr = ply.to.row as int;
    let tc = ply.to.col as int;
    let mover = p.at(fr, fc)->0;
    let placed = match ply.kind {
        PlyKind::Promotion(ty) => mover.retyped(ty),
        _ => mover,
    };
    assert(mover.id < bound);
    lemma_emptied(p, fr, fc, bound);
    let lifted = p.put(fr, fc, None);
    lemma_filled(lifted, tr, tc, Some(placed), bound);
    let base = lifted.put(tr, tc, Some(placed));
    match ply.kind {
        PlyKind::EnPassantCapture => {
            lemma_emptied(base, fr, tc, bound);
        },
        PlyKind::CastleKingside => {
            lemma_emptied(base, fr, 7, bound);
            lemma_filled(base.put(fr, 7, None), fr, 5, base.at(fr, 7), bound);
        },
        PlyKind::CastleQueenside => {
            lemma_emptied(base, fr, 0, bound);
            lemma_filled(base.put(fr, 0, None), fr, 3, base.at(fr, 0), bound);
        },
        _ => {},
    }
    assert(p.apply(ply).cells == p.moved(ply).cells);
}

/// In the starting position no two pieces share an identity.
pub proof fn lemma_start_identities()
    ensures
        crate::board::starting_position().distinct_ids(),
{
}

/// Whether a piece of `color` on one of the first `n` cells has a legal move.
pub open spec fn can_move_within(p: Position, color: Color, n: int) -> bool {
    exists|i: int| 0 <= i < n && can_move_from(p, i, color)
}

proof fn lemma_side_prefix(p: Position, color: Color, n: nat)
    ensures
        side_legal(p, color, n).len() > 0 <==> can_move_within(p, color, n as int),
    decreases n,
{
    if n > 0 {
        lemma_side_prefix(p, color, (n - 1) as nat);
        if can_move_within(p, color, n as int) {
            let i = choose|i: int| 0 <= i < n && can_move_from(p, i, color);
            if i < n - 1 {
                assert(can_move_within(p, color, n - 1));
            }
        }
        if can_move_within(p, color, n - 1) {
            let i = choose|i: int| 0 <= i < n - 1 && can_move_from(p, i, color);
            assert(can_move_from(p, i, color));
        }
        if can_move_from(p, n - 1, color) {
            assert(can_move_within(p, color, n as int));
        }
    }
}

/// A side can move exactly when the list of its legal moves is not empty.
pub proof fn lemma_can_move_iff_some_legal(p: Position, color: Color)
    ensures
        can_move(p, color) <==> side_legal(p, color, 64).len() > 0,
{
    lemma_side_prefix(p, color, 64);
    if can_move(p, color) {
        let i = choose|i: int| 0 <= i < 64 && can_move_from(p, i, color);
        assert(can_move_from(p, i, color));
    }
    if can_move_within(p, color, 64) {
        let i = choose|i: int| 0 <= i < 64 && can_move_from(p, i, color);
        assert(can_move_from(p, i, color));
    }
}

/// The rules propose nothing from an empty square.
pub proof fn lemma_empty_square_has_no_moves(p: Position, from: Square)
    requires
        from.piece is None,
    ensures
        pseudo_legal(p, from).len() == 0,
        legal(p, from).len() == 0,
{
}

} // verus!
