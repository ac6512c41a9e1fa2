//! How move generation and attack detection agree: where a piece can
//! capture, its side attacks.

use vstd::prelude::*;
use crate::attack::{attacked, first_seen, in_check, king_attacked_at};
use crate::laws::{all_generated, faithful, generated, lemma_pseudo_legal_generated};
use crate::piece::PieceType;
use crate::ply::{
    castle_plys, diagonal_plys, king_moves, king_steps, knight_moves, pawn_advance, pawn_capture,
    pawn_double, pawn_moves, pseudo_legal, ray_from, ray_plys, step_plys, straight_plys, Ply,
};
use crate::position::{on_board, Position};
use crate::square::Square;

verus! {

/// Whether `ply` goes where its piece could capture: an ordinary move or a
/// promotion, and for a pawn one that leaves its file.
pub open spec fn bears_on_target(ply: Ply) -> bool {
    &&& ply.kind is Normal || ply.kind is Promotion
    &&& !(ply.from.piece->0.ty == PieceType::Pawn && ply.to.col == ply.from.col)
}

/// Whether the side of the piece on `from` attacks the destination of `ply`,
/// where `ply` bears on it.
pub open spec fn hits(p: Position, from: Square, ply: Ply) -> bool {
    bears_on_target(ply) ==> attacked(
        p,
        ply.to.row as int,
        ply.to.col as int,
        from.piece->0.color,
    )
}

/// Every ply of `s` starts on `from` and `hits`.
pub open spec fn all_hit(p: Position, from: Square, s: Seq<Ply>) -> bool {
    forall|i: int| 0 <= i < s.len() ==> (#[trigger] s[i]).from == from && hits(p, from, s[i])
}

proof fn lemma_joined_hits(p: Position, from: Square, a: Seq<Ply>, b: Seq<Ply>)
    requires
        all_hit(p, from, a),
        all_hit(p, from, b),
    ensures
        all_hit(p, from, a + b),
{
    assert forall|i: int| 0 <= i < (a + b).len() implies (#[trigger] (a + b)[i]).from == from
        && hits(p, from, (a + b)[i]) by {
        if i < a.len() {
            assert((a + b)[i] == a[i]);
        } else {
            assert((a + b)[i] == b[i - a.len()]);
        }
    }
}

proof fn lemma_eight_hits(
    p: Position,
    from: Square,
    a: Seq<Ply>,
    b: Seq<Ply>,
    c: Seq<Ply>,
    d: Seq<Ply>,
    e: Seq<Ply>,
    f: Seq<Ply>,
    g: Seq<Ply>,
    h: Seq<Ply>,
)
    requires
        all_hit(p, from, a),
        all_hit(p, from, b),
        all_hit(p, from, c),
        all_hit(p, from, d),
        all_hit(p, from, e),
        all_hit(p, from, f),
        all_hit(p, from, g),
        all_hit(p, from, h),
    ensures
        all_hit(p, from, a + b + c + d + e + f + g + h),
{
    lemma_joined_hits(p, from, a, b);
    lemma_joined_hits(p, from, a + b, c);
    lemma_joined_hits(p, from, a + b + c, d);
    lemma_joined_hits(p, from, a + b + c + d, e);
    lemma_joined_hits(p, from, a + b + c + d + e, f);
    lemma_joined_hits(p, from, a + b + c + d + e + f, g);
    lemma_joined_hits(p, from, a + b + c + d + e + f + g, h);
}

/// What is first seen within some steps is first seen within more.
proof fn lemma_seen_further(p: Position, r: int, c: int, dr: int, dc: int, f: nat, g: nat)
    requires
        f <= g,
        first_seen(p, r, c, dr, dc, f) is Some,
    ensures
        first_seen(p, r, c, dr, dc, g) == first_seen(p, r, c, dr, dc, f),
    decreases f,
{
    if f > 0 && on_board(r + dr, c + dc) && p.at(r + dr, c + dc) is None {
        lemma_seen_further(p, r + dr, c + dc, dr, dc, (f - 1) as nat, (g - 1) as nat);
    }
}

/// Whether every ply of `s` starts on `from` and, looking back from its
/// destination against the direction (`dr`, `dc`), first meets the piece on
/// `from`.
pub open spec fn all_seen_back(p: Position, from: Square, dr: int, dc: int, s: Seq<Ply>) -> bool {
    forall|i: int|
        0 <= i < s.len() ==> (#[trigger] s[i]).from == from && s[i].kind is Normal && first_seen(
            p,
            s[i].to.row as int,
            s[i].to.col as int,
            -dr,
            -dc,
            7,
        ) == from.piece
}

proof fn lemma_ray_seen_back(
    p: Position,
    from: Square,
    r: int,
    c: int,
    dr: int,
    dc: int,
    fuel: nat,
    back: nat,
)
    requires
        p.wf(),
        faithful(p, from),
        from.piece is Some,
        on_board(r, c),
        fuel + back <= 7,
        (r == from.row && c == from.col) || (p.at(r, c) is None && first_seen(
            p,
            r,
            c,
            -dr,
            -dc,
            back,
        ) == from.piece),
    ensures
        all_seen_back(p, from, dr, dc, ray_plys(p, from, r, c, dr, dc, fuel)),
    decreases fuel,
{
    if fuel == 0 || !on_board(r + dr, c + dc) {
    } else {
        let nr = r + dr;
        let nc = c + dc;
        assert(nr + (-dr) == r && nc + (-dc) == c);
        assert(first_seen(p, nr, nc, -dr, -dc, (back + 1) as nat) == from.piece);
        lemma_seen_further(p, nr, nc, -dr, -dc, (back + 1) as nat, 7);
        let head = crate::ply::plain_ply(p, from, nr, nc);
        assert(head.to.row as int == nr && head.to.col as int == nc);
        if p.at(nr, nc) is None {
            let rest = ray_plys(p, from, nr, nc, dr, dc, (fuel - 1) as nat);
            lemma_ray_seen_back(p, from, nr, nc, dr, dc, (fuel - 1) as nat, (back + 1) as nat);
            let all = seq![head] + rest;
            assert forall|i: int| 0 <= i < all.len() implies (#[trigger] all[i]).from == from
                && all[i].kind is Normal && first_seen(
                p,
                all[i].to.row as int,
                all[i].to.col as int,
                -dr,
                -dc,
                7,
            ) == from.piece by {
                if i == 0 {
                    assert(all[i] == head);
                } else {
                    assert(all[i] == rest[i - 1]);
                }
            }
        }
    }
}

/// Whether a piece of type `ty` moves along the direction (`dr`, `dc`).
pub open spec fn slides_along(ty: PieceType, dr: int, dc: int) -> bool {
    &&& -1 <= dr <= 1
    &&& -1 <= dc <= 1
    &&& !(dr == 0 && dc == 0)
    &&& if dr == 0 || dc == 0 {
        ty == PieceType::Rook || ty == PieceType::Queen
    } else {
        ty == PieceType::Bishop || ty == PieceType::Queen
    }
}

proof fn lemma_ray_hits(p: Position, from: Square, dr: int, dc: int)
    requires
        p.wf(),
        faithful(p, from),
        from.piece is Some,
        slides_along(from.piece->0.ty, dr, dc),
    ensures
        all_hit(p, from, ray_from(p, from, dr, dc)),
{
    lemma_ray_seen_back(p, from, from.row as int, from.col as int, dr, dc, 7, 0);
    let s = ray_from(p, from, dr, dc);
    assert forall|i: int| 0 <= i < s.len() implies (#[trigger] s[i]).from == from && hits(
        p,
        from,
        s[i],
    ) by {
        let t = s[i].to;
        assert(first_seen(p, t.row as int, t.col as int, -dr, -dc, 7) == from.piece);
        lemma_line_attacks(p, t.row as int, t.col as int, -dr, -dc, from.piece->0);
    }
}

/// A rook, bishop or queen that is first seen along one of its lines
/// attacks.
pub proof fn lemma_line_attacks(p: Position, r: int, c: int, dr: int, dc: int, piece: crate::piece::Piece)
    requires
        slides_along(piece.ty, dr, dc),
        first_seen(p, r, c, dr, dc, 7) == Some(piece),
    ensures
        attacked(p, r, c, piece.color),
{
}

proof fn lemma_straight_hits(p: Position, from: Square)
    requires
        p.wf(),
        faithful(p, from),
        from.piece is Some,
        from.piece->0.ty == PieceType::Rook || from.piece->0.ty == PieceType::Queen,
    ensures
        all_hit(p, from, straight_plys(p, from)),
{
    lemma_ray_hits(p, from, 1, 0);
    lemma_ray_hits(p, from, 0, 1);
    lemma_ray_hits(p, from, -1, 0);
    lemma_ray_hits(p, from, 0, -1);
    let a = ray_from(p, from, 1, 0);
    let b = ray_from(p, from, 0, 1);
    let d = ray_from(p, from, -1, 0);
    lemma_joined_hits(p, from, a, b);
    lemma_joined_hits(p, from, a + b, d);
    lemma_joined_hits(p, from, a + b + d, ray_from(p, from, 0, -1));
}

proof fn lemma_diagonal_hits(p: Position, from: Square)
    requires
        p.wf(),
        faithful(p, from),
        from.piece is Some,
        from.piece->0.ty == PieceType::Bishop || from.piece->0.ty == PieceType::Queen,
    ensures
        all_hit(p, from, diagonal_plys(p, from)),
{
    lemma_ray_hits(p, from, 1, 1);
    lemma_ray_hits(p, from, -1, 1);
    lemma_ray_hits(p, from, -1, -1);
    lemma_ray_hits(p, from, 1, -1);
    let a = ray_from(p, from, 1, 1);
    let b = ray_from(p, from, -1, 1);
    let d = ray_from(p, from, -1, -1);
    lemma_joined_hits(p, from, a, b);
    lemma_joined_hits(p, from, a + b, d);
    lemma_joined_hits(p, from, a + b + d, ray_from(p, from, 1, -1));
}

/// Whether (`dr`, `dc`) is a knight's jump.
pub open spec fn knight_jump(dr: int, dc: int) -> bool {
    ||| (dr == 1 || dr == -1) && (dc == 2 || dc == -2)
    ||| (dr == 2 || dr == -2) && (dc == 1 || dc == -1)
}

/// Whether (`dr`, `dc`) leads to a neighbouring square.
pub open spec fn king_step(dr: int, dc: int) -> bool {
    -1 <= dr <= 1 && -1 <= dc <= 1 && !(dr == 0 && dc == 0)
}

proof fn lemma_step_hits(p: Position, from: Square, dr: int, dc: int)
    requires
        p.wf(),
        faithful(p, from),
        from.piece is Some,
        (from.piece->0.ty == PieceType::Knight && knight_jump(dr, dc)) || (from.piece->0.ty
            == PieceType::King && king_step(dr, dc)),
    ensures
        all_hit(p, from, step_plys(p, from, dr, dc)),
{
    let r = from.row + dr;
    let c = from.col + dc;
    if on_board(r, c) {
        assert(p.square(r, c).row as int == r && p.square(r, c).col as int == c);
        assert(r - dr == from.row && c - dc == from.col);
        assert(p.at(r - dr, c - dc) == from.piece);
    }
}

proof fn lemma_knight_hits(p: Position, from: Square)
    requires
        p.wf(),
        faithful(p, from),
        from.piece is Some,
        from.piece->0.ty == PieceType::Knight,
    ensures
        all_hit(p, from, knight_moves(p, from)),
{
    lemma_step_hits(p, from, 2, 1);
    lemma_step_hits(p, from, 1, 2);
    lemma_step_hits(p, from, -1, 2);
    lemma_step_hits(p, from, -2, 1);
    lemma_step_hits(p, from, -2, -1);
    lemma_step_hits(p, from, -1, -2);
    lemma_step_hits(p, from, 1, -2);
    lemma_step_hits(p, from, 2, -1);
    lemma_eight_hits(
        p,
        from,
        step_plys(p, from, 2, 1),
        step_plys(p, from, 1, 2),
        step_plys(p, from, -1, 2),
        step_plys(p, from, -2, 1),
        step_plys(p, from, -2, -1),
        step_plys(p, from, -1, -2),
        step_plys(p, from, 1, -2),
        step_plys(p, from, 2, -1),
    );
}

proof fn lemma_king_hits(p: Position, from: Square)
    requires
        p.wf(),
        faithful(p, from),
        from.piece is Some,
        from.piece->0.ty == PieceType::King,
    ensures
        all_hit(p, from, king_moves(p, from)),
{
    lemma_step_hits(p, from, 1, 0);
    lemma_step_hits(p, from, 1, 1);
    lemma_step_hits(p, from, 0, 1);
    lemma_step_hits(p, from, -1, 1);
    lemma_step_hits(p, from, -1, 0);
    lemma_step_hits(p, from, -1, -1);
    lemma_step_hits(p, from, 0, -1);
    lemma_step_hits(p, from, 1, -1);
    lemma_eight_hits(
        p,
        from,
        step_plys(p, from, 1, 0),
        step_plys(p, from, 1, 1),
        step_plys(p, from, 0, 1),
        step_plys(p, from, -1, 1),
        step_plys(p, from, -1, 0),
        step_plys(p, from, -1, -1),
        step_plys(p, from, 0, -1),
        step_plys(p, from, 1, -1),
    );
    assert(all_hit(p, from, castle_plys(p, from, true)));
    assert(all_hit(p, from, castle_plys(p, from, false)));
    lemma_joined_hits(p, from, king_steps(p, from), castle_plys(p, from, true));
    lemma_joined_hits(
        p,
        from,
        king_steps(p, from) + castle_plys(p, from, true),
        castle_plys(p, from, false),
    );
}

proof fn lemma_pawn_capture_hits(p: Position, from: Square, dc: int)
    requires
        p.wf(),
        faithful(p, from),
        from.piece is Some,
        from.piece->0.ty == PieceType::Pawn,
        dc == 1 || dc == -1,
    ensures
        all_hit(p, from, pawn_capture(p, from, dc)),
{
    let color = from.piece->0.color;
    let r = from.row + color.forward();
    let c = from.col + dc;
    if on_board(r, c) {
        assert(p.square(r, c).row as int == r && p.square(r, c).col as int == c);
        assert(p.at(r - color.forward(), c - dc) == from.piece);
    }
}

proof fn lemma_pawn_hits(p: Position, from: Square)
    requires
        p.wf(),
        faithful(p, from),
        from.piece is Some,
        from.piece->0.ty == PieceType::Pawn,
    ensures
        all_hit(p, from, pawn_moves(p, from)),
{
    lemma_pawn_capture_hits(p, from, -1);
    lemma_pawn_capture_hits(p, from, 1);
    let color = from.piece->0.color;
    let r = from.row + color.forward();
    if on_board(r, from.col as int) {
        assert(p.square(r, from.col as int).col == from.col);
    }
    assert(all_hit(p, from, pawn_advance(p, from)));
    assert(all_hit(p, from, pawn_double(p, from)));
    lemma_joined_hits(p, from, pawn_advance(p, from), pawn_double(p, from));
    lemma_joined_hits(
        p,
        from,
        pawn_advance(p, from) + pawn_double(p, from),
        pawn_capture(p, from, -1),
    );
    lemma_joined_hits(
        p,
        from,
        pawn_advance(p, from) + pawn_double(p, from) + pawn_capture(p, from, -1),
        pawn_capture(p, from, 1),
    );
}

/// Wherever a piece can go by an ordinary move or a promotion, a pawn's
/// advance apart, its side attacks: what the rules propose as a capture,
/// attack detection sees.
pub proof fn lemma_reach_is_attack(p: Position, from: Square, i: int)
    requires
        p.wf(),
        faithful(p, from),
        0 <= i < pseudo_legal(p, from).len(),
        bears_on_target(pseudo_legal(p, from)[i]),
    ensures
        attacked(
            p,
            pseudo_legal(p, from)[i].to.row as int,
            pseudo_legal(p, from)[i].to.col as int,
            from.piece->0.color,
        ),
{
    match from.piece {
        None => {},
        Some(piece) => match piece.ty {
            PieceType::Pawn => lemma_pawn_hits(p, from),
            PieceType::Knight => lemma_knight_hits(p, from),
            PieceType::Bishop => lemma_diagonal_hits(p, from),
            PieceType::Rook => lemma_straight_hits(p, from),
            PieceType::Queen => {
                lemma_straight_hits(p, from);
                lemma_diagonal_hits(p, from);
                lemma_joined_hits(p, from, straight_plys(p, from), diagonal_plys(p, from));
            },
            PieceType::King => lemma_king_hits(p, from),
        },
    }
    assert(hits(p, from, pseudo_legal(p, from)[i]));
}

/// A king is taken only where it stood in check: from a position in which
/// the king of a color is not attacked, no pseudo-legal ply of the other
/// side removes a king of that color.
pub proof fn lemma_king_taken_only_in_check(p: Position, from: Square, i: int)
    requires
        p.wf(),
        faithful(p, from),
        0 <= i < pseudo_legal(p, from).len(),
        pseudo_legal(p, from)[i].captured is Some,
        pseudo_legal(p, from)[i].captured->0.ty == PieceType::King,
    ensures
        in_check(p, pseudo_legal(p, from)[i].captured->0.color),
{
    let ply = pseudo_legal(p, from)[i];
    lemma_pseudo_legal_generated(p, from);
    assert(generated(p, from, ply));
    assert(all_generated(p, from, pseudo_legal(p, from)));
    assert(bears_on_target(ply));
    lemma_reach_is_attack(p, from, i);
    let t = ply.to.row * 8 + ply.to.col;
    assert(t / 8 == ply.to.row && t % 8 == ply.to.col);
    assert(king_attacked_at(p, t, ply.captured->0.color));
}

} // verus!
