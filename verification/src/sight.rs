//! The converse of `reach`: what attack detection sees on a square held by
//! the other side, the rules propose as a capture.

use vstd::prelude::*;
use crate::attack::{
    attacked,
    first_seen,
    holds_at,
    is_piece,
    king_attacked_at,
    knight_attacks,
    king_attacks,
    line_attacks,
    pawn_attacks,
    slider_attacks,
};
use crate::laws::lemma_legal_is_safe;
use crate::piece::{Color, PieceType};
use crate::ply::{
    arrivals,
    castle_plys,
    diagonal_plys,
    king_steps,
    pawn_advance,
    pawn_capture,
    pawn_double,
    plain_ply,
    pseudo_legal,
    ray_from,
    ray_plys,
    step_plys,
    straight_plys,
    Ply,
};
use crate::position::{on_board, Position};
use crate::rules::legal;
use crate::reach::{bears_on_target, king_step, knight_jump, lemma_reach_is_attack, slides_along};
use crate::square::{opponents, Square};

verus! {

/// Whether some ply of `s` bears on the square `to`.
pub open spec fn targets(s: Seq<Ply>, to: Square) -> bool {
    exists|i: int| 0 <= i < s.len() && (#[trigger] s[i]).to == to && bears_on_target(s[i])
}

/// Whether rank `sr`, file `sc` holds a piece of `by` with a pseudo-legal
/// ply that bears on rank `r`, file `c`.
pub open spec fn seen_from(p: Position, sr: int, sc: int, r: int, c: int, by: Color) -> bool {
    &&& on_board(sr, sc)
    &&& p.at(sr, sc) is Some
    &&& p.at(sr, sc)->0.color == by
    &&& targets(pseudo_legal(p, p.square(sr, sc)), p.square(r, c))
}

proof fn lemma_in_left(a: Seq<Ply>, b: Seq<Ply>, to: Square)
    requires
        targets(a, to),
    ensures
        targets(a + b, to),
{
    let i = choose|i: int| 0 <= i < a.len() && (#[trigger] a[i]).to == to && bears_on_target(a[i]);
    assert((a + b)[i] == a[i]);
}

proof fn lemma_in_right(a: Seq<Ply>, b: Seq<Ply>, to: Square)
    requires
        targets(b, to),
    ensures
        targets(a + b, to),
{
    let i = choose|i: int| 0 <= i < b.len() && (#[trigger] b[i]).to == to && bears_on_target(b[i]);
    assert((a + b)[a.len() + i] == b[i]);
}

proof fn lemma_in_four(a: Seq<Ply>, b: Seq<Ply>, c: Seq<Ply>, d: Seq<Ply>, to: Square)
    requires
        targets(a, to) || targets(b, to) || targets(c, to) || targets(d, to),
    ensures
        targets(a + b + c + d, to),
{
    if targets(a, to) {
        lemma_in_left(a, b, to);
    } else if targets(b, to) {
        lemma_in_right(a, b, to);
    }
    if targets(a + b, to) {
        lemma_in_left(a + b, c, to);
    } else if targets(c, to) {
        lemma_in_right(a + b, c, to);
    }
    if targets(a + b + c, to) {
        lemma_in_left(a + b + c, d, to);
    } else {
        lemma_in_right(a + b + c, d, to);
    }
}

proof fn lemma_in_eight(
    a: Seq<Ply>,
    b: Seq<Ply>,
    c: Seq<Ply>,
    d: Seq<Ply>,
    e: Seq<Ply>,
    f: Seq<Ply>,
    g: Seq<Ply>,
    h: Seq<Ply>,
    to: Square,
)
    requires
        targets(a, to) || targets(b, to) || targets(c, to) || targets(d, to) || targets(e, to)
            || targets(f, to) || targets(g, to) || targets(h, to),
    ensures
        targets(a + b + c + d + e + f + g + h, to),
{
    if targets(a, to) || targets(b, to) || targets(c, to) || targets(d, to) {
        lemma_in_four(a, b, c, d, to);
        lemma_in_left(a + b + c + d, e, to);
        lemma_in_left(a + b + c + d + e, f, to);
        lemma_in_left(a + b + c + d + e + f, g, to);
        lemma_in_left(a + b + c + d + e + f + g, h, to);
    } else {
        if targets(e, to) {
            lemma_in_right(a + b + c + d, e, to);
        }
        if targets(a + b + c + d + e, to) {
            lemma_in_left(a + b + c + d + e, f, to);
        } else if targets(f, to) {
            lemma_in_right(a + b + c + d + e, f, to);
        }
        if targets(a + b + c + d + e + f, to) {
            lemma_in_left(a + b + c + d + e + f, g, to);
        } else if targets(g, to) {
            lemma_in_right(a + b + c + d + e + f, g, to);
        }
        if targets(a + b + c + d + e + f + g, to) {
            lemma_in_left(a + b + c + d + e + f + g, h, to);
        } else {
            lemma_in_right(a + b + c + d + e + f + g, h, to);
        }
    }
}

/// A ray that bears on a square within some steps does so within more.
proof fn lemma_ray_more_fuel(
    p: Position,
    from: Square,
    r: int,
    c: int,
    dr: int,
    dc: int,
    f: nat,
    g: nat,
    to: Square,
)
    requires
        f <= g,
        targets(ray_plys(p, from, r, c, dr, dc, f), to),
    ensures
        targets(ray_plys(p, from, r, c, dr, dc, g), to),
    decreases f,
{
    let low = ray_plys(p, from, r, c, dr, dc, f);
    let i = choose|i: int| 0 <= i < low.len() && (#[trigger] low[i]).to == to && bears_on_target(low[i]);
    if f > 0 && on_board(r + dr, c + dc) && p.at(r + dr, c + dc) is None {
        let head = seq![plain_ply(p, from, r + dr, c + dc)];
        let rest_f = ray_plys(p, from, r + dr, c + dc, dr, dc, (f - 1) as nat);
        let rest_g = ray_plys(p, from, r + dr, c + dc, dr, dc, (g - 1) as nat);
        if i == 0 {
            assert((head + rest_g)[0] == low[0]);
        } else {
            assert(rest_f[i - 1] == low[i]);
            assert(targets(rest_f, to));
            lemma_ray_more_fuel(p, from, r + dr, c + dc, dr, dc, (f - 1) as nat, (g - 1) as nat, to);
            lemma_in_right(head, rest_g, to);
        }
    }
}

/// Whether every piece that is an opponent of the one on rank `tr`, file
/// `tc` and no pawn, set on rank `r`, file `c`, bears on that square along
/// (`dr`, `dc`) within `g` steps.
pub open spec fn open_way(p: Position, tr: int, tc: int, r: int, c: int, dr: int, dc: int, g: nat) -> bool {
    forall|from: Square|
        opponents(from.piece, p.at(tr, tc)) && from.piece->0.ty != PieceType::Pawn
            ==> targets(#[trigger] ray_plys(p, from, r, c, dr, dc, g), p.square(tr, tc))
}

/// The square of the first piece met from rank `r`, file `c` along
/// (`dr`, `dc`), where the way back from there to rank `tr`, file `tc` is
/// open.
proof fn lemma_walk(p: Position, tr: int, tc: int, r: int, c: int, dr: int, dc: int, fuel: nat, g: nat) -> (s: (
    int,
    int,
))
    requires
        p.wf(),
        on_board(tr, tc),
        on_board(r, c),
        p.at(tr, tc) is Some,
        first_seen(p, r, c, dr, dc, fuel) is Some,
        opponents(first_seen(p, r, c, dr, dc, fuel), p.at(tr, tc)),
        first_seen(p, r, c, dr, dc, fuel)->0.ty != PieceType::Pawn,
        fuel + g <= 8,
        open_way(p, tr, tc, r + dr, c + dc, -dr, -dc, g),
    ensures
        on_board(s.0, s.1),
        p.at(s.0, s.1) == first_seen(p, r, c, dr, dc, fuel),
        targets(ray_from(p, p.square(s.0, s.1), -dr, -dc), p.square(tr, tc)),
    decreases fuel,
{
    let nr = r + dr;
    let nc = c + dc;
    if p.at(nr, nc) is Some {
        let from = p.square(nr, nc);
        assert(targets(ray_plys(p, from, nr, nc, -dr, -dc, g), p.square(tr, tc)));
        lemma_ray_more_fuel(p, from, nr, nc, -dr, -dc, g, 7, p.square(tr, tc));
        (nr, nc)
    } else {
        assert forall|from: Square|
            opponents(from.piece, p.at(tr, tc)) && from.piece->0.ty
                != PieceType::Pawn implies targets(
            #[trigger] ray_plys(p, from, nr + dr, nc + dc, -dr, -dc, (g + 1) as nat),
            p.square(tr, tc),
        ) by {
            assert(nr + dr + (-dr) == nr && nc + dc + (-dc) == nc);
            let rest = ray_plys(p, from, nr, nc, -dr, -dc, g);
            assert(targets(rest, p.square(tr, tc)));
            lemma_in_right(seq![plain_ply(p, from, nr, nc)], rest, p.square(tr, tc));
        }
        lemma_walk(p, tr, tc, nr, nc, dr, dc, (fuel - 1) as nat, (g + 1) as nat)
    }
}

proof fn lemma_ray_in_moves(p: Position, from: Square, dr: int, dc: int, to: Square)
    requires
        from.piece is Some,
        slides_along(from.piece->0.ty, dr, dc),
        targets(ray_from(p, from, dr, dc), to),
    ensures
        targets(pseudo_legal(p, from), to),
{
    let ty = from.piece->0.ty;
    if dr == 0 || dc == 0 {
        lemma_in_four(
            ray_from(p, from, 1, 0),
            ray_from(p, from, 0, 1),
            ray_from(p, from, -1, 0),
            ray_from(p, from, 0, -1),
            to,
        );
        if ty == PieceType::Queen {
            lemma_in_left(straight_plys(p, from), diagonal_plys(p, from), to);
        }
    } else {
        lemma_in_four(
            ray_from(p, from, 1, 1),
            ray_from(p, from, -1, 1),
            ray_from(p, from, -1, -1),
            ray_from(p, from, 1, -1),
            to,
        );
        if ty == PieceType::Queen {
            lemma_in_right(straight_plys(p, from), diagonal_plys(p, from), to);
        }
    }
}

proof fn lemma_line_seen(p: Position, r: int, c: int, by: Color, dr: int, dc: int, slider: PieceType) -> (s: (
    int,
    int,
))
    requires
        p.wf(),
        on_board(r, c),
        p.at(r, c) is Some,
        p.at(r, c)->0.color != by,
        line_attacks(p, r, c, by, dr, dc, slider),
        slides_along(slider, -dr, -dc),
        slider != PieceType::Queen,
    ensures
        seen_from(p, s.0, s.1, r, c, by),
{
    assert forall|from: Square|
        opponents(from.piece, p.at(r, c)) && from.piece->0.ty != PieceType::Pawn implies targets(
        #[trigger] ray_plys(p, from, r + dr, c + dc, -dr, -dc, 1),
        p.square(r, c),
    ) by {
        assert(r + dr + (-dr) == r && c + dc + (-dc) == c);
        let ray = ray_plys(p, from, r + dr, c + dc, -dr, -dc, 1);
        assert(ray[0] == plain_ply(p, from, r, c));
    }
    let s = lemma_walk(p, r, c, r, c, dr, dc, 7, 1);
    lemma_ray_in_moves(p, p.square(s.0, s.1), -dr, -dc, p.square(r, c));
    s
}

proof fn lemma_step_seen(p: Position, r: int, c: int, by: Color, a: int, b: int, ty: PieceType)
    requires
        p.wf(),
        on_board(r, c),
        p.at(r, c) is Some,
        p.at(r, c)->0.color != by,
        holds_at(p, r + a, c + b, by, ty),
        (ty == PieceType::Knight && knight_jump(a, b)) || (ty == PieceType::King && king_step(a, b)),
    ensures
        seen_from(p, r + a, c + b, r, c, by),
{
    let from = p.square(r + a, c + b);
    let to = p.square(r, c);
    assert(from.row + (-a) == r && from.col + (-b) == c);
    let step = step_plys(p, from, -a, -b);
    assert(step[0] == plain_ply(p, from, r, c));
    assert(targets(step, to));
    if ty == PieceType::Knight {
        lemma_in_eight(
            step_plys(p, from, 2, 1),
            step_plys(p, from, 1, 2),
            step_plys(p, from, -1, 2),
            step_plys(p, from, -2, 1),
            step_plys(p, from, -2, -1),
            step_plys(p, from, -1, -2),
            step_plys(p, from, 1, -2),
            step_plys(p, from, 2, -1),
            to,
        );
    } else {
        lemma_in_eight(
            step_plys(p, from, 1, 0),
            step_plys(p, from, 1, 1),
            step_plys(p, from, 0, 1),
            step_plys(p, from, -1, 1),
            step_plys(p, from, -1, 0),
            step_plys(p, from, -1, -1),
            step_plys(p, from, 0, -1),
            step_plys(p, from, 1, -1),
            to,
        );
        lemma_in_left(king_steps(p, from), castle_plys(p, from, true), to);
        lemma_in_left(
            king_steps(p, from) + castle_plys(p, from, true),
            castle_plys(p, from, false),
            to,
        );
    }
}

proof fn lemma_pawn_seen(p: Position, r: int, c: int, by: Color, b: int)
    requires
        p.wf(),
        on_board(r, c),
        p.at(r, c) is Some,
        p.at(r, c)->0.color != by,
        b == 1 || b == -1,
        holds_at(p, r - by.forward(), c + b, by, PieceType::Pawn),
    ensures
        seen_from(p, r - by.forward(), c + b, r, c, by),
{
    let from = p.square(r - by.forward(), c + b);
    let to = p.square(r, c);
    assert(from.row + by.forward() == r && from.col + (-b) == c);
    let taken = pawn_capture(p, from, -b);
    assert(taken == arrivals(p, from, r, c));
    assert(taken[0].to == to && bears_on_target(taken[0]));
    assert(targets(taken, to));
    let ahead = pawn_advance(p, from) + pawn_double(p, from);
    if b == 1 {
        lemma_in_right(ahead, pawn_capture(p, from, -1), to);
        lemma_in_left(ahead + pawn_capture(p, from, -1), pawn_capture(p, from, 1), to);
    } else {
        lemma_in_right(ahead + pawn_capture(p, from, -1), pawn_capture(p, from, 1), to);
    }
}

/// Whether some piece of `by` has a pseudo-legal ply that bears on rank `r`,
/// file `c`.
pub open spec fn seen(p: Position, r: int, c: int, by: Color) -> bool {
    exists|sr: int, sc: int| seen_from(p, sr, sc, r, c, by)
}

/// On a square that holds a piece of the other side, attack detection sees
/// only what the rules propose: where `by` attacks the square, some piece of
/// `by` has a pseudo-legal ply that captures on it.
pub proof fn lemma_attack_is_reach(p: Position, r: int, c: int, by: Color)
    requires
        p.wf(),
        on_board(r, c),
        p.at(r, c) is Some,
        p.at(r, c)->0.color != by,
        attacked(p, r, c, by),
    ensures
        seen(p, r, c, by),
{
    let n = PieceType::Knight;
    let k = PieceType::King;
    let f = by.forward();
    if knight_attacks(p, r, c, by) {
        if holds_at(p, r + 1, c + 2, by, n) {
            lemma_step_seen(p, r, c, by, 1, 2, n);
            assert(seen_from(p, r + 1, c + 2, r, c, by));
        } else if holds_at(p, r + 2, c + 1, by, n) {
            lemma_step_seen(p, r, c, by, 2, 1, n);
            assert(seen_from(p, r + 2, c + 1, r, c, by));
        } else if holds_at(p, r + 2, c - 1, by, n) {
            lemma_step_seen(p, r, c, by, 2, -1, n);
            assert(seen_from(p, r + 2, c - 1, r, c, by));
        } else if holds_at(p, r + 1, c - 2, by, n) {
            lemma_step_seen(p, r, c, by, 1, -2, n);
            assert(seen_from(p, r + 1, c - 2, r, c, by));
        } else if holds_at(p, r - 1, c - 2, by, n) {
            lemma_step_seen(p, r, c, by, -1, -2, n);
            assert(seen_from(p, r - 1, c - 2, r, c, by));
        } else if holds_at(p, r - 2, c - 1, by, n) {
            lemma_step_seen(p, r, c, by, -2, -1, n);
            assert(seen_from(p, r - 2, c - 1, r, c, by));
        } else if holds_at(p, r - 2, c + 1, by, n) {
            lemma_step_seen(p, r, c, by, -2, 1, n);
            assert(seen_from(p, r - 2, c + 1, r, c, by));
        } else {
            lemma_step_seen(p, r, c, by, -1, 2, n);
            assert(seen_from(p, r - 1, c + 2, r, c, by));
        }
    } else if king_attacks(p, r, c, by) {
        if holds_at(p, r + 1, c, by, k) {
            lemma_step_seen(p, r, c, by, 1, 0, k);
            assert(seen_from(p, r + 1, c + 0, r, c, by));
        } else if holds_at(p, r + 1, c + 1, by, k) {
            lemma_step_seen(p, r, c, by, 1, 1, k);
            assert(seen_from(p, r + 1, c + 1, r, c, by));
        } else if holds_at(p, r, c + 1, by, k) {
            lemma_step_seen(p, r, c, by, 0, 1, k);
            assert(seen_from(p, r + 0, c + 1, r, c, by));
        } else if holds_at(p, r - 1, c + 1, by, k) {
            lemma_step_seen(p, r, c, by, -1, 1, k);
            assert(seen_from(p, r - 1, c + 1, r, c, by));
        } else if holds_at(p, r - 1, c, by, k) {
            lemma_step_seen(p, r, c, by, -1, 0, k);
            assert(seen_from(p, r - 1, c + 0, r, c, by));
        } else if holds_at(p, r - 1, c - 1, by, k) {
            lemma_step_seen(p, r, c, by, -1, -1, k);
            assert(seen_from(p, r - 1, c - 1, r, c, by));
        } else if holds_at(p, r, c - 1, by, k) {
            lemma_step_seen(p, r, c, by, 0, -1, k);
            assert(seen_from(p, r + 0, c - 1, r, c, by));
        } else {
            lemma_step_seen(p, r, c, by, 1, -1, k);
            assert(seen_from(p, r + 1, c - 1, r, c, by));
        }
    } else if pawn_attacks(p, r, c, by) {
        if holds_at(p, r - f, c - 1, by, PieceType::Pawn) {
            lemma_pawn_seen(p, r, c, by, -1);
            assert(seen_from(p, r - f, c + (-1), r, c, by));
        } else {
            lemma_pawn_seen(p, r, c, by, 1);
            assert(seen_from(p, r - f, c + 1, r, c, by));
        }
    } else {
        assert(slider_attacks(p, r, c, by));
        let rook = PieceType::Rook;
        let bishop = PieceType::Bishop;
        let s = if line_attacks(p, r, c, by, 1, 0, rook) {
            lemma_line_seen(p, r, c, by, 1, 0, rook)
        } else if line_attacks(p, r, c, by, -1, 0, rook) {
            lemma_line_seen(p, r, c, by, -1, 0, rook)
        } else if line_attacks(p, r, c, by, 0, 1, rook) {
            lemma_line_seen(p, r, c, by, 0, 1, rook)
        } else if line_attacks(p, r, c, by, 0, -1, rook) {
            lemma_line_seen(p, r, c, by, 0, -1, rook)
        } else if line_attacks(p, r, c, by, 1, 1, bishop) {
            lemma_line_seen(p, r, c, by, 1, 1, bishop)
        } else if line_attacks(p, r, c, by, 1, -1, bishop) {
            lemma_line_seen(p, r, c, by, 1, -1, bishop)
        } else if line_attacks(p, r, c, by, -1, 1, bishop) {
            lemma_line_seen(p, r, c, by, -1, 1, bishop)
        } else {
            lemma_line_seen(p, r, c, by, -1, -1, bishop)
        };
        assert(seen_from(p, s.0, s.1, r, c, by));
    }
}

/// On a square that holds a piece of the other side, a side attacks exactly
/// where one of its pieces has a pseudo-legal ply that captures.
pub proof fn lemma_attacked_iff_seen(p: Position, r: int, c: int, by: Color)
    requires
        p.wf(),
        on_board(r, c),
        p.at(r, c) is Some,
        p.at(r, c)->0.color != by,
    ensures
        attacked(p, r, c, by) <==> seen(p, r, c, by),
{
    if attacked(p, r, c, by) {
        lemma_attack_is_reach(p, r, c, by);
    }
    if seen(p, r, c, by) {
        let (sr, sc) = choose|sr: int, sc: int| seen_from(p, sr, sc, r, c, by);
        let from = p.square(sr, sc);
        let plys = pseudo_legal(p, from);
        let i = choose|i: int|
            0 <= i < plys.len() && (#[trigger] plys[i]).to == p.square(r, c) && bears_on_target(
                plys[i],
            );
        lemma_reach_is_attack(p, from, i);
    }
}

/// After a legal ply no piece of the other side has a pseudo-legal ply that
/// bears on a square where a king of the mover's color stands: the mover's
/// king is in no target set of the opponent.
pub proof fn lemma_legal_leaves_king_unseen(p: Position, from: Square, i: int, kr: int, kc: int)
    requires
        p.wf(),
        0 <= i < legal(p, from).len(),
        on_board(kr, kc),
        is_piece(p.apply(legal(p, from)[i]).at(kr, kc), from.piece->0.color, PieceType::King),
    ensures
        !seen(p.apply(legal(p, from)[i]), kr, kc, from.piece->0.color.other()),
{
    let ply = legal(p, from)[i];
    let color = from.piece->0.color;
    let after = p.apply(ply);
    lemma_legal_is_safe(p, from, i);
    let k = kr * 8 + kc;
    assert(k / 8 == kr && k % 8 == kc);
    assert(!king_attacked_at(after, k, color));
    assert(after.wf());
    lemma_attacked_iff_seen(after, kr, kc, color.other());
}

} // verus!
