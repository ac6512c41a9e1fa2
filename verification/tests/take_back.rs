use rchess::board::Board;
use rchess::piece::{Color, PieceType};
use rchess::ply::{pseudo_legal_plys, Ply, PlyKind};
use rchess::position::{CastlingRights, ChessError};

fn same_placement(a: &Board, b: &Board) -> bool {
    for rank in 0..8 {
        for file in 0..8 {
            if a.occupant_at(file, rank).unwrap() != b.occupant_at(file, rank).unwrap() {
                return false;
            }
        }
    }
    a.side_to_move() == b.side_to_move()
        && a.castling_rights() == b.castling_rights()
        && a.en_passant_target() == b.en_passant_target()
}

fn every_ply_can_be_taken_back(board: &Board) -> usize {
    let mut tried = 0;
    for rank in 0..8 {
        for file in 0..8 {
            let square = *board.try_square(file, rank).unwrap();
            for ply in pseudo_legal_plys(board, &square) {
                let mut scratch = board.duplicate();
                scratch.make_ply(ply).unwrap();
                assert!(!same_placement(&scratch, board));
                assert!(scratch.fullmove_number() >= board.fullmove_number());
                let target = board.en_passant_target().map(|(file, rank)| (rank, file));
                scratch.unmake_ply(ply, board.castling_rights(), target).unwrap();
                assert!(same_placement(&scratch, board));
                tried += 1;
            }
        }
    }
    tried
}

#[test]
fn take_back_from_the_start() {
    let board = Board::new();
    assert_eq!(every_ply_can_be_taken_back(&board), 40);
}

#[test]
fn take_back_en_passant() {
    let mut board = Board::new();
    board.place(3, 3, PieceType::Pawn, Color::Black).unwrap();
    let e2 = *board.try_square(4, 1).unwrap();
    let push = pseudo_legal_plys(&board, &e2)[1];
    assert_eq!(push.kind(), PlyKind::DoublePawnPush);
    board.make_ply(push).unwrap();
    let d4 = *board.try_square(3, 3).unwrap();
    assert!(pseudo_legal_plys(&board, &d4)
        .iter()
        .any(|p| p.kind() == PlyKind::EnPassantCapture));
    assert!(every_ply_can_be_taken_back(&board) > 0);
}

#[test]
fn take_back_castling_and_promotion() {
    let mut board = Board::empty();
    board.place(4, 0, PieceType::King, Color::White).unwrap();
    board.place(7, 0, PieceType::Rook, Color::White).unwrap();
    board.place(0, 0, PieceType::Rook, Color::White).unwrap();
    board.place(4, 7, PieceType::King, Color::Black).unwrap();
    board.place(1, 6, PieceType::Pawn, Color::White).unwrap();
    board.place(2, 7, PieceType::Knight, Color::Black).unwrap();
    board.set_castling_rights(CastlingRights {
        white_kingside: true,
        white_queenside: true,
        black_kingside: false,
        black_queenside: false,
    });
    let e1 = *board.try_square(4, 0).unwrap();
    let king = pseudo_legal_plys(&board, &e1);
    assert!(king.iter().any(|p| p.kind() == PlyKind::CastleKingside));
    assert!(king.iter().any(|p| p.kind() == PlyKind::CastleQueenside));
    let b7 = *board.try_square(1, 6).unwrap();
    assert_eq!(pseudo_legal_plys(&board, &b7).len(), 8);
    assert!(every_ply_can_be_taken_back(&board) > 30);
}

#[test]
fn take_back_refuses_what_lies_off_the_board() {
    let mut board = Board::new();
    let e2 = *board.try_square(4, 1).unwrap();
    let e4 = *board.try_square(4, 3).unwrap();
    let ply = Ply::new(e2, e4);
    let rights = board.castling_rights();
    assert_eq!(board.unmake_ply(ply, rights, Some((8, 0))), Err(ChessError::OutOfRange));
    assert_eq!(board.side_to_move(), Color::White);
    assert_eq!(board.unmake_ply(ply, rights, None), Ok(()));
    assert_eq!(board.side_to_move(), Color::Black);
}

#[test]
fn only_legal_plys_pass_the_strict_door() {
    let mut board = Board::new();
    let e2 = *board.try_square(4, 1).unwrap();
    let e4 = *board.try_square(4, 3).unwrap();
    let e5 = *board.try_square(4, 4).unwrap();
    let jump = Ply::new(e2, e5);
    assert!(!board.is_legal_ply(&jump));
    assert_eq!(board.make_legal_ply(jump), Err(ChessError::InvalidPly));
    assert_eq!(board.occupant_at(4, 1).unwrap().unwrap().ty(), PieceType::Pawn);
    assert_eq!(board.side_to_move(), Color::White);

    // the right squares with the wrong kind are not what the rules propose
    let plain = Ply::new(e2, e4);
    assert!(!board.is_legal_ply(&plain));
    let push = Ply::with_kind(e2, e4, PlyKind::DoublePawnPush, None);
    assert!(board.is_legal_ply(&push));
    assert!(rchess::rules::same_ply(&push, &e2.valid_plys(&board)[1]));
    assert!(!rchess::rules::same_ply(&push, &plain));
    assert!(board.make_legal_ply(push).is_ok());
    assert_eq!(board.en_passant_target(), Some((4, 2)));
    assert_eq!(board.occupant_at(4, 3).unwrap().unwrap().ty(), PieceType::Pawn);
}

#[test]
fn a_pinned_piece_cannot_pass_the_strict_door() {
    let mut board = Board::empty();
    board.place(4, 0, PieceType::King, Color::White).unwrap();
    board.place(4, 1, PieceType::Knight, Color::White).unwrap();
    board.place(4, 7, PieceType::Rook, Color::Black).unwrap();
    let e2 = *board.try_square(4, 1).unwrap();
    let hop = pseudo_legal_plys(&board, &e2)[0];
    assert!(board.accepts(&hop));
    assert!(!board.is_legal_ply(&hop));
    assert_eq!(board.make_legal_ply(hop), Err(ChessError::InvalidPly));
    assert!(board.make_ply(hop).is_ok());
}

#[test]
fn identities_stay_distinct_through_a_game() {
    let mut board = Board::new();
    let moves = [((4, 1), (4, 3)), ((3, 6), (3, 4)), ((4, 3), (3, 4)), ((3, 7), (3, 4))];
    for (from, to) in moves {
        let square = *board.try_square(from.0, from.1).unwrap();
        let plys = square.valid_plys(&board);
        let ply = plys
            .iter()
            .find(|p| p.to().col() == to.0 + 1 && p.to().row() == to.1 + 1)
            .unwrap();
        board.make_legal_ply(*ply).unwrap();
    }
    let mut seen = Vec::new();
    for rank in 0..8 {
        for file in 0..8 {
            if let Some(piece) = board.occupant_at(file, rank).unwrap() {
                assert!(!seen.contains(&piece.id));
                assert!(piece.id >= 1 && piece.id <= 32);
                seen.push(piece.id);
            }
        }
    }
    assert_eq!(seen.len(), 30);
}

#[test]
fn where_a_piece_can_capture_its_side_attacks() {
    let mut board = Board::new();
    board.place(3, 3, PieceType::Queen, Color::White).unwrap();
    board.place(4, 4, PieceType::Knight, Color::Black).unwrap();
    board.place(2, 5, PieceType::Pawn, Color::White).unwrap();
    let mut seen = 0;
    for rank in 0..8 {
        for file in 0..8 {
            let square = *board.try_square(file, rank).unwrap();
            for ply in pseudo_legal_plys(&board, &square) {
                let mover = ply.moving_piece().unwrap();
                let plain = matches!(ply.kind(), PlyKind::Normal | PlyKind::Promotion(_));
                let advance = mover.ty() == PieceType::Pawn && ply.to().col() == ply.from().col();
                if plain && !advance {
                    assert!(board.is_attacked(&ply.to(), mover.color()));
                    seen += 1;
                }
            }
        }
    }
    assert!(seen > 20);
}

#[test]
fn the_kings_stay_through_legal_play() {
    let mut board = Board::new();
    let mut played = 0;
    while played < 40 {
        let side = board.side_to_move();
        let plys = rchess::rules::legal_plys_for_side(&board, side);
        if plys.is_empty() {
            break;
        }
        let ply = plys[(played * 7 + 3) % plys.len()];
        board.make_legal_ply(ply).unwrap();
        played += 1;
        let mut white = 0;
        let mut black = 0;
        for rank in 0..8 {
            for file in 0..8 {
                if let Some(piece) = board.occupant_at(file, rank).unwrap() {
                    if piece.ty() == PieceType::King {
                        match piece.color() {
                            Color::White => white += 1,
                            Color::Black => black += 1,
                        }
                    }
                }
            }
        }
        assert_eq!((white, black), (1, 1));
        assert!(!board.in_check(side));
    }
    assert!(played > 0);
}

#[test]
fn attacks_and_captures_agree_on_occupied_squares() {
    let mut board = Board::new();
    board.place(3, 3, PieceType::Queen, Color::White).unwrap();
    board.place(4, 4, PieceType::Knight, Color::Black).unwrap();
    board.place(2, 5, PieceType::Pawn, Color::White).unwrap();
    board.place(6, 2, PieceType::Bishop, Color::Black).unwrap();
    let mut agreed = 0;
    for rank in 0..8 {
        for file in 0..8 {
            let target = *board.try_square(file, rank).unwrap();
            let Some(victim) = target.piece else { continue };
            let by = victim.color().opposite();
            let mut capturable = false;
            for r in 0..8 {
                for f in 0..8 {
                    let from = *board.try_square(f, r).unwrap();
                    if from.piece.map(|p| p.color()) != Some(by) {
                        continue;
                    }
                    for ply in pseudo_legal_plys(&board, &from) {
                        let plain = matches!(ply.kind(), PlyKind::Normal | PlyKind::Promotion(_));
                        if plain && ply.to().col() == file + 1 && ply.to().row() == rank + 1 {
                            capturable = true;
                        }
                    }
                }
            }
            assert_eq!(board.is_attacked(&target, by), capturable);
            agreed += 1;
        }
    }
    assert_eq!(agreed, 36);
}
