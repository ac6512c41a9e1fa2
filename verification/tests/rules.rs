use rchess::board::Board;
use rchess::piece::{Color, Piece, PieceType};
use rchess::ply::{
    bishop_plys, is_pawn_start_square, king_plys, knight_plys, pawn_plys, pseudo_legal_plys,
    queen_plys, rook_plys, Ply, PlyKind,
};
use rchess::position::{CastlingRights, ChessError, GameStatus};
use rchess::rules::{legal_plys, legal_plys_for_side};
use rchess::square::Square;

fn spot(board: &Board, file: usize, rank: usize) -> Square {
    *board.try_square(file, rank).unwrap()
}

fn find(plys: &[Ply], file: usize, rank: usize) -> Ply {
    for p in plys {
        if p.to().col() == file + 1 && p.to().row() == rank + 1 {
            return *p;
        }
    }
    panic!("no ply to file {} rank {}", file, rank);
}

fn play(board: &mut Board, from: (usize, usize), to: (usize, usize)) -> GameStatus {
    let plys = spot(board, from.0, from.1).valid_plys(board);
    let ply = find(&plys, to.0, to.1);
    board.make_ply(ply).unwrap()
}

fn kind_of(board: &Board, file: usize, rank: usize) -> Option<(PieceType, Color)> {
    board.occupant_at(file, rank).unwrap().map(|p| (p.ty(), p.color()))
}

#[test]
fn empty_square_has_no_moves() {
    let board = Board::new();
    for rank in 2..6 {
        for file in 0..8 {
            let s = spot(&board, file, rank);
            assert!(s.is_unoccupied());
            assert_eq!(s.valid_plys(&board).len(), 0);
            assert_eq!(pseudo_legal_plys(&board, &s).len(), 0);
            assert_eq!(legal_plys(&board, &s).len(), 0);
        }
    }
}

#[test]
fn lone_rook_in_the_corner_has_fourteen_moves() {
    let mut board = Board::empty();
    board.place(0, 0, PieceType::Rook, Color::White).unwrap();
    let a1 = *board.square(1, 1).unwrap();
    let plys = rook_plys(&board, &a1);
    assert_eq!(plys.len(), 14);
    let files = plys.iter().filter(|p| p.to().row() == 1).count();
    let ranks = plys.iter().filter(|p| p.to().col() == 1).count();
    assert_eq!(files, 7);
    assert_eq!(ranks, 7);
    assert_eq!(a1.valid_plys(&board).len(), 14);
    // up the file first, then along the rank
    assert_eq!((plys[0].to().col(), plys[0].to().row()), (1, 2));
    assert_eq!((plys[7].to().col(), plys[7].to().row()), (2, 1));
}

#[test]
fn starting_position_has_twenty_moves() {
    let board = Board::new();
    let white = legal_plys_for_side(&board, Color::White);
    assert_eq!(white.len(), 20);
    let pawn_moves = white
        .iter()
        .filter(|p| p.moving_piece().unwrap().ty() == PieceType::Pawn)
        .count();
    let doubles = white.iter().filter(|p| p.kind() == PlyKind::DoublePawnPush).count();
    let knight_moves = white
        .iter()
        .filter(|p| p.moving_piece().unwrap().ty() == PieceType::Knight)
        .count();
    assert_eq!(pawn_moves, 16);
    assert_eq!(doubles, 8);
    assert_eq!(knight_moves, 4);
    assert_eq!(legal_plys_for_side(&board, Color::Black).len(), 20);
    assert_eq!(board.status(), GameStatus::Normal);
    assert!(board.has_legal_ply(Color::White));
}

#[test]
fn king_never_steps_onto_an_attacked_square() {
    let mut board = Board::empty();
    board.place(4, 0, PieceType::King, Color::White).unwrap();
    board.place(4, 1, PieceType::Queen, Color::Black).unwrap();
    board.place(0, 7, PieceType::King, Color::Black).unwrap();
    let e1 = spot(&board, 4, 0);
    assert!(board.in_check(Color::White));
    assert_eq!(king_plys(&board, &e1).len(), 5);
    let plys = e1.valid_plys(&board);
    assert_eq!(plys.len(), 1);
    assert_eq!((plys[0].to().col(), plys[0].to().row()), (5, 2));
    assert_eq!(plys[0].captured().unwrap().ty(), PieceType::Queen);
    for p in &plys {
        let mut after = board.duplicate();
        after.make_ply(*p).unwrap();
        assert!(!after.is_attacked(&p.to(), Color::Black));
        assert!(!after.in_check(Color::White));
    }
}

#[test]
fn defended_queen_beside_the_king_cannot_be_taken() {
    let mut board = Board::empty();
    board.place(4, 0, PieceType::King, Color::White).unwrap();
    board.place(4, 1, PieceType::Queen, Color::Black).unwrap();
    board.place(4, 7, PieceType::Rook, Color::Black).unwrap();
    board.set_side_to_move(Color::White);
    let e1 = spot(&board, 4, 0);
    assert_eq!(e1.valid_plys(&board).len(), 0);
    assert_eq!(board.status(), GameStatus::Checkmate);
}

#[test]
fn en_passant_takes_the_pawn_beside() {
    let mut board = Board::new();
    board.place(3, 3, PieceType::Pawn, Color::Black).unwrap();
    let status = play(&mut board, (4, 1), (4, 3));
    assert_eq!(status, GameStatus::Normal);
    assert_eq!(board.en_passant_target(), Some((4, 2)));
    assert_eq!(board.side_to_move(), Color::Black);

    let d4 = spot(&board, 3, 3);
    let plys = d4.valid_plys(&board);
    assert_eq!(plys.len(), 2);
    let ep = find(&plys, 4, 2);
    assert_eq!(ep.kind(), PlyKind::EnPassantCapture);
    assert_eq!(ep.captured().unwrap().ty(), PieceType::Pawn);
    assert_eq!(ep.captured().unwrap().color(), Color::White);
    let white_pawn = board.occupant_at(4, 3).unwrap().unwrap();
    assert_eq!(ep.captured().unwrap().id, white_pawn.id);

    board.make_ply(ep).unwrap();
    assert_eq!(kind_of(&board, 4, 3), None);
    assert_eq!(kind_of(&board, 3, 3), None);
    assert_eq!(kind_of(&board, 4, 2), Some((PieceType::Pawn, Color::Black)));
    assert_eq!(board.en_passant_target(), None);
    assert_eq!(board.halfmove_clock(), 0);
}

#[test]
fn en_passant_lapses_after_one_ply() {
    let mut board = Board::new();
    board.place(3, 3, PieceType::Pawn, Color::Black).unwrap();
    play(&mut board, (4, 1), (4, 3));
    play(&mut board, (0, 6), (0, 5));
    assert_eq!(board.en_passant_target(), None);
    let plys = spot(&board, 3, 3).valid_plys(&board);
    assert_eq!(plys.len(), 1);
    assert_eq!(plys[0].kind(), PlyKind::Normal);
}

#[test]
fn own_pawn_cannot_use_the_target_behind_its_neighbour() {
    let mut board = Board::new();
    play(&mut board, (4, 1), (4, 3));
    // d2 sees e3 as the target, but the pawn beside it on e2's file is gone and e4 is its own
    let plys = spot(&board, 3, 1).valid_plys(&board);
    assert_eq!(plys.len(), 2);
    assert!(plys.iter().all(|p| p.kind() != PlyKind::EnPassantCapture));
}

#[test]
fn fools_mate_is_checkmate() {
    let mut board = Board::new();
    assert_eq!(play(&mut board, (5, 1), (5, 2)), GameStatus::Normal);
    assert_eq!(play(&mut board, (4, 6), (4, 4)), GameStatus::Normal);
    assert_eq!(play(&mut board, (6, 1), (6, 3)), GameStatus::Normal);
    assert_eq!(play(&mut board, (3, 7), (7, 3)), GameStatus::Checkmate);
    assert!(board.in_check(Color::White));
    assert!(!board.has_legal_ply(Color::White));
    assert_eq!(legal_plys_for_side(&board, Color::White).len(), 0);
    assert_eq!(board.status(), GameStatus::Checkmate);
}

#[test]
fn no_move_and_no_check_is_stalemate() {
    let mut board = Board::empty();
    board.place(7, 7, PieceType::King, Color::Black).unwrap();
    board.place(5, 6, PieceType::King, Color::White).unwrap();
    board.place(6, 4, PieceType::Queen, Color::White).unwrap();
    assert_eq!(play(&mut board, (6, 4), (6, 5)), GameStatus::Stalemate);
    assert!(!board.in_check(Color::Black));
    assert_eq!(legal_plys_for_side(&board, Color::Black).len(), 0);
}

#[test]
fn a_checking_move_reports_check() {
    let mut board = Board::empty();
    board.place(4, 7, PieceType::King, Color::Black).unwrap();
    board.place(4, 0, PieceType::King, Color::White).unwrap();
    board.place(0, 0, PieceType::Rook, Color::White).unwrap();
    assert_eq!(play(&mut board, (0, 0), (0, 7)), GameStatus::Check);
    assert!(board.in_check(Color::Black));
}

#[test]
fn knight_moves_from_the_start() {
    let board = Board::new();
    let b1 = spot(&board, 1, 0);
    let plys = knight_plys(&board, &b1);
    assert_eq!(plys.len(), 2);
    assert_eq!((plys[0].to().col(), plys[0].to().row()), (3, 3));
    assert_eq!((plys[1].to().col(), plys[1].to().row()), (1, 3));
}

#[test]
fn knight_in_the_middle_has_eight_moves() {
    let mut board = Board::empty();
    board.place(3, 3, PieceType::Knight, Color::White).unwrap();
    assert_eq!(knight_plys(&board, &spot(&board, 3, 3)).len(), 8);
}

#[test]
fn sliding_rays_stop_at_pieces() {
    let mut board = Board::empty();
    board.place(3, 3, PieceType::Queen, Color::White).unwrap();
    board.place(3, 5, PieceType::Pawn, Color::White).unwrap();
    board.place(5, 3, PieceType::Pawn, Color::Black).unwrap();
    board.place(5, 5, PieceType::Pawn, Color::Black).unwrap();
    let d4 = spot(&board, 3, 3);
    let plys = queen_plys(&board, &d4);
    // up: d5 only (own pawn on d6); right: e4, f4 (capture); down: 3; left: 3
    // diagonals: e5, f6 (capture): 2; e3, f2, g1: 3; c3, b2, a1: 3; c5, b6, a7: 3
    assert_eq!(plys.len(), 1 + 2 + 3 + 3 + 2 + 3 + 3 + 3);
    let captures = plys.iter().filter(|p| p.captured().is_some()).count();
    assert_eq!(captures, 2);
    assert_eq!(rook_plys_len(&mut board), 9);
}

fn rook_plys_len(board: &mut Board) -> usize {
    board.place(3, 3, PieceType::Rook, Color::White).unwrap();
    rook_plys(board, &spot(board, 3, 3)).len()
}

#[test]
fn bishop_on_an_open_board() {
    let mut board = Board::empty();
    board.place(2, 0, PieceType::Bishop, Color::Black).unwrap();
    let plys = bishop_plys(&board, &spot(&board, 2, 0));
    assert_eq!(plys.len(), 7);
    assert_eq!((plys[0].to().col(), plys[0].to().row()), (4, 2));
}

#[test]
fn pawn_moves_ahead_and_captures_aside() {
    let mut board = Board::new();
    board.place(3, 2, PieceType::Knight, Color::Black).unwrap();
    let e2 = spot(&board, 4, 1);
    let plys = pawn_plys(&board, &e2);
    assert_eq!(plys.len(), 3);
    assert_eq!(plys[0].kind(), PlyKind::Normal);
    assert_eq!(plys[1].kind(), PlyKind::DoublePawnPush);
    assert_eq!((plys[2].to().col(), plys[2].to().row()), (4, 3));
    assert_eq!(plys[2].captured().unwrap().ty(), PieceType::Knight);
    // d2 is blocked by the knight on d3: neither one step nor two
    let d2 = spot(&board, 3, 1);
    assert_eq!(pawn_plys(&board, &d2).len(), 0);
}

#[test]
fn pawn_start_squares() {
    let board = Board::new();
    let white = Piece::pawn(Color::White);
    let black = Piece::pawn(Color::Black);
    assert!(is_pawn_start_square(&spot(&board, 0, 1), &white));
    assert!(!is_pawn_start_square(&spot(&board, 0, 6), &white));
    assert!(is_pawn_start_square(&spot(&board, 0, 6), &black));
    assert!(!is_pawn_start_square(&spot(&board, 0, 1), &black));
    assert!(!is_pawn_start_square(&spot(&board, 0, 3), &white));
}

#[test]
fn promotion_offers_four_pieces_and_keeps_identity() {
    let mut board = Board::empty();
    let id = board.place(0, 6, PieceType::Pawn, Color::White).unwrap();
    board.place(1, 7, PieceType::Rook, Color::Black).unwrap();
    let a7 = spot(&board, 0, 6);
    let plys = a7.valid_plys(&board);
    assert_eq!(plys.len(), 8);
    assert_eq!(plys[0].kind(), PlyKind::Promotion(PieceType::Knight));
    assert_eq!(plys[1].kind(), PlyKind::Promotion(PieceType::Bishop));
    assert_eq!(plys[2].kind(), PlyKind::Promotion(PieceType::Rook));
    assert_eq!(plys[3].kind(), PlyKind::Promotion(PieceType::Queen));
    assert_eq!(plys[7].kind(), PlyKind::Promotion(PieceType::Queen));
    assert_eq!(plys[7].captured().unwrap().ty(), PieceType::Rook);
    board.make_ply(plys[7]).unwrap();
    let queen = board.occupant_at(1, 7).unwrap().unwrap();
    assert_eq!(queen.ty(), PieceType::Queen);
    assert_eq!(queen.color(), Color::White);
    assert_eq!(queen.id, id);
    assert_eq!(board.piece(id).unwrap().col(), 2);
    assert_eq!(kind_of(&board, 0, 6), None);
}

#[test]
fn castling_moves_king_and_rook() {
    let mut board = Board::empty();
    board.place(4, 0, PieceType::King, Color::White).unwrap();
    board.place(7, 0, PieceType::Rook, Color::White).unwrap();
    board.place(0, 0, PieceType::Rook, Color::White).unwrap();
    board.place(4, 7, PieceType::King, Color::Black).unwrap();
    board.set_castling_rights(CastlingRights {
        white_kingside: true,
        white_queenside: true,
        black_kingside: false,
        black_queenside: false,
    });
    let e1 = spot(&board, 4, 0);
    let plys = king_plys(&board, &e1);
    assert_eq!(plys.len(), 7);
    assert_eq!(plys[5].kind(), PlyKind::CastleKingside);
    assert_eq!(plys[6].kind(), PlyKind::CastleQueenside);

    let mut short = board.duplicate();
    short.make_ply(plys[5]).unwrap();
    assert_eq!(kind_of(&short, 6, 0), Some((PieceType::King, Color::White)));
    assert_eq!(kind_of(&short, 5, 0), Some((PieceType::Rook, Color::White)));
    assert_eq!(kind_of(&short, 7, 0), None);
    assert_eq!(kind_of(&short, 4, 0), None);
    assert!(!short.castling_rights().white_kingside);
    assert!(!short.castling_rights().white_queenside);

    let mut long = board.duplicate();
    long.make_ply(plys[6]).unwrap();
    assert_eq!(kind_of(&long, 2, 0), Some((PieceType::King, Color::White)));
    assert_eq!(kind_of(&long, 3, 0), Some((PieceType::Rook, Color::White)));
    assert_eq!(kind_of(&long, 0, 0), None);
}

#[test]
fn castling_is_barred_across_an_attacked_square() {
    let mut board = Board::empty();
    board.place(4, 0, PieceType::King, Color::White).unwrap();
    board.place(7, 0, PieceType::Rook, Color::White).unwrap();
    board.place(0, 0, PieceType::Rook, Color::White).unwrap();
    board.place(5, 7, PieceType::Rook, Color::Black).unwrap();
    board.set_castling_rights(CastlingRights {
        white_kingside: true,
        white_queenside: true,
        black_kingside: false,
        black_queenside: false,
    });
    let plys = king_plys(&board, &spot(&board, 4, 0));
    assert!(plys.iter().all(|p| p.kind() != PlyKind::CastleKingside));
    assert!(plys.iter().any(|p| p.kind() == PlyKind::CastleQueenside));
}

#[test]
fn castling_needs_the_right() {
    let mut board = Board::empty();
    board.place(4, 0, PieceType::King, Color::White).unwrap();
    board.place(7, 0, PieceType::Rook, Color::White).unwrap();
    let plys = king_plys(&board, &spot(&board, 4, 0));
    assert_eq!(plys.len(), 5);
}

#[test]
fn moving_a_rook_gives_up_its_right() {
    let mut board = Board::new();
    play(&mut board, (7, 1), (7, 3));
    play(&mut board, (0, 6), (0, 4));
    play(&mut board, (7, 0), (7, 2));
    let r = board.castling_rights();
    assert!(!r.white_kingside);
    assert!(r.white_queenside);
    assert!(r.black_kingside);
    assert!(r.black_queenside);
    play(&mut board, (0, 7), (0, 5));
    assert!(!board.castling_rights().black_queenside);
    assert!(board.castling_rights().black_kingside);
}

#[test]
fn counters_follow_the_plys() {
    let mut board = Board::new();
    assert_eq!(board.halfmove_clock(), 0);
    assert_eq!(board.fullmove_number(), 1);
    play(&mut board, (6, 0), (5, 2));
    assert_eq!(board.halfmove_clock(), 1);
    assert_eq!(board.fullmove_number(), 1);
    play(&mut board, (6, 7), (5, 5));
    assert_eq!(board.halfmove_clock(), 2);
    assert_eq!(board.fullmove_number(), 2);
    play(&mut board, (4, 1), (4, 3));
    assert_eq!(board.halfmove_clock(), 0);
    play(&mut board, (5, 5), (4, 3));
    assert_eq!(board.halfmove_clock(), 0);
    assert_eq!(board.fullmove_number(), 3);
    assert_eq!(board.side_to_move(), Color::White);
}

#[test]
fn out_of_range_is_reported() {
    let mut board = Board::new();
    assert_eq!(board.try_square(8, 0).err(), Some(ChessError::OutOfRange));
    assert_eq!(board.try_square(0, 8).err(), Some(ChessError::OutOfRange));
    assert_eq!(board.occupant_at(9, 9), Err(ChessError::OutOfRange));
    assert_eq!(board.place(8, 8, PieceType::Pawn, Color::White), Err(ChessError::OutOfRange));
    assert_eq!(board.try_square(7, 7).unwrap().row(), 8);
}

#[test]
fn ply_from_an_empty_square_is_refused() {
    let mut board = Board::new();
    let ply = Ply::new(spot(&board, 4, 3), spot(&board, 4, 4));
    assert_eq!(board.make_ply(ply), Err(ChessError::InvalidPly));
    assert_eq!(legal_plys_for_side(&board, Color::White).len(), 20);
    assert_eq!(board.side_to_move(), Color::White);
    assert!(!board.accepts(&ply));
}

#[test]
fn relative_squares_stay_on_the_board() {
    let board = Board::new();
    let a1 = spot(&board, 0, 0);
    assert!(board.get_relative_square(&a1, -1, 0).is_none());
    assert!(board.get_relative_square(&a1, 0, -1).is_none());
    assert!(board.get_relative_square(&a1, 8, 0).is_none());
    assert!(board.get_relative_square(&a1, 0, 100).is_none());
    let h8 = board.get_relative_square(&a1, 7, 7).unwrap();
    assert_eq!((h8.col(), h8.row()), (8, 8));
    assert_eq!(h8.piece.unwrap().ty(), PieceType::Rook);
    assert_eq!(h8.piece.unwrap().color(), Color::Black);
}

#[test]
fn identities_count_up_and_locate_pieces() {
    let board = Board::new();
    let e1 = board.piece(5).unwrap();
    assert_eq!((e1.col(), e1.row()), (5, 1));
    assert_eq!(e1.piece.unwrap().ty(), PieceType::King);
    let e8 = board.piece(29).unwrap();
    assert_eq!((e8.col(), e8.row()), (5, 8));
    assert_eq!(e8.piece.unwrap().ty(), PieceType::King);
    assert_eq!(board.piece(17).unwrap().row(), 7);
    assert!(board.piece(33).is_none());
    assert!(board.piece(0).is_none());
}

#[test]
fn a_piece_keeps_its_identity_when_it_moves() {
    let mut board = Board::new();
    let id = board.occupant_at(6, 0).unwrap().unwrap().id;
    play(&mut board, (6, 0), (5, 2));
    let now = board.piece(id).unwrap();
    assert_eq!((now.col(), now.row()), (6, 3));
}

#[test]
fn pieces_built_alone_have_type_and_color() {
    let p = Piece::new(PieceType::Bishop, Color::Black);
    assert_eq!(p.ty(), PieceType::Bishop);
    assert_eq!(p.color(), Color::Black);
    assert_eq!(p.symbol(), 'B');
    assert_eq!(Piece::pawn(Color::White).symbol(), '*');
    assert_eq!(Piece::rook(Color::White).ty(), PieceType::Rook);
    assert_eq!(Piece::knight(Color::White).ty(), PieceType::Knight);
    assert_eq!(Piece::queen(Color::Black).ty(), PieceType::Queen);
    assert_eq!(Piece::king(Color::Black).ty(), PieceType::King);
    assert_eq!(Color::White.opposite(), Color::Black);
}

#[test]
fn opponents_need_two_pieces() {
    let board = Board::new();
    let white = spot(&board, 0, 0);
    let black = spot(&board, 0, 7);
    let empty = spot(&board, 0, 3);
    assert!(white.is_occupied_by_opponent(&black));
    assert!(black.is_occupied_by_opponent(&white));
    assert!(!white.is_occupied_by_opponent(&white));
    assert!(!empty.is_occupied_by_opponent(&white));
    assert!(!white.is_occupied_by_opponent(&empty));
}

#[test]
fn pawns_attack_diagonally_whatever_stands_there() {
    let mut board = Board::empty();
    board.place(4, 3, PieceType::Pawn, Color::White).unwrap();
    assert!(board.is_attacked(&spot(&board, 3, 4), Color::White));
    assert!(board.is_attacked(&spot(&board, 5, 4), Color::White));
    assert!(!board.is_attacked(&spot(&board, 4, 4), Color::White));
    assert!(!board.is_attacked(&spot(&board, 3, 2), Color::White));
    assert!(!board.is_attacked(&spot(&board, 3, 4), Color::Black));
}

#[test]
fn pinned_piece_may_not_leave_the_line() {
    let mut board = Board::empty();
    board.place(4, 0, PieceType::King, Color::White).unwrap();
    board.place(4, 1, PieceType::Knight, Color::White).unwrap();
    board.place(4, 7, PieceType::Rook, Color::Black).unwrap();
    let e2 = spot(&board, 4, 1);
    assert_eq!(pseudo_legal_plys(&board, &e2).len(), 6);
    assert_eq!(e2.valid_plys(&board).len(), 0);
}

#[test]
fn black_castles_on_its_own_rank() {
    let mut board = Board::empty();
    board.place(4, 7, PieceType::King, Color::Black).unwrap();
    board.place(7, 7, PieceType::Rook, Color::Black).unwrap();
    board.place(0, 7, PieceType::Rook, Color::Black).unwrap();
    board.place(4, 0, PieceType::King, Color::White).unwrap();
    // a knight on b8 stands between king and rook on the queen's side
    board.place(1, 7, PieceType::Knight, Color::Black).unwrap();
    board.set_castling_rights(CastlingRights {
        white_kingside: false,
        white_queenside: false,
        black_kingside: true,
        black_queenside: true,
    });
    board.set_side_to_move(Color::Black);
    let e8 = spot(&board, 4, 7);
    let plys = e8.valid_plys(&board);
    let castles: Vec<&Ply> = plys
        .iter()
        .filter(|p| p.kind() == PlyKind::CastleKingside || p.kind() == PlyKind::CastleQueenside)
        .collect();
    assert_eq!(castles.len(), 1);
    assert_eq!(castles[0].kind(), PlyKind::CastleKingside);
    let ply = *castles[0];
    board.make_ply(ply).unwrap();
    assert_eq!(kind_of(&board, 6, 7), Some((PieceType::King, Color::Black)));
    assert_eq!(kind_of(&board, 5, 7), Some((PieceType::Rook, Color::Black)));
    assert!(!board.castling_rights().black_kingside);
    assert!(!board.castling_rights().black_queenside);
    assert_eq!(board.fullmove_number(), 2);
    assert_eq!(board.halfmove_clock(), 1);
}

#[test]
fn black_pawn_promotes_on_the_first_rank() {
    let mut board = Board::empty();
    board.place(7, 1, PieceType::Pawn, Color::Black).unwrap();
    let h2 = spot(&board, 7, 1);
    let plys = pawn_plys(&board, &h2);
    assert_eq!(plys.len(), 4);
    assert!(plys.iter().all(|p| p.to().row() == 1 && p.to().col() == 8));
    board.make_ply(plys[2]).unwrap();
    assert_eq!(kind_of(&board, 7, 0), Some((PieceType::Rook, Color::Black)));
}

#[test]
fn white_takes_en_passant_on_the_sixth_rank() {
    let mut board = Board::new();
    board.place(4, 4, PieceType::Pawn, Color::White).unwrap();
    board.set_side_to_move(Color::Black);
    play(&mut board, (3, 6), (3, 4));
    assert_eq!(board.en_passant_target(), Some((3, 5)));
    let plys = spot(&board, 4, 4).valid_plys(&board);
    let ep = find(&plys, 3, 5);
    assert_eq!(ep.kind(), PlyKind::EnPassantCapture);
    board.make_ply(ep).unwrap();
    assert_eq!(kind_of(&board, 3, 4), None);
    assert_eq!(kind_of(&board, 3, 5), Some((PieceType::Pawn, Color::White)));
}

#[test]
fn capturing_a_rook_at_home_takes_its_right() {
    let mut board = Board::empty();
    board.place(4, 0, PieceType::King, Color::White).unwrap();
    board.place(7, 0, PieceType::Rook, Color::White).unwrap();
    board.place(4, 7, PieceType::King, Color::Black).unwrap();
    board.place(7, 7, PieceType::Rook, Color::Black).unwrap();
    board.set_castling_rights(CastlingRights {
        white_kingside: true,
        white_queenside: false,
        black_kingside: true,
        black_queenside: false,
    });
    play(&mut board, (7, 0), (7, 7));
    let rights = board.castling_rights();
    assert!(!rights.white_kingside);
    assert!(!rights.black_kingside);
}

#[test]
fn square_refuses_what_lies_off_the_board() {
    let board = Board::new();
    assert_eq!(board.square(0, 1).err(), Some(ChessError::OutOfRange));
    assert_eq!(board.square(1, 0).err(), Some(ChessError::OutOfRange));
    assert_eq!(board.square(9, 1).err(), Some(ChessError::OutOfRange));
    assert_eq!(board.square(1, 9).err(), Some(ChessError::OutOfRange));
    let h8 = board.square(8, 8).unwrap();
    assert_eq!((h8.row(), h8.col()), (8, 8));
    let a1 = board.square(1, 1).unwrap();
    assert_eq!((a1.row(), a1.col()), (1, 1));
    assert_eq!(a1.piece.unwrap().ty(), PieceType::Rook);
}

#[test]
fn a_square_without_occupant_has_no_moves_on_any_board() {
    let mut board = Board::empty();
    board.place(0, 0, PieceType::Knight, Color::White).unwrap();
    let bare = Square::new(0, 0, None);
    assert_eq!(bare.valid_plys(&board).len(), 0);
    assert_eq!(legal_plys(&board, &bare).len(), 0);
    assert_eq!(pseudo_legal_plys(&board, &bare).len(), 0);
    // the board's own square does have the knight's two jumps
    assert_eq!(spot(&board, 0, 0).valid_plys(&board).len(), 2);
}

#[test]
fn the_occupant_that_the_square_records_decides() {
    let mut board = Board::empty();
    board.place(4, 0, PieceType::King, Color::White).unwrap();
    board.place(4, 7, PieceType::Rook, Color::Black).unwrap();
    // on the board d4 is empty: a square value that records a white knight there has the
    // knight's eight jumps, and none of them can be applied to this board
    let knight = Square::new(3, 3, Some(Piece::with_id(99, PieceType::Knight, Color::White)));
    assert_eq!(pseudo_legal_plys(&board, &knight).len(), 8);
    assert_eq!(knight.valid_plys(&board).len(), 0);
    assert!(!board.is_legal_ply(&pseudo_legal_plys(&board, &knight)[0]));
}

#[test]
fn king_beside_an_undefended_queen_can_only_take_it() {
    let mut board = Board::empty();
    board.place(4, 0, PieceType::King, Color::White).unwrap();
    board.place(4, 1, PieceType::Queen, Color::Black).unwrap();
    board.place(0, 7, PieceType::King, Color::Black).unwrap();
    let e1 = *board.square(1, 5).unwrap();
    let plys = e1.valid_plys(&board);
    assert_eq!(plys.len(), 1);
    assert_eq!((plys[0].to().row(), plys[0].to().col()), (2, 5));
    for (row, col) in [(1, 4), (1, 6), (2, 4), (2, 6)] {
        assert!(plys.iter().all(|p| (p.to().row(), p.to().col()) != (row, col)));
    }
}

#[test]
fn king_does_not_step_straight_away_from_a_queen() {
    let mut board = Board::empty();
    board.place(4, 3, PieceType::King, Color::White).unwrap();
    board.place(4, 4, PieceType::Queen, Color::Black).unwrap();
    board.place(4, 7, PieceType::Rook, Color::Black).unwrap();
    let e4 = *board.square(4, 5).unwrap();
    let plys = e4.valid_plys(&board);
    // d3 and f3 are the only squares off the queen's lines; e3 lies across the king from her
    assert_eq!(plys.len(), 2);
    assert!(plys.iter().all(|p| p.to().row() == 3 && p.to().col() != 5));
}
