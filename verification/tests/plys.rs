use rchess::board::Board;

#[test]
fn pawn() {
    let mut board = Board::new();

    // e4

    let e2 = board.square(2, 5).unwrap();

    let plys = e2.valid_plys(&board);

    assert_eq!(plys.len(), 2);

    board.make_ply(plys[1]).unwrap();

    // d5

    let d7 = board.square(7, 4).unwrap();

    let plys = d7.valid_plys(&board);

    board.make_ply(plys[1]).unwrap();

    //exd5

    let e4 = board.square(4, 5).unwrap();

    let plys = e4.valid_plys(&board);

    assert_eq!(plys.len(), 2);
}

#[test]
fn king() {
    let mut board = Board::new();

    // e4

    let e2 = board.square(2, 5).unwrap();

    let plys = e2.valid_plys(&board);

    board.make_ply(plys[1]).unwrap();

    // Ke2

    let e1 = board.square(1, 5).unwrap();

    let plys = e1.valid_plys(&board);

    assert_eq!(plys.len(), 1);

    board.make_ply(plys[0]).unwrap();

    // Kd3

    let e2 = board.square(2, 5).unwrap();

    let plys = e2.valid_plys(&board);

    assert_eq!(plys.len(), 4);

    board.make_ply(plys[3]).unwrap();

    // Kc4

    let d3 = board.square(3, 4).unwrap();

    let plys = d3.valid_plys(&board);

    assert_eq!(plys.len(), 5);

    board.make_ply(plys[4]).unwrap();

    // Kc5

    let c4 = board.square(4, 3).unwrap();

    let plys = c4.valid_plys(&board);

    assert_eq!(plys.len(), 8);

    board.make_ply(plys[0]).unwrap();
}
