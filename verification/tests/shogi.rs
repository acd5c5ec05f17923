use shogitest::shogi::{book_position, Color, Game, GameOutcome, Move, Piece, Square};

fn sq(file: u8, rank: u8) -> Square {
    Square { file, rank }
}

#[test]
fn parses_usi_moves() {
    assert_eq!(
        Move::parse("7g7f"),
        Some(Move::Normal { from: sq(7, 7), to: sq(7, 6), promote: false })
    );
    assert_eq!(
        Move::parse("8h2b+"),
        Some(Move::Normal { from: sq(8, 8), to: sq(2, 2), promote: true })
    );
    assert_eq!(Move::parse("P*5e"), Some(Move::Drop(Piece::Pawn, sq(5, 5))));
    assert_eq!(Move::parse("R*1i"), Some(Move::Drop(Piece::Rook, sq(1, 9))));
    assert_eq!(Move::parse("resign"), Some(Move::Resign));
    assert_eq!(Move::parse("win"), Some(Move::Win));
}

#[test]
fn rejects_text_that_is_no_move() {
    for s in ["", "7g7", "7g7f=", "0a1b", "7j7f", "K*5e", "P*0e", "7g7f++", "Resign", "0000"] {
        assert_eq!(Move::parse(s), None, "{s:?}");
    }
}

#[test]
fn writing_a_move_and_reading_it_back_gives_the_move() {
    for text in ["7g7f", "8h2b+", "P*5e", "G*9a", "1i9a+", "resign", "win"] {
        let m = Move::parse(text).unwrap();
        assert_eq!(m.to_usi(), text);
        assert_eq!(Move::parse(&m.to_usi()), Some(m));
    }
    assert_eq!(Move::Null.to_usi(), "0000");
}

#[test]
fn flipping_a_colour_twice_gives_it_back() {
    assert_eq!(Color::Sente.flip(), Color::Gote);
    assert_eq!(Color::Gote.flip().flip(), Color::Gote);
    assert_eq!(Color::from_index(Color::Gote.to_index()), Color::Gote);
    assert_eq!(Color::Sente.to_index(), 0);
}

#[test]
fn the_loser_of_a_resignation_is_the_one_who_resigned() {
    assert_eq!(GameOutcome::LossByResignation(Color::Sente).winner(), Some(Color::Gote));
    assert_eq!(GameOutcome::LossByClock(Color::Gote).winner(), Some(Color::Sente));
    assert_eq!(GameOutcome::WinByDeclaration(Color::Gote).winner(), Some(Color::Gote));
    assert_eq!(GameOutcome::DrawByMoveLimit.winner(), None);
    assert!(!GameOutcome::Undetermined.is_determined());
    assert!(GameOutcome::DrawByAdjudication.is_determined());
}

#[test]
fn follows_the_side_to_move_and_writes_the_position() {
    let mut game = Game::new("startpos");
    assert_eq!(game.stm(), Color::Sente);
    assert_eq!(game.usi_string(), "startpos");
    assert_eq!(game.do_move(Move::parse("7g7f").unwrap()), GameOutcome::Undetermined);
    assert_eq!(game.stm(), Color::Gote);
    assert_eq!(game.do_move(Move::parse("3c3d").unwrap()), GameOutcome::Undetermined);
    assert_eq!(game.usi_string(), "startpos moves 7g7f 3c3d");
    assert_eq!(game.do_move(Move::Resign), GameOutcome::LossByResignation(Color::Sente));
}

#[test]
fn an_sfen_position_may_give_the_move_to_gote() {
    let sfen = "sfen lnsgkgsnl/1r5b1/ppppppppp/9/9/9/PPPPPPPPP/1B5R1/LNSGKGSNL w - 1";
    let mut game = Game::new(sfen);
    assert_eq!(game.stm(), Color::Gote);
    assert_eq!(game.do_move(Move::Win), GameOutcome::WinByDeclaration(Color::Gote));
    assert_eq!(Game::new("sfen x b - 1").stm(), Color::Sente);
    let mut game = Game::new("startpos");
    assert_eq!(game.do_move(Move::Null), GameOutcome::LossByIllegalMove(Color::Sente));
}

#[test]
fn reads_positions_from_book_lines() {
    assert_eq!(
        book_position("lnsgkgsnl/1r5b1/ppppppppp/9/9/9/PPPPPPPPP/1B5R1/LNSGKGSNL b - 1\r"),
        Some("sfen lnsgkgsnl/1r5b1/ppppppppp/9/9/9/PPPPPPPPP/1B5R1/LNSGKGSNL b - 1".to_string())
    );
    assert_eq!(book_position("  startpos "), Some("startpos".to_string()));
    assert_eq!(book_position("sfen 9/9 w - 1"), Some("sfen 9/9 w - 1".to_string()));
    assert_eq!(book_position(" \t"), None);
}
