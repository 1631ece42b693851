use chess_analizer::pgn::GameVisitor;

#[test]
fn fen_tag_sets_the_start() {
    let mut v = GameVisitor::new();
    assert!(v.current_game.is_none());
    let mut t = v.begin_tags();
    v.tag(&mut t, b"FEN", b"4k3/8/8/8/8/8/4P3/4K3 w - - 0 1");
    let mut mt = v.begin_movetext(t);
    // The position is kept as EPD, without the move counters.
    assert_eq!(mt.position, "4k3/8/8/8/8/8/4P3/4K3 w - -");
    v.san(&mut mt, "e4");
    assert_eq!(mt.moves.len(), 1);
    assert_eq!(mt.moves[0].uci, "e2e4");
    assert_eq!(mt.moves[0].fen_before, "4k3/8/8/8/8/8/4P3/4K3 w - -");
    assert_eq!(mt.moves[0].fen_after, "4k3/8/8/8/4P3/8/8/4K3 b - -");
    assert_eq!(mt.position, mt.moves[0].fen_after);
}

#[test]
fn unreadable_fen_tag_means_the_standard_start() {
    let mut v = GameVisitor::new();
    let mut t = v.begin_tags();
    v.tag(&mut t, b"fen", b"not a position");
    let mt = v.begin_movetext(t);
    assert_eq!(mt.position, "rnbqkbnr/pppppppp/8/8/8/8/PPPPPPPP/RNBQKBNR w KQkq -");
}

#[test]
fn illegal_moves_are_skipped() {
    let mut v = GameVisitor::new();
    let t = v.begin_tags();
    let mut mt = v.begin_movetext(t);
    v.san(&mut mt, "e4");
    v.san(&mut mt, "e4");
    v.san(&mut mt, "xyz");
    v.san(&mut mt, "c5");
    assert_eq!(mt.moves.len(), 2);
    assert_eq!(mt.moves[1].san, "c5");
    assert_eq!(mt.moves[1].ply, 1);
    assert_eq!(mt.moves[1].move_number, 1);
    assert!(!mt.moves[1].is_white);
    assert_eq!(mt.moves[1].fen_before, mt.moves[0].fen_after);
}

#[test]
fn comments_attach_to_the_last_move() {
    let mut v = GameVisitor::new();
    let t = v.begin_tags();
    let mut mt = v.begin_movetext(t);
    // Before any move: dropped.
    v.comment(&mut mt, b" opening ");
    v.san(&mut mt, "d4");
    v.comment(&mut mt, b"  queen's pawn ");
    v.comment(&mut mt, b"   ");
    v.comment(&mut mt, b"again");
    assert_eq!(mt.moves[0].comment.as_deref(), Some("queen's pawn again"));
    assert!(v.begin_variation(&mut mt));
    let g = v.end_game(mt).unwrap();
    assert_eq!(g.moves.len(), 1);
    assert_eq!(g.final_evaluation, None);
    assert_eq!(v.current_game.as_ref().unwrap().moves[0].comment.as_deref(), Some("queen's pawn again"));
}

#[test]
fn tags_that_are_not_utf8_read_as_empty() {
    let mut v = GameVisitor::new();
    let mut t = v.begin_tags();
    v.tag(&mut t, b"Event", &[0xff, 0xfe]);
    v.tag(&mut t, &[0xc3], b"x");
    v.tag(&mut t, "Site".as_bytes(), "Zürich".as_bytes());
    assert_eq!(t, vec![("Event".to_string(), String::new()), (String::new(), "x".to_string()), ("Site".to_string(), "Zürich".to_string())]);
}
