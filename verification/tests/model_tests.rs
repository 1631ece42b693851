use chess_analizer::model::{get_game_year, year_is_sliceable, AnalyzedMove, EngineMetadata, Evaluation, Game, MoveClassification, TacticalFinding};

fn game_with_headers(h: &[(&str, &str)]) -> Game {
    Game {
        headers: h.iter().map(|(k, v)| (k.to_string(), v.to_string())).collect(),
        moves: Vec::new(),
        final_evaluation: None,
    }
}

#[test]
fn evaluation_text() {
    assert_eq!(Evaluation::Centipawns(82).to_string(), "+0.82");
    assert_eq!(Evaluation::Centipawns(-105).to_string(), "-1.05");
    assert_eq!(Evaluation::Centipawns(0).to_string(), "+0.00");
    assert_eq!(Evaluation::Centipawns(1234).to_string(), "+12.34");
    assert_eq!(Evaluation::Centipawns(-7).to_string(), "-0.07");
    assert_eq!(Evaluation::Mate(3).to_string(), "#+3");
    assert_eq!(Evaluation::Mate(-2).to_string(), "#-2");
    assert_eq!(Evaluation::Mate(0).to_string(), "#-0");
}

#[test]
fn evaluation_absolute_value() {
    assert_eq!(Evaluation::Centipawns(150).absolute_value(), 150);
    assert_eq!(Evaluation::Centipawns(-40).absolute_value(), -40);
    assert_eq!(Evaluation::Mate(1).absolute_value(), 99900);
    assert_eq!(Evaluation::Mate(5).absolute_value(), 99500);
    assert_eq!(Evaluation::Mate(0).absolute_value(), 100000);
    assert_eq!(Evaluation::Mate(-3).absolute_value(), -100300);
    // A nearer mate scores higher than a farther one.
    assert!(Evaluation::Mate(2).absolute_value() > Evaluation::Mate(4).absolute_value());
}

#[test]
fn classification_and_finding_names() {
    assert_eq!(MoveClassification::BestMove.to_string(), "Best Move");
    assert_eq!(MoveClassification::BestMove.tag(), "BestMove");
    assert_eq!(MoveClassification::Inaccuracy.to_string(), "Inaccuracy");
    assert_eq!(MoveClassification::Miss.tag(), "Miss");
    assert_eq!(TacticalFinding::MissedMate.to_string(), "Missed Mate");
    assert_eq!(TacticalFinding::MissedForcedMate.tag(), "MissedForcedMate");
    assert_eq!(TacticalFinding::FreePieceNotCaptured.to_string(), "Free Piece Not Captured");
    assert_eq!(TacticalFinding::OnlyWinningMove.tag(), "OnlyWinningMove");
}

#[test]
fn header_lookup_ignores_ascii_case() {
    let g = game_with_headers(&[("White", "Alice"), ("Result", "0-1"), ("white", "Bob")]);
    assert_eq!(g.get_header("White"), Some("Alice"));
    assert_eq!(g.get_header("WHITE"), Some("Alice"));
    assert_eq!(g.get_header("result"), Some("0-1"));
    assert_eq!(g.get_header("Black"), None);
}

#[test]
fn game_year_from_date() {
    assert_eq!(get_game_year(&game_with_headers(&[("Date", "2026.07.31")])), Some(2026));
    assert_eq!(get_game_year(&game_with_headers(&[("date", "1999.??.??")])), Some(1999));
    assert_eq!(get_game_year(&game_with_headers(&[("Date", "????.??.??")])), None);
    assert_eq!(get_game_year(&game_with_headers(&[("Date", "202")])), None);
    assert_eq!(get_game_year(&game_with_headers(&[("Event", "x")])), None);
    assert_eq!(get_game_year(&game_with_headers(&[("Date", "+202.01.01")])), Some(202));
    assert_eq!(get_game_year(&game_with_headers(&[("Date", "-100")])), Some(-100));
}

#[test]
fn duplicate_copies_everything() {
    let g = Game {
        headers: vec![("Event".to_string(), "Test".to_string())],
        moves: vec![AnalyzedMove {
            move_number: 1,
            ply: 0,
            is_white: true,
            san: "e4".to_string(),
            uci: "e2e4".to_string(),
            fen_before: "a".to_string(),
            fen_after: "b".to_string(),
            evaluation: Some(Evaluation::Centipawns(20)),
            classification: Some(MoveClassification::Good),
            tactical_findings: vec![TacticalFinding::MissedPin],
            engine_metadata: Some(EngineMetadata {
                best_move: "d2d4".to_string(),
                principal_variation: vec!["d2d4".to_string(), "d7d5".to_string()],
                depth: 12,
                nodes: Some(1000),
            }),
            comment: Some("hi".to_string()),
        }],
        final_evaluation: Some(Evaluation::Mate(2)),
    };
    let d = g.duplicate();
    assert_eq!(d.headers, g.headers);
    assert_eq!(d.moves.len(), 1);
    assert_eq!(d.moves[0].san, "e4");
    assert_eq!(d.moves[0].tactical_findings, vec![TacticalFinding::MissedPin]);
    assert_eq!(d.moves[0].engine_metadata.as_ref().unwrap().principal_variation, vec!["d2d4".to_string(), "d7d5".to_string()]);
    assert_eq!(d.moves[0].comment.as_deref(), Some("hi"));
    assert_eq!(d.final_evaluation, Some(Evaluation::Mate(2)));
}

#[test]
fn date_cut_points() {
    assert!(year_is_sliceable(&game_with_headers(&[("Date", "2026.07.31")])));
    assert!(year_is_sliceable(&game_with_headers(&[("Date", "é")])));
    assert!(year_is_sliceable(&game_with_headers(&[("Event", "x")])));
    // "aé…": bytes 0-0 'a', 1-2 'é', 3-5 '…': byte 4 is inside '…'.
    assert!(!year_is_sliceable(&game_with_headers(&[("Date", "aé…")])));
    // "éé": bytes 0-1, 2-3; byte 4 is the end.
    assert!(year_is_sliceable(&game_with_headers(&[("Date", "éé")])));
    assert_eq!(get_game_year(&game_with_headers(&[("Date", "éé")])), None);
}
