use chess_analizer::annotations::{classify_game_moves, ClassificationConfig};
use chess_analizer::model::{AnalyzedMove, Evaluation, Game, MoveClassification};
use chess_analizer::pgn::GameVisitor;

/// Feeds a game to the visitor the way a PGN reader reports it.
fn read_game(tags: &[(&str, &str)], sans: &[&str]) -> Option<Game> {
    let mut visitor = GameVisitor::new();
    let mut t = visitor.begin_tags();
    for (k, v) in tags {
        visitor.tag(&mut t, k.as_bytes(), v.as_bytes());
    }
    let mut movetext = visitor.begin_movetext(t);
    for san in sans {
        visitor.san(&mut movetext, san);
    }
    visitor.end_game(movetext)
}

#[test]
fn test_pgn_parsing() {
    let tags = [
        ("Event", "Scholar's Mate Example"),
        ("Site", "Local Test"),
        ("Date", "2026.07.31"),
        ("Round", "1"),
        ("White", "Scholar"),
        ("Black", "Target"),
        ("Result", "1-0"),
    ];
    let sans = ["e4", "e5", "Qh5", "Nc6", "Bc4", "Nf6", "Qxf7#"];
    let games: Vec<Game> = read_game(&tags, &sans).into_iter().collect();
    assert_eq!(games.len(), 1);

    let game = &games[0];
    assert_eq!(game.get_header("White"), Some("Scholar"));
    assert_eq!(game.get_header("Black"), Some("Target"));
    assert_eq!(game.get_header("Result"), Some("1-0"));

    assert_eq!(game.moves.len(), 7);

    assert_eq!(game.moves[0].san, "e4");
    assert_eq!(game.moves[0].uci, "e2e4");
    assert_eq!(game.moves[0].move_number, 1);
    assert_eq!(game.moves[0].is_white, true);

    assert_eq!(game.moves[1].san, "e5");
    assert_eq!(game.moves[1].uci, "e7e5");
    assert_eq!(game.moves[1].move_number, 1);
    assert_eq!(game.moves[1].is_white, false);

    assert_eq!(game.moves[5].san, "Nf6");
    assert_eq!(game.moves[5].uci, "g8f6");

    assert_eq!(game.moves[6].san, "Qxf7#");
    assert_eq!(game.moves[6].uci, "h5f7");
}

#[test]
fn test_miss_classification() {
    let mut game = Game {
        headers: Vec::new(),
        moves: vec![AnalyzedMove {
            move_number: 1,
            ply: 0,
            is_white: true,
            san: "Nf3".to_string(),
            uci: "g1f3".to_string(),
            fen_before: "rnbqkbnr/pppppppp/8/8/8/8/PPPPPPPP/RNBQKBNR w KQkq -".to_string(),
            fen_after: "rnbqkbnr/pppppppp/8/8/8/5N2/PPPPPPPP/RNBQKB1R b KQkq -".to_string(),
            evaluation: Some(Evaluation::Centipawns(300)),
            classification: None,
            tactical_findings: Vec::new(),
            engine_metadata: None,
            comment: None,
        }],
        final_evaluation: Some(Evaluation::Centipawns(50)),
    };

    let config = ClassificationConfig::default();
    classify_game_moves(&mut game, &config);

    assert_eq!(game.moves[0].classification, Some(MoveClassification::Miss));
}
