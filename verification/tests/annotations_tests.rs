use chess_analizer::annotations::{classify_all_moves, classify_game_moves, ClassificationConfig};
use chess_analizer::model::{AnalyzedMove, EngineMetadata, Evaluation, Game, MoveClassification, TacticalFinding};
use chess_analizer::tactics::{detect_all_tactics, detect_tactics_for_game, tactics_for_move};

fn mv(ply: u32, uci: &str, fen_after: &str, eval: Option<Evaluation>) -> AnalyzedMove {
    AnalyzedMove {
        move_number: 1 + ply / 2,
        ply,
        is_white: ply % 2 == 0,
        san: "x".to_string(),
        uci: uci.to_string(),
        fen_before: String::new(),
        fen_after: fen_after.to_string(),
        evaluation: eval,
        classification: None,
        tactical_findings: Vec::new(),
        engine_metadata: None,
        comment: None,
    }
}

/// One White move from `before` to `after`.
fn grade_white(before: Evaluation, after: Evaluation) -> Option<MoveClassification> {
    let mut g = Game { headers: Vec::new(), moves: vec![mv(0, "e2e4", "", Some(before))], final_evaluation: Some(after) };
    classify_game_moves(&mut g, &ClassificationConfig::default());
    g.moves[0].classification
}

/// One Black move from `before` to `after`.
fn grade_black(before: Evaluation, after: Evaluation) -> Option<MoveClassification> {
    let mut g = Game { headers: Vec::new(), moves: vec![mv(1, "e7e5", "", Some(before))], final_evaluation: Some(after) };
    classify_game_moves(&mut g, &ClassificationConfig::default());
    g.moves[0].classification
}

#[test]
fn default_thresholds() {
    let c = ClassificationConfig::default();
    assert_eq!(c.best_move_threshold, 10);
    assert_eq!(c.excellent_threshold, 20);
    assert_eq!(c.good_threshold, 50);
    assert_eq!(c.inaccuracy_threshold, 100);
    assert_eq!(c.mistake_threshold, 200);
}

#[test]
fn grades_by_loss() {
    assert_eq!(grade_white(Evaluation::Centipawns(30), Evaluation::Centipawns(20)), Some(MoveClassification::BestMove));
    assert_eq!(grade_white(Evaluation::Centipawns(30), Evaluation::Centipawns(10)), Some(MoveClassification::Excellent));
    assert_eq!(grade_white(Evaluation::Centipawns(30), Evaluation::Centipawns(-20)), Some(MoveClassification::Good));
    assert_eq!(grade_white(Evaluation::Centipawns(30), Evaluation::Centipawns(-70)), Some(MoveClassification::Inaccuracy));
    assert_eq!(grade_white(Evaluation::Centipawns(30), Evaluation::Centipawns(-170)), Some(MoveClassification::Mistake));
    assert_eq!(grade_white(Evaluation::Centipawns(30), Evaluation::Centipawns(-171)), Some(MoveClassification::Blunder));
    // A gain is a Best Move.
    assert_eq!(grade_white(Evaluation::Centipawns(30), Evaluation::Centipawns(90)), Some(MoveClassification::BestMove));
    // For Black the loss is the rise of the score.
    assert_eq!(grade_black(Evaluation::Centipawns(-30), Evaluation::Centipawns(-25)), Some(MoveClassification::BestMove));
    assert_eq!(grade_black(Evaluation::Centipawns(-30), Evaluation::Centipawns(60)), Some(MoveClassification::Inaccuracy));
}

#[test]
fn misses_and_blunders_from_winning_positions() {
    // Winning by 1.50 and dropping a pawn while staying above -1.00: Miss.
    assert_eq!(grade_white(Evaluation::Centipawns(150), Evaluation::Centipawns(50)), Some(MoveClassification::Miss));
    // Dropping to below -1.00: Blunder.
    assert_eq!(grade_white(Evaluation::Centipawns(150), Evaluation::Centipawns(-101)), Some(MoveClassification::Blunder));
    // Losing a forced mate even to a large advantage: Miss.
    assert_eq!(grade_white(Evaluation::Mate(2), Evaluation::Centipawns(800)), Some(MoveClassification::Miss));
    // Keeping the forced mate: graded by the loss (a nearer mate is a gain).
    assert_eq!(grade_white(Evaluation::Mate(3), Evaluation::Mate(2)), Some(MoveClassification::BestMove));
    // Black's mate is a negative mate.
    assert_eq!(grade_black(Evaluation::Mate(-2), Evaluation::Centipawns(0)), Some(MoveClassification::Miss));
    // A loss beyond 2.00 that leaves a playable position is a Mistake, not a Blunder.
    assert_eq!(grade_white(Evaluation::Centipawns(140), Evaluation::Centipawns(-70)), Some(MoveClassification::Mistake));
    assert_eq!(grade_white(Evaluation::Centipawns(100), Evaluation::Centipawns(-101)), Some(MoveClassification::Blunder));
    assert_eq!(grade_white(Evaluation::Centipawns(100), Evaluation::Centipawns(-100)), Some(MoveClassification::Mistake));
}

#[test]
fn engine_best_move_and_missing_evaluations() {
    let mut g = Game {
        headers: Vec::new(),
        moves: vec![mv(0, "e2e4", "", None), mv(1, "e7e5", "", Some(Evaluation::Centipawns(20))), mv(2, "g1f3", "", Some(Evaluation::Centipawns(900)))],
        final_evaluation: None,
    };
    g.moves[0].engine_metadata = Some(EngineMetadata { best_move: "e2e4".to_string(), principal_variation: Vec::new(), depth: 10, nodes: None });
    g.moves[2].classification = Some(MoveClassification::Good);
    classify_game_moves(&mut g, &ClassificationConfig::default());
    // The engine's own move is best, evaluations or not.
    assert_eq!(g.moves[0].classification, Some(MoveClassification::BestMove));
    // Black: 0.20 before, 9.00 after: loses 8.80.
    assert_eq!(g.moves[1].classification, Some(MoveClassification::Blunder));
    // No evaluation after the last move: the classification stays as it was.
    assert_eq!(g.moves[2].classification, Some(MoveClassification::Good));
}

#[test]
fn classifying_twice_changes_nothing() {
    let mut games = vec![Game {
        headers: Vec::new(),
        moves: vec![mv(0, "e2e4", "", Some(Evaluation::Centipawns(150))), mv(1, "e7e5", "", Some(Evaluation::Centipawns(40)))],
        final_evaluation: Some(Evaluation::Centipawns(45)),
    }];
    let cfg = ClassificationConfig::default();
    classify_all_moves(&mut games, &cfg);
    let first: Vec<_> = games[0].moves.iter().map(|m| m.classification).collect();
    classify_all_moves(&mut games, &cfg);
    let second: Vec<_> = games[0].moves.iter().map(|m| m.classification).collect();
    assert_eq!(first, second);
    assert_eq!(first, vec![Some(MoveClassification::Miss), Some(MoveClassification::BestMove)]);
}

const AFTER_QH5: &str = "rnbqkbnr/pppp1ppp/8/4p2Q/4P3/8/PPPP1PPP/RNB1KBNR b KQkq -";
const MATED: &str = "r1bqkb1r/pppp1Qpp/2n2n2/4p3/2B1P3/8/PPPP1PPP/RNB1K1NR b KQkq -";

#[test]
fn missed_mates() {
    let m = mv(0, "d1h5", AFTER_QH5, Some(Evaluation::Mate(1)));
    // Mate in one not given: Missed Mate.
    assert_eq!(tactics_for_move(&m, Some(Evaluation::Centipawns(300)), false), vec![TacticalFinding::MissedMate]);
    // Mate given: nothing missed.
    assert_eq!(tactics_for_move(&m, Some(Evaluation::Mate(0)), true), Vec::<TacticalFinding>::new());
    let m3 = mv(0, "d1h5", AFTER_QH5, Some(Evaluation::Mate(3)));
    // The mate got farther: Missed Forced Mate.
    assert_eq!(tactics_for_move(&m3, Some(Evaluation::Mate(4)), false), vec![TacticalFinding::MissedForcedMate]);
    // The mate got nearer: nothing.
    assert_eq!(tactics_for_move(&m3, Some(Evaluation::Mate(2)), false), Vec::<TacticalFinding>::new());
    // Black's mate lost.
    let b = mv(1, "e7e5", AFTER_QH5, Some(Evaluation::Mate(-2)));
    assert_eq!(tactics_for_move(&b, None, false), vec![TacticalFinding::MissedForcedMate]);
    // Not a mate of the mover: nothing.
    let w = mv(0, "e2e4", AFTER_QH5, Some(Evaluation::Mate(-2)));
    assert_eq!(tactics_for_move(&w, None, false), Vec::<TacticalFinding>::new());
}

#[test]
fn detection_reads_positions() {
    let mut g = Game {
        headers: Vec::new(),
        moves: vec![
            mv(0, "h5f7", MATED, Some(Evaluation::Mate(1))),
            mv(1, "a7a6", AFTER_QH5, Some(Evaluation::Mate(-1))),
            mv(2, "a2a3", "not a fen", Some(Evaluation::Mate(1))),
        ],
        final_evaluation: Some(Evaluation::Centipawns(0)),
    };
    g.moves[2].tactical_findings = vec![TacticalFinding::HangingPiece];
    detect_tactics_for_game(&mut g);
    // Gave mate.
    assert_eq!(g.moves[0].tactical_findings, Vec::<TacticalFinding>::new());
    // Black had mate in one and played something else.
    assert_eq!(g.moves[1].tactical_findings, vec![TacticalFinding::MissedMate]);
    // Unreadable position: findings stay.
    assert_eq!(g.moves[2].tactical_findings, vec![TacticalFinding::HangingPiece]);
    let mut all = vec![g];
    detect_all_tactics(&mut all);
    assert_eq!(all[0].moves[1].tactical_findings, vec![TacticalFinding::MissedMate]);
}

fn sample_game() -> Game {
    let mut g = Game {
        headers: Vec::new(),
        moves: vec![
            mv(0, "e2e4", AFTER_QH5, Some(Evaluation::Mate(2))),
            mv(1, "e7e5", AFTER_QH5, Some(Evaluation::Centipawns(500))),
            mv(2, "h5f7", MATED, Some(Evaluation::Mate(1))),
        ],
        final_evaluation: Some(Evaluation::Mate(0)),
    };
    g.moves[1].engine_metadata = Some(EngineMetadata { best_move: "e7e5".to_string(), principal_variation: Vec::new(), depth: 3, nodes: None });
    g
}

fn summary(g: &Game) -> Vec<(Option<MoveClassification>, Vec<TacticalFinding>)> {
    g.moves.iter().map(|m| (m.classification, m.tactical_findings.clone())).collect()
}

#[test]
fn classification_and_detection_commute() {
    let cfg = ClassificationConfig::default();
    let mut a = sample_game();
    classify_game_moves(&mut a, &cfg);
    detect_tactics_for_game(&mut a);
    let mut b = sample_game();
    detect_tactics_for_game(&mut b);
    classify_game_moves(&mut b, &cfg);
    assert_eq!(summary(&a), summary(&b));
    assert_eq!(
        summary(&a),
        vec![
            (Some(MoveClassification::Miss), vec![TacticalFinding::MissedForcedMate]),
            (Some(MoveClassification::BestMove), vec![]),
            // Mate(0) afterwards is not a mate for the mover, so the mate counts as lost.
            (Some(MoveClassification::Miss), vec![]),
        ]
    );
}

#[test]
fn detecting_twice_changes_nothing() {
    let mut g = sample_game();
    detect_tactics_for_game(&mut g);
    let once = summary(&g);
    detect_tactics_for_game(&mut g);
    assert_eq!(summary(&g), once);
}
