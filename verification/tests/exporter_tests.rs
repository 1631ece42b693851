use chess_analizer::exporter::{export_is_sliceable, export_to_pgn};
use chess_analizer::model::{EngineMetadata, Evaluation, Game, MoveClassification, TacticalFinding};
use chess_analizer::pgn::GameVisitor;

fn game(tags: &[(&str, &str)], sans: &[&str]) -> Game {
    let mut v = GameVisitor::new();
    let mut t = v.begin_tags();
    for (k, val) in tags {
        v.tag(&mut t, k.as_bytes(), val.as_bytes());
    }
    let mut mt = v.begin_movetext(t);
    for s in sans {
        v.san(&mut mt, s);
    }
    v.end_game(mt).unwrap()
}

fn meta(best: &str, pv: &[&str]) -> EngineMetadata {
    EngineMetadata {
        best_move: best.to_string(),
        principal_variation: pv.iter().map(|s| s.to_string()).collect(),
        depth: 10,
        nodes: None,
    }
}

#[test]
fn plain_game() {
    let g = game(&[("Event", "T"), ("Result", "1-0")], &["e4", "e5"]);
    let out = export_to_pgn(&vec![g]);
    assert_eq!(out, "[Event \"T\"]\n[Result \"1-0\"]\n\n1. e4 e5\n1-0\n\n");
}

#[test]
fn evaluation_and_best_move() {
    let mut g = game(&[("Event", "T"), ("Result", "1-0")], &["e4", "e5"]);
    g.moves[0].evaluation = Some(Evaluation::Centipawns(30));
    g.moves[0].engine_metadata = Some(meta("d2d4", &["d2d4", "d7d5"]));
    let games = vec![g];
    assert!(export_is_sliceable(&games));
    let out = export_to_pgn(&games);
    assert_eq!(out, "[Event \"T\"]\n[Result \"1-0\"]\n\n1. e4 { [%eval +0.30] [%bestmove d4] } 1... e5\n1-0\n\n");
}

#[test]
fn full_annotation_with_variation_and_wrapping() {
    let mut g = game(&[("Event", "T")], &["e4", "e5"]);
    g.moves[0].evaluation = Some(Evaluation::Centipawns(350));
    g.moves[0].engine_metadata = Some(meta("d2d4", &["d2d4", "d7d5", "c2c4"]));
    g.moves[0].classification = Some(MoveClassification::Mistake);
    g.moves[0].tactical_findings = vec![TacticalFinding::MissedPin];
    g.moves[0].comment = Some("nice".to_string());
    g.moves[1].evaluation = Some(Evaluation::Centipawns(100));
    let games = vec![g];
    assert!(export_is_sliceable(&games));
    let out = export_to_pgn(&games);
    assert_eq!(
        out,
        "[Event \"T\"]\n\n1. e4 { [%eval +3.50] [%bestmove d4] [%analysis classification=Mistake score_loss=2.50 missed=MissedPin] nice } (1. d4 d5 2. c4)\n1... e5 { [%eval +1.00] }\n*\n\n"
    );
}

#[test]
fn mate_variation_from_black() {
    let mut g = game(&[], &["f3", "e5", "g4", "Qh4#"]);
    g.moves[3].evaluation = Some(Evaluation::Mate(-1));
    g.moves[3].engine_metadata = Some(meta("d8h4", &["d8h4"]));
    let out = export_to_pgn(&vec![g]);
    assert_eq!(out, "\n1. f3 e5 2. g4 Qh4# { [%eval #-1] [%bestmove Qh4] } (2... Qh4)\n*\n\n");
}

#[test]
fn unknown_best_move_is_kept_as_given() {
    let mut g = game(&[], &["e4"]);
    g.moves[0].engine_metadata = Some(meta("zz99", &[]));
    let out = export_to_pgn(&vec![g]);
    assert_eq!(out, "\n1. e4 { [%bestmove zz99] }\n*\n\n");
}

#[test]
fn slicing_inside_a_character_is_refused() {
    let mut g = game(&[], &["e4"]);
    g.moves[0].engine_metadata = Some(meta("e\u{e9}2e4", &[]));
    assert!(!export_is_sliceable(&vec![g]));
}

#[test]
fn several_games() {
    let a = game(&[("Result", "0-1")], &["d4"]);
    let b = game(&[("Result", "1/2-1/2")], &[]);
    let out = export_to_pgn(&vec![a, b]);
    assert_eq!(out, "[Result \"0-1\"]\n\n1. d4\n0-1\n\n[Result \"1/2-1/2\"]\n\n1/2-1/2\n\n");
}

#[test]
fn castling_in_standard_uci_is_read() {
    // 1. e4 e5 2. Nf3 Nc6 3. Bc4 Bc5: White may castle kingside.
    let mut g = game(&[], &["e4", "e5", "Nf3", "Nc6", "Bc4", "Bc5", "Nc3"]);
    g.moves[6].evaluation = Some(Evaluation::Centipawns(400));
    g.moves[6].engine_metadata = Some(meta("e1g1", &["e1g1", "g8f6", "d2d3"]));
    let out = export_to_pgn(&vec![g]);
    assert_eq!(
        out,
        "\n1. e4 e5 2. Nf3 Nc6 3. Bc4 Bc5\n4. Nc3 { [%eval +4.00] [%bestmove O-O] } (4. O-O Nf6 5. d3)\n*\n\n"
    );
}

#[test]
fn unreadable_engine_moves_stay_as_given() {
    // Too short, a bad first square, a bad second square, and no such legal move.
    for best in ["e2", "z9e4", "e2x4", "e2e5"] {
        let mut g = game(&[], &["e4"]);
        g.moves[0].engine_metadata = Some(meta(best, &[]));
        let out = export_to_pgn(&vec![g]);
        assert_eq!(out, format!("\n1. e4 {{ [%bestmove {}] }}\n*\n\n", best));
    }
}
