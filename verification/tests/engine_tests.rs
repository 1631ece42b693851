use chess_analizer::engine::{go_command, is_expected_line, position_command, setoption_command, UciSearch};
use chess_analizer::model::Evaluation;

const WHITE_TO_MOVE: &str = "rnbqkbnr/pppppppp/8/8/8/8/PPPPPPPP/RNBQKBNR w KQkq - 0 1";
const BLACK_TO_MOVE: &str = "rnbqkbnr/pppppppp/8/8/4P3/8/PPPP1PPP/RNBQKBNR b KQkq - 0 1";

#[test]
fn commands() {
    assert_eq!(setoption_command("Threads", 4), "setoption name Threads value 4");
    assert_eq!(setoption_command("Hash", 1024), "setoption name Hash value 1024");
    assert_eq!(position_command(WHITE_TO_MOVE), format!("position fen {}", WHITE_TO_MOVE));
    assert_eq!(go_command(20), "go depth 20");
    assert_eq!(go_command(0), "go depth 0");
}

#[test]
fn expected_lines() {
    assert!(is_expected_line("uciok\n", "uciok"));
    assert!(is_expected_line("  readyok \r\n", "readyok"));
    assert!(!is_expected_line("id name Stockfish", "uciok"));
}

#[test]
fn a_search_from_white_to_move() {
    let mut s = UciSearch::start(WHITE_TO_MOVE);
    assert!(!s.read_line("info string NNUE enabled"));
    assert!(!s.read_line("info depth 10 score cp 35 nodes 12345 pv e2e4 e7e5 g1f3"));
    assert!(!s.read_line(""));
    assert!(s.read_line("bestmove e2e4 ponder e7e5"));
    let (e, m) = s.finish(10);
    assert_eq!(e, Evaluation::Centipawns(35));
    assert_eq!(m.best_move, "e2e4");
    assert_eq!(m.principal_variation, vec!["e2e4".to_string(), "e7e5".to_string(), "g1f3".to_string()]);
    assert_eq!(m.depth, 10);
    assert_eq!(m.nodes, Some(12345));
}

#[test]
fn scores_turn_to_whites_view() {
    let mut s = UciSearch::start(BLACK_TO_MOVE);
    s.read_line("info depth 5 score cp 40 pv e7e5");
    assert_eq!(s.evaluation, Evaluation::Centipawns(-40));
    s.read_line("info depth 6 score mate 3 pv d8h4");
    assert_eq!(s.evaluation, Evaluation::Mate(-3));
    s.read_line("info depth 0 score mate 0");
    assert_eq!(s.evaluation, Evaluation::Mate(0));
    let mut w = UciSearch::start(WHITE_TO_MOVE);
    w.read_line("info depth 0 score mate 0");
    assert_eq!(w.evaluation, Evaluation::Mate(-1));
    w.read_line("info depth 1 score mate -2");
    assert_eq!(w.evaluation, Evaluation::Mate(-2));
}

#[test]
fn odd_lines() {
    let mut s = UciSearch::start(WHITE_TO_MOVE);
    // An unknown score kind ends the reading of the line: nodes and pv are not read.
    s.read_line("info score lowerbound 12 nodes 5 pv a2a3");
    assert_eq!(s.evaluation, Evaluation::Centipawns(0));
    assert_eq!(s.nodes, None);
    assert!(s.principal_variation.is_empty());
    // A score that is not a number is skipped, the rest is read.
    s.read_line("info score cp x nodes 77 pv h2h3 h7h6");
    assert_eq!(s.evaluation, Evaluation::Centipawns(0));
    assert_eq!(s.nodes, Some(77));
    // A pv with nothing after it keeps the previous one.
    s.read_line("info nodes 80 pv");
    assert_eq!(s.principal_variation, vec!["h2h3".to_string(), "h7h6".to_string()]);
    assert_eq!(s.nodes, Some(80));
    // A bad node count clears it.
    s.read_line("info nodes many");
    assert_eq!(s.nodes, None);
    // No move after bestmove: the first pv move stands in.
    assert!(s.read_line("bestmove"));
    let (_, m) = s.finish(3);
    assert_eq!(m.best_move, "h2h3");
}
