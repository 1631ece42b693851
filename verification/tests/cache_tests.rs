use chess_analizer::cache::{normalize_fen, PositionCache, SharedPositionCache};
use chess_analizer::model::{EngineMetadata, Evaluation};

fn meta(best: &str, depth: u32) -> EngineMetadata {
    EngineMetadata { best_move: best.to_string(), principal_variation: vec![best.to_string()], depth, nodes: None }
}

const FEN: &str = "rnbqkbnr/pppppppp/8/8/8/8/PPPPPPPP/RNBQKBNR w KQkq - 0 1";
const SAME_POSITION: &str = "rnbqkbnr/pppppppp/8/8/8/8/PPPPPPPP/RNBQKBNR   w KQkq -  5 9";
const OTHER: &str = "rnbqkbnr/pppppppp/8/8/4P3/8/PPPP1PPP/RNBQKBNR b KQkq - 0 1";

#[test]
fn normalize_keeps_four_fields() {
    assert_eq!(normalize_fen(FEN), "rnbqkbnr/pppppppp/8/8/8/8/PPPPPPPP/RNBQKBNR w KQkq -");
    assert_eq!(normalize_fen(SAME_POSITION), normalize_fen(FEN));
    assert_eq!(normalize_fen("  a   b "), "a b");
    assert_eq!(normalize_fen(""), "");
    // Normalizing twice is normalizing once.
    assert_eq!(normalize_fen(&normalize_fen(FEN)), normalize_fen(FEN));
}

#[test]
fn lookup_after_insert() {
    let mut c = PositionCache::new();
    assert!(c.lookup(7, FEN, 1).is_none());
    c.insert(7, FEN.to_string(), Evaluation::Centipawns(25), meta("e2e4", 20));
    // Same position, shallower or equal request: found.
    let (e, m) = c.lookup(7, SAME_POSITION, 20).unwrap();
    assert_eq!(e, Evaluation::Centipawns(25));
    assert_eq!(m.best_move, "e2e4");
    assert_eq!(m.depth, 20);
    assert!(c.lookup(7, FEN, 15).is_some());
    // Deeper request: not found.
    assert!(c.lookup(7, FEN, 21).is_none());
    // Another position under the same key: not found.
    assert!(c.lookup(7, OTHER, 1).is_none());
    // Another key: not found.
    assert!(c.lookup(8, FEN, 1).is_none());
}

#[test]
fn deeper_results_replace_shallower_ones() {
    let mut c = PositionCache::new();
    c.insert(1, FEN.to_string(), Evaluation::Centipawns(10), meta("e2e4", 20));
    // A shallower result for the same position is ignored.
    c.insert(1, FEN.to_string(), Evaluation::Centipawns(99), meta("d2d4", 10));
    assert_eq!(c.lookup(1, FEN, 5).unwrap().0, Evaluation::Centipawns(10));
    // So is one of equal depth.
    c.insert(1, FEN.to_string(), Evaluation::Centipawns(98), meta("d2d4", 20));
    assert_eq!(c.lookup(1, FEN, 5).unwrap().0, Evaluation::Centipawns(10));
    // A deeper one replaces it.
    c.insert(1, FEN.to_string(), Evaluation::Centipawns(30), meta("c2c4", 30));
    let (e, m) = c.lookup(1, FEN, 30).unwrap();
    assert_eq!(e, Evaluation::Centipawns(30));
    assert_eq!(m.best_move, "c2c4");
    // A different position under the same key replaces it whatever its depth.
    c.insert(1, OTHER.to_string(), Evaluation::Centipawns(-5), meta("e7e5", 1));
    assert!(c.lookup(1, FEN, 1).is_none());
    assert_eq!(c.lookup(1, OTHER, 1).unwrap().0, Evaluation::Centipawns(-5));
}

#[test]
fn shared_cache() {
    let c = SharedPositionCache::new();
    let c2 = c.clone();
    assert!(c.lookup(3, FEN, 1).is_none());
    c2.insert(3, FEN.to_string(), Evaluation::Mate(2), meta("d1h5", 12));
    assert_eq!(c.lookup(3, FEN, 12).unwrap().0, Evaluation::Mate(2));
    assert!(c.lookup(3, FEN, 13).is_none());
}
