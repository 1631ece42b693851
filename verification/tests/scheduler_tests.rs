use chess_analizer::cache::{normalize_fen, PositionCache, SharedPositionCache};
use chess_analizer::model::{AnalyzedMove, EngineMetadata, Evaluation, Game};
use chess_analizer::pgn::GameVisitor;
use chess_analizer::scheduler::{collect_jobs, count_positions, determine_resources, fill_games, pending_jobs, resources_for, SchedulerConfig};

fn config(processes: &str, threads: Option<u32>, hash: Option<u32>) -> SchedulerConfig {
    SchedulerConfig {
        engine_path: "stockfish".to_string(),
        depth: 12,
        num_processes: processes.to_string(),
        threads_per_process: threads,
        hash_mb_per_process: hash,
        movetime_sec: 20,
    }
}

fn game(sans: &[&str]) -> Game {
    let mut v = GameVisitor::new();
    let t = v.begin_tags();
    let mut mt = v.begin_movetext(t);
    for s in sans {
        v.san(&mut mt, s);
    }
    v.end_game(mt).unwrap()
}

#[test]
fn auto_mode_leaves_two_cores() {
    let r = resources_for(&config("auto", None, None), 16, 16384);
    assert_eq!(r.num_processes, 14);
    assert_eq!(r.threads_per_process, 1);
    // (16384 - 2048) / 14 = 1024
    assert_eq!(r.hash_mb, 1024);
    let r = resources_for(&config("AUTO", None, None), 8, 4096);
    assert_eq!(r.num_processes, 6);
    // (4096 - 2048) / 6 = 341
    assert_eq!(r.hash_mb, 341);
    // Few cores: at least one process.
    assert_eq!(resources_for(&config("auto", None, None), 2, 4096).num_processes, 1);
    assert_eq!(resources_for(&config("auto", None, None), 0, 4096).num_processes, 1);
}

#[test]
fn auto_mode_keeps_configured_threads_and_hash() {
    let r = resources_for(&config("auto", Some(2), Some(128)), 4, 16384);
    assert_eq!((r.num_processes, r.threads_per_process, r.hash_mb), (2, 2, 128));
    let r = resources_for(&config("Auto", Some(0), None), 10, 16384);
    assert_eq!((r.num_processes, r.threads_per_process), (8, 1));
    let r = determine_resources(&config("auto", Some(3), Some(256)));
    assert_eq!((r.threads_per_process, r.hash_mb), (3, 256));
}

#[test]
fn explicit_counts() {
    let r = resources_for(&config("4", Some(2), Some(256)), 16, 16384);
    assert_eq!((r.num_processes, r.threads_per_process, r.hash_mb), (4, 2, 256));
    // Not a number: one process; zero counts become one.
    let r = resources_for(&config("many", Some(0), None), 16, 1024);
    assert_eq!((r.num_processes, r.threads_per_process), (1, 1));
    // Little memory: 512 MB to share, clamped to at least 64 each.
    assert_eq!(r.hash_mb, 512);
    let r = resources_for(&config("10", None, None), 16, 1024);
    assert_eq!(r.hash_mb, 64);
    let r = resources_for(&config("0", None, None), 16, 1024);
    assert_eq!(r.num_processes, 1);
}

#[test]
fn resources_of_this_machine() {
    let r = determine_resources(&config("3", Some(2), Some(128)));
    assert_eq!((r.num_processes, r.threads_per_process, r.hash_mb), (3, 2, 128));
    let r = determine_resources(&config("auto", None, None));
    assert!(r.num_processes >= 1);
    assert!(r.hash_mb >= 64 && r.hash_mb <= 1024);
}

#[test]
fn jobs_are_distinct_positions() {
    // Two games that share their first positions.
    let games = vec![game(&["e4", "e5", "Nf3"]), game(&["e4", "e5", "Bc4"]), game(&[])];
    let (jobs, distinct) = collect_jobs(&games);
    // Start, after e4, after e5 (shared); after Nf3; after Bc4.
    assert_eq!(distinct, 5);
    assert_eq!(jobs.len(), 5);
    for i in 0..jobs.len() {
        for j in 0..i {
            assert_ne!(normalize_fen(&jobs[i].fen), normalize_fen(&jobs[j].fen));
        }
    }
    assert_eq!(jobs[0].fen, "rnbqkbnr/pppppppp/8/8/8/8/PPPPPPPP/RNBQKBNR w KQkq -");
    assert_eq!(jobs[3].fen, games[0].moves[2].fen_after);
    assert_eq!(jobs[4].fen, games[1].moves[2].fen_after);
    // The start position's Zobrist hash in shakmaty's scheme.
    assert_eq!(jobs[0].hash, 0x463b96181691fc9c);
}

#[test]
fn unreadable_positions_are_counted_but_not_analysed() {
    let mut g = game(&["e4"]);
    g.moves[0].fen_before = "garbage".to_string();
    let (jobs, distinct) = collect_jobs(&vec![g]);
    assert_eq!(distinct, 2);
    assert_eq!(jobs.len(), 1);
}

fn meta(depth: u32) -> EngineMetadata {
    EngineMetadata { best_move: "e2e4".to_string(), principal_variation: vec!["e2e4".to_string()], depth, nodes: Some(1) }
}

#[test]
fn pending_and_filling() {
    let mut games = vec![game(&["e4", "e5"])];
    let (jobs, _) = collect_jobs(&games);
    assert_eq!(jobs.len(), 3);
    let mut cache = PositionCache::new();
    cache.insert(jobs[0].hash, jobs[0].fen.clone(), Evaluation::Centipawns(20), meta(12));
    cache.insert(jobs[1].hash, jobs[1].fen.clone(), Evaluation::Centipawns(-30), meta(8));
    let pending = pending_jobs(&jobs, &cache, 12);
    // The second is cached too shallow; the third not at all.
    assert_eq!(pending.len(), 2);
    assert_eq!(pending[0].fen, jobs[1].fen);
    assert_eq!(pending[1].fen, jobs[2].fen);
    cache.insert(jobs[2].hash, jobs[2].fen.clone(), Evaluation::Centipawns(15), meta(12));
    fill_games(&mut games, &cache, 12);
    assert_eq!(games[0].moves[0].evaluation, Some(Evaluation::Centipawns(20)));
    assert_eq!(games[0].moves[0].engine_metadata.as_ref().unwrap().depth, 12);
    assert_eq!(games[0].moves[1].evaluation, None);
    assert_eq!(games[0].final_evaluation, Some(Evaluation::Centipawns(15)));
}

#[test]
fn a_mating_last_move_sets_the_final_evaluation() {
    let mut games = vec![game(&["e4", "e5", "Qh5", "Nc6", "Bc4", "Nf6", "Qxf7#"]), game(&["f3", "e5", "g4", "Qh4#"])];
    let shared = SharedPositionCache::new();
    let (jobs, _) = collect_jobs(&games);
    assert_eq!(shared.pending_jobs(&jobs, 5).len(), jobs.len());
    shared.fill_games(&mut games, 5);
    assert_eq!(games[0].final_evaluation, Some(Evaluation::Mate(0)));
    assert_eq!(games[1].final_evaluation, Some(Evaluation::Mate(-1)));
}

#[test]
fn a_game_without_moves_is_left_alone() {
    let mut games = vec![Game { headers: Vec::new(), moves: Vec::<AnalyzedMove>::new(), final_evaluation: Some(Evaluation::Centipawns(7)) }];
    fill_games(&mut games, &PositionCache::new(), 10);
    assert_eq!(games[0].final_evaluation, Some(Evaluation::Centipawns(7)));
}

#[test]
fn hash_tables_fit_in_memory() {
    for (procs, ram) in [(1u32, 4096u64), (3, 2300), (7, 10000), (14, 16384), (60, 65536)] {
        let r = resources_for(&config(&procs.to_string(), None, None), 64, ram);
        assert_eq!(r.num_processes, procs);
        if ram >= 2048 + 64 * procs as u64 {
            assert!(procs as u64 * r.hash_mb as u64 <= ram - 2048);
        }
    }
}

#[test]
fn positions_counted_with_repeats() {
    let games = vec![game(&["e4", "e5", "Nf3"]), game(&["e4", "e5", "Bc4"]), game(&[])];
    // Three before-positions and the final one per game with moves; none for an empty game.
    assert_eq!(count_positions(&games), 8);
    assert_eq!(count_positions(&Vec::new()), 0);
}
