use chess_analizer::config::{CliArgs, ConfigJson, EngineConfigJson, OutputConfigJson, ResolvedConfig};

fn cli() -> CliArgs {
    CliArgs {
        config: None,
        engine: None,
        depth: None,
        processes: None,
        threads: None,
        hash: None,
        movetime: None,
        format: None,
        output_dir: None,
        input_files: vec!["games.pgn".to_string()],
    }
}

fn empty_json() -> ConfigJson {
    ConfigJson { engine: None, output: None }
}

fn full_json() -> ConfigJson {
    ConfigJson {
        engine: Some(EngineConfigJson {
            path: Some("/usr/bin/stockfish".to_string()),
            depth: Some(20),
            processes: Some("6".to_string()),
            threads_per_process: Some(2),
            hash_mb: Some(512),
            movetime_sec: Some(5),
        }),
        output: Some(OutputConfigJson {
            format: Some(vec![" PGN ".to_string()]),
            output_dir: Some("./out".to_string()),
        }),
    }
}

#[test]
fn defaults() {
    let r = ResolvedConfig::resolve_from(cli(), empty_json(), "stockfish".to_string());
    assert_eq!(r.engine_path, "stockfish");
    assert_eq!(r.depth, 15);
    assert_eq!(r.processes, "auto");
    assert_eq!(r.threads_per_process, None);
    assert_eq!(r.hash_mb, None);
    assert_eq!(r.movetime_sec, 20);
    assert_eq!(r.formats, vec!["pgn".to_string(), "json".to_string()]);
    assert_eq!(r.output_dir, ".");
    assert_eq!(r.input_files, vec!["games.pgn".to_string()]);
}

#[test]
fn file_values_apply() {
    let r = ResolvedConfig::resolve_from(cli(), full_json(), "stockfish".to_string());
    assert_eq!(r.engine_path, "/usr/bin/stockfish");
    assert_eq!(r.depth, 20);
    assert_eq!(r.processes, "6");
    assert_eq!(r.threads_per_process, Some(2));
    assert_eq!(r.hash_mb, Some(512));
    assert_eq!(r.movetime_sec, 5);
    assert_eq!(r.formats, vec!["pgn".to_string()]);
    assert_eq!(r.output_dir, "./out");
}

#[test]
fn command_line_overrides_file() {
    let mut c = cli();
    c.engine = Some("sf".to_string());
    c.depth = Some(30);
    c.processes = Some("auto".to_string());
    c.threads = Some(1);
    c.hash = Some(64);
    c.movetime = Some(9);
    c.format = Some("PGN, Json ,".to_string());
    c.output_dir = Some("o".to_string());
    let r = ResolvedConfig::resolve_from(c, full_json(), "stockfish".to_string());
    assert_eq!(r.engine_path, "sf");
    assert_eq!(r.depth, 30);
    assert_eq!(r.processes, "auto");
    assert_eq!(r.threads_per_process, Some(1));
    assert_eq!(r.hash_mb, Some(64));
    assert_eq!(r.movetime_sec, 9);
    assert_eq!(r.formats, vec!["pgn".to_string(), "json".to_string(), "".to_string()]);
    assert_eq!(r.output_dir, "o");
}
