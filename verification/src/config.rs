//! Settings: command-line values override the configuration file, which
//! overrides the defaults.

use vstd::prelude::*;
use crate::text::{
    chars_of, split_chars, split_on, string_of, to_lowercase, trim, trim_chars, unicode_lowercase,
};

verus! {

broadcast use vstd::string::group_string_axioms;

/// The command-line arguments.
pub struct CliArgs {
    pub config: Option<String>,
    pub engine: Option<String>,
    pub depth: Option<u32>,
    pub processes: Option<String>,
    pub threads: Option<u32>,
    pub hash: Option<u32>,
    pub movetime: Option<u32>,
    pub format: Option<String>,
    pub output_dir: Option<String>,
    pub input_files: Vec<String>,
}

/// The `engine` section of the configuration file.
pub struct EngineConfigJson {
    pub path: Option<String>,
    pub depth: Option<u32>,
    pub processes: Option<String>,
    pub threads_per_process: Option<u32>,
    pub hash_mb: Option<u32>,
    pub movetime_sec: Option<u32>,
}

/// The `output` section of the configuration file.
pub struct OutputConfigJson {
    pub format: Option<Vec<String>>,
    pub output_dir: Option<String>,
}

/// The configuration file.
pub struct ConfigJson {
    pub engine: Option<EngineConfigJson>,
    pub output: Option<OutputConfigJson>,
}

/// The settings in force.
#[derive(Debug, Clone)]
pub struct ResolvedConfig {
    pub engine_path: String,
    pub depth: u32,
    pub processes: String,
    pub threads_per_process: Option<u32>,
    pub hash_mb: Option<u32>,
    pub movetime_sec: u32,
    pub formats: Vec<String>,
    pub output_dir: String,
    pub input_files: Vec<String>,
}

pub open spec fn opt_text(s: Option<String>) -> Option<Seq<char>> {
    match s {
        Some(x) => Some(x@),
        None => None,
    }
}

/// The first of two optional values that is present.
pub open spec fn first_of<A>(a: Option<A>, b: Option<A>) -> Option<A> {
    match a {
        Some(x) => Some(x),
        None => b,
    }
}

pub open spec fn or_default<A>(a: Option<A>, d: A) -> A {
    match a {
        Some(x) => x,
        None => d,
    }
}

/// An output format name: trimmed and lower-cased.
pub open spec fn format_name(s: Seq<char>) -> Seq<char> {
    unicode_lowercase(trim(s))
}

/// The output formats: the command line's comma-separated list, else the
/// configuration file's list, else `pgn` and `json`.
pub open spec fn resolved_formats(cli: CliArgs, json: ConfigJson) -> Seq<Seq<char>> {
    match cli.format {
        Some(f) => split_on(f@, ',').map_values(|p: Seq<char>| format_name(p)),
        None => match json.output {
            Some(o) => match o.format {
                Some(list) => list@.map_values(|p: String| format_name(p@)),
                None => seq!["pgn"@, "json"@],
            },
            None => seq!["pgn"@, "json"@],
        },
    }
}

fn format_name_exec(s: &[char]) -> (r: String)
    ensures
        r@ == format_name(s@),
{
    let t = trim_chars(s);
    let ts = string_of(t.as_slice());
    to_lowercase(ts.as_str())
}

fn clone_opt(s: &Option<String>) -> (r: Option<String>)
    ensures
        opt_text(r) == opt_text(*s),
{
    match s {
        Some(x) => Some(x.clone()),
        None => None,
    }
}

impl ResolvedConfig {
    /// The settings from the command line and the configuration file;
    /// `default_engine` is the engine used when neither names one.
    pub fn resolve_from(cli: CliArgs, json: ConfigJson, default_engine: String) -> (r: Self)
        ensures
            r.engine_path@ == or_default(first_of(opt_text(cli.engine), match json.engine { Some(e) => opt_text(e.path), None => None }), default_engine@),
            r.depth == or_default(first_of(cli.depth, match json.engine { Some(e) => e.depth, None => None }), 15u32),
            r.processes@ == or_default(first_of(opt_text(cli.processes), match json.engine { Some(e) => opt_text(e.processes), None => None }), "auto"@),
            r.threads_per_process == first_of(cli.threads, match json.engine { Some(e) => e.threads_per_process, None => None }),
            r.hash_mb == first_of(cli.hash, match json.engine { Some(e) => e.hash_mb, None => None }),
            r.movetime_sec == or_default(first_of(cli.movetime, match json.engine { Some(e) => e.movetime_sec, None => None }), 20u32),
            r.formats@.map_values(|s: String| s@) == resolved_formats(cli, json),
            r.output_dir@ == or_default(first_of(opt_text(cli.output_dir), match json.output { Some(o) => opt_text(o.output_dir), None => None }), "."@),
            r.input_files@ == cli.input_files@,
    {
        let (j_path, j_depth, j_proc, j_threads, j_hash, j_movetime) = match &json.engine {
            Some(e) => (clone_opt(&e.path), e.depth, clone_opt(&e.processes), e.threads_per_process, e.hash_mb, e.movetime_sec),
            None => (None, None, None, None, None, None),
        };
        let engine_path = match cli.engine {
            Some(p) => p,
            None => match j_path {
                Some(p) => p,
                None => default_engine,
            },
        };
        let depth = match cli.depth {
            Some(d) => d,
            None => match j_depth {
                Some(d) => d,
                None => 15,
            },
        };
        let processes = match cli.processes {
            Some(p) => p,
            None => match j_proc {
                Some(p) => p,
                None => String::from_str("auto"),
            },
        };
        let threads_per_process = match cli.threads {
            Some(t) => Some(t),
            None => j_threads,
        };
        let hash_mb = match cli.hash {
            Some(h) => Some(h),
            None => j_hash,
        };
        let movetime_sec = match cli.movetime {
            Some(m) => m,
            None => match j_movetime {
                Some(m) => m,
                None => 20,
            },
        };
        let mut formats: Vec<String> = Vec::new();
        match &cli.format {
            Some(f) => {
                let c = chars_of(f.as_str());
                let pieces = split_chars(c.as_slice(), ',');
                let ghost pv = pieces@.map_values(|t: Vec<char>| t@);
                let mut i: usize = 0;
                while i < pieces.len()
                    invariant
                        i <= pieces@.len(),
                        pv == pieces@.map_values(|t: Vec<char>| t@),
                        formats@.map_values(|s: String| s@) =~= pv.take(i as int).map_values(|p: Seq<char>| format_name(p)),
                    decreases pieces@.len() - i,
                {
                    let ghost before = formats@;
                    let name = format_name_exec(pieces[i].as_slice());
                    formats.push(name);
                    proof {
                        assert(formats@.map_values(|s: String| s@) =~= before.map_values(|s: String| s@).push(name@));
                        assert(pv.take(i + 1) =~= pv.take(i as int).push(pv[i as int]));
                        assert(pv.take(i + 1).map_values(|p: Seq<char>| format_name(p)) =~= pv.take(i as int).map_values(|p: Seq<char>| format_name(p)).push(format_name(pv[i as int])));
                    }
                    i = i + 1;
                }
                assert(pv.take(pieces@.len() as int) =~= pv);
            },
            None => {
                let list = match &json.output {
                    Some(o) => match &o.format {
                        Some(l) => Some(l),
                        None => None,
                    },
                    None => None,
                };
                match list {
                    Some(l) => {
                        let mut i: usize = 0;
                        while i < l.len()
                            invariant
                                i <= l@.len(),
                                formats@.map_values(|s: String| s@) =~= l@.take(i as int).map_values(|p: String| format_name(p@)),
                            decreases l@.len() - i,
                        {
                            let ghost before = formats@;
                            let c = chars_of(l[i].as_str());
                            let name = format_name_exec(c.as_slice());
                            formats.push(name);
                            proof {
                                assert(formats@.map_values(|s: String| s@) =~= before.map_values(|s: String| s@).push(name@));
                                assert(l@.take(i + 1) =~= l@.take(i as int).push(l@[i as int]));
                                assert(l@.take(i + 1).map_values(|p: String| format_name(p@)) =~= l@.take(i as int).map_values(|p: String| format_name(p@)).push(format_name(l@[i as int]@)));
                            }
                            i = i + 1;
                        }
                        assert(l@.take(l@.len() as int) =~= l@);
                    },
                    None => {
                        formats.push(String::from_str("pgn"));
                        formats.push(String::from_str("json"));
                        assert(formats@.map_values(|s: String| s@) =~= seq!["pgn"@, "json"@]);
                    },
                }
            },
        }
        let output_dir = match cli.output_dir {
            Some(d) => d,
            None => match &json.output {
                Some(o) => match &o.output_dir {
                    Some(d) => d.clone(),
                    None => String::from_str("."),
                },
                None => String::from_str("."),
            },
        };
        ResolvedConfig {
            engine_path,
            depth,
            processes,
            threads_per_process,
            hash_mb,
            movetime_sec,
            formats,
            output_dir,
            input_files: cli.input_files,
        }
    }
}

} // verus!
