//! The decisions of a UCI engine session: the commands sent and how the engine's
//! output lines are read into an evaluation and engine data. The process and
//! its pipes are driven outside this crate, one line at a time.

use vstd::prelude::*;
use vstd::string::StrSliceExecFns;
use crate::model::{eval_value, EngineMetadata, EngineMetadataModel, Evaluation, strings_view};
use crate::text::{
    chars_eq_str, chars_of, first_index, find_token, is_ws, lemma_first_index_bounds, parse_i32,
    parse_i32_spec, parse_u64, parse_u64_spec, push_char, push_chars, push_decimal, decimal,
    split_ws, string_of, trim, trim_chars, ws_tokens,
};

verus! {

broadcast use vstd::string::group_string_axioms;

/// How to start an engine process.
pub struct EngineConfig {
    pub path: String,
    pub threads: u32,
    pub hash_mb: u32,
}

/// `setoption name <name> value <value>`.
pub fn setoption_command(name: &str, value: u32) -> (r: String)
    ensures
        r@ == "setoption name "@ + name@ + " value "@ + decimal(value as nat),
{
    let mut s = String::from_str("setoption name ");
    s.append(name);
    s.append(" value ");
    push_decimal(&mut s, value as u64);
    s
}

/// `position fen <fen>`.
pub fn position_command(fen: &str) -> (r: String)
    ensures
        r@ == "position fen "@ + fen@,
{
    let mut s = String::from_str("position fen ");
    s.append(fen);
    s
}

/// `go depth <depth>`.
pub fn go_command(depth: u32) -> (r: String)
    ensures
        r@ == "go depth "@ + decimal(depth as nat),
{
    let mut s = String::from_str("go depth ");
    push_decimal(&mut s, depth as u64);
    s
}

/// A line the engine wrote is the awaited one when it equals it up to
/// surrounding whitespace.
pub fn is_expected_line(line: &str, expected: &str) -> (r: bool)
    ensures
        r == (trim(line@) == expected@),
{
    let c = chars_of(line);
    let t = trim_chars(c.as_slice());
    chars_eq_str(t.as_slice(), expected)
}

/// Negation as a 32-bit machine integer computes it (the smallest value stays).
pub open spec fn neg32(x: i32) -> i32 {
    if x == i32::MIN {
        x
    } else {
        (-x) as i32
    }
}

fn neg32_exec(x: i32) -> (r: i32)
    ensures
        r == neg32(x),
{
    if x == i32::MIN {
        x
    } else {
        -x
    }
}

/// A score the engine gives from the side to move's point of view, turned to
/// White's: negated when Black is to move. A mate score of 0 (the side to move
/// is mated) becomes `Mate(0)` (Black mated) or `Mate(-1)` (White mated).
pub open spec fn to_absolute(e: Evaluation, black_to_move: bool) -> Evaluation {
    if black_to_move {
        match e {
            Evaluation::Centipawns(cp) => Evaluation::Centipawns(neg32(cp)),
            Evaluation::Mate(m) => if m == 0 {
                Evaluation::Mate(0)
            } else {
                Evaluation::Mate(neg32(m))
            },
        }
    } else {
        match e {
            Evaluation::Centipawns(cp) => Evaluation::Centipawns(cp),
            Evaluation::Mate(m) => if m == 0 {
                Evaluation::Mate(-1i32)
            } else {
                Evaluation::Mate(m)
            },
        }
    }
}

pub fn to_absolute_exec(e: Evaluation, black_to_move: bool) -> (r: Evaluation)
    ensures
        r == to_absolute(e, black_to_move),
{
    if black_to_move {
        match e {
            Evaluation::Centipawns(cp) => Evaluation::Centipawns(neg32_exec(cp)),
            Evaluation::Mate(m) => if m == 0 {
                Evaluation::Mate(0)
            } else {
                Evaluation::Mate(neg32_exec(m))
            },
        }
    } else {
        match e {
            Evaluation::Centipawns(cp) => Evaluation::Centipawns(cp),
            Evaluation::Mate(m) => if m == 0 {
                Evaluation::Mate(-1)
            } else {
                Evaluation::Mate(m)
            },
        }
    }
}

/// Engine scores are from the side to move's point of view; turned to White's,
/// a score with Black to move changes sign, whatever its sign, and one with
/// White to move stays. A mate for the side to move (`mate 0` aside) likewise
/// changes sign with Black to move. `mate 0` means the side to move is mated:
/// `Mate(0)` (White wins) with Black to move, `Mate(-1)` (Black wins) with White to move.
pub proof fn law_scores_turn_to_whites_view(cp: i32, m: i32)
    requires
        cp != i32::MIN,
        m != i32::MIN,
        m != 0,
    ensures
        to_absolute(Evaluation::Centipawns(cp), true) == Evaluation::Centipawns(-cp as i32),
        eval_value(to_absolute(Evaluation::Centipawns(cp), true)) == -eval_value(Evaluation::Centipawns(cp)),
        to_absolute(Evaluation::Centipawns(cp), false) == Evaluation::Centipawns(cp),
        to_absolute(Evaluation::Mate(m), true) == Evaluation::Mate(-m as i32),
        to_absolute(Evaluation::Mate(m), false) == Evaluation::Mate(m),
        to_absolute(Evaluation::Mate(0), true) == Evaluation::Mate(0),
        to_absolute(Evaluation::Mate(0), false) == Evaluation::Mate(-1i32),
{
}

/// An `info` line that starts `info score cp <v>` sets the evaluation to `v`
/// from White's point of view: `-v` when Black is to move, `v` otherwise.
pub proof fn law_info_score_line(s: UciSearchModel, line: Seq<char>, v: i32)
    requires
        v != i32::MIN,
        ws_tokens(line).len() >= 4,
        ws_tokens(line)[0] == "info"@,
        ws_tokens(line)[1] == "score"@,
        ws_tokens(line)[2] == "cp"@,
        parse_i32_spec(ws_tokens(line)[3]) == Some(v),
    ensures
        after_line(s, line).1 == false,
        after_line(s, line).0.evaluation == Evaluation::Centipawns(if s.black_to_move { -v as i32 } else { v }),
{
    reveal_strlit("info");
    reveal_strlit("score");
    reveal_strlit("bestmove");
    let ts = ws_tokens(line);
    assert(ts[0] != "bestmove"@) by {
        assert(ts[0].len() != "bestmove"@.len());
    }
    assert(ts[0] != "score"@) by {
        assert(ts[0][0] != "score"@[0]);
    }
    assert(ts.drop_first()[0] == ts[1]);
    assert(first_index(ts.drop_first(), "score"@) == Some(0int));
    assert(first_index(ts, "score"@) == Some(1int));
    assert(score_reading(ts, s.black_to_move) == ScoreReading::Score(to_absolute(Evaluation::Centipawns(v), s.black_to_move)));
}

/// Whether Black is to move in a FEN: its second field starts with `b`.
pub open spec fn fen_black_to_move(fen: Seq<char>) -> bool {
    let ts = ws_tokens(fen);
    ts.len() > 1 && ts[1].len() > 0 && ts[1][0] == 'b'
}

/// What has been read so far of the engine's answer about one position.
pub struct UciSearch {
    pub black_to_move: bool,
    pub evaluation: Evaluation,
    pub best_move: String,
    pub principal_variation: Vec<String>,
    pub nodes: Option<u64>,
}

pub struct UciSearchModel {
    pub black_to_move: bool,
    pub evaluation: Evaluation,
    pub best_move: Seq<char>,
    pub principal_variation: Seq<Seq<char>>,
    pub nodes: Option<u64>,
}

impl View for UciSearch {
    type V = UciSearchModel;

    open spec fn view(&self) -> UciSearchModel {
        UciSearchModel {
            black_to_move: self.black_to_move,
            evaluation: self.evaluation,
            best_move: self.best_move@,
            principal_variation: strings_view(self.principal_variation@),
            nodes: self.nodes,
        }
    }
}

/// The reading of a `score` in an `info` line.
pub enum ScoreReading {
    /// No `score` followed by two more tokens, or its value is not a number.
    Absent,
    /// A number with a kind other than `cp` or `mate`: the rest of the line is ignored.
    Unknown,
    Score(Evaluation),
}

pub open spec fn score_reading(ts: Seq<Seq<char>>, black_to_move: bool) -> ScoreReading {
    match first_index(ts, "score"@) {
        Some(k) => if k + 2 < ts.len() {
            match parse_i32_spec(ts[k + 2]) {
                Some(v) => if ts[k + 1] == "cp"@ {
                    ScoreReading::Score(to_absolute(Evaluation::Centipawns(v), black_to_move))
                } else if ts[k + 1] == "mate"@ {
                    ScoreReading::Score(to_absolute(Evaluation::Mate(v), black_to_move))
                } else {
                    ScoreReading::Unknown
                },
                None => ScoreReading::Absent,
            }
        } else {
            ScoreReading::Absent
        },
        None => ScoreReading::Absent,
    }
}

/// The node count and principal variation of an `info` line, when present: the
/// token after `nodes` (as a number, or none), and the tokens after `pv` when there are some.
pub open spec fn nodes_and_pv(s: UciSearchModel, ts: Seq<Seq<char>>) -> UciSearchModel {
    let s1 = match first_index(ts, "nodes"@) {
        Some(k) => if k + 1 < ts.len() {
            UciSearchModel { nodes: parse_u64_spec(ts[k + 1]), ..s }
        } else {
            s
        },
        None => s,
    };
    match first_index(ts, "pv"@) {
        Some(k) => if k + 1 < ts.len() {
            UciSearchModel { principal_variation: ts.skip(k + 1), ..s1 }
        } else {
            s1
        },
        None => s1,
    }
}

/// The search state after an `info` line with tokens `ts`.
pub open spec fn after_info(s: UciSearchModel, ts: Seq<Seq<char>>) -> UciSearchModel {
    match score_reading(ts, s.black_to_move) {
        ScoreReading::Unknown => s,
        ScoreReading::Score(e) => nodes_and_pv(UciSearchModel { evaluation: e, ..s }, ts),
        ScoreReading::Absent => nodes_and_pv(s, ts),
    }
}

/// The search state after an output line, and whether the line ends the search
/// (`bestmove`, whose argument, if any, is the best move).
pub open spec fn after_line(s: UciSearchModel, line: Seq<char>) -> (UciSearchModel, bool) {
    let ts = ws_tokens(line);
    if ts.len() == 0 {
        (s, false)
    } else if ts[0] == "bestmove"@ {
        (if ts.len() > 1 { UciSearchModel { best_move: ts[1], ..s } } else { s }, true)
    } else if ts[0] == "info"@ {
        (after_info(s, ts), false)
    } else {
        (s, false)
    }
}

/// The engine data of a finished search: the best move is the first move of the
/// principal variation when the engine named none.
pub open spec fn search_result(s: UciSearchModel, depth: u32) -> (Evaluation, EngineMetadataModel) {
    let best = if s.best_move.len() == 0 && s.principal_variation.len() > 0 {
        s.principal_variation[0]
    } else {
        s.best_move
    };
    (s.evaluation, EngineMetadataModel {
        best_move: best,
        principal_variation: s.principal_variation,
        depth: depth,
        nodes: s.nodes,
    })
}

fn strings_of_tokens(ts: &Vec<Vec<char>>, from: usize) -> (r: Vec<String>)
    requires
        from <= ts@.len(),
    ensures
        strings_view(r@) == ts@.map_values(|t: Vec<char>| t@).skip(from as int),
{
    let mut r: Vec<String> = Vec::new();
    let mut i: usize = from;
    while i < ts.len()
        invariant
            from <= i <= ts@.len(),
            strings_view(r@) == ts@.map_values(|t: Vec<char>| t@).subrange(from as int, i as int),
        decreases ts@.len() - i,
    {
        let s = string_of(ts[i].as_slice());
        let ghost before = r@;
        r.push(s);
        assert(strings_view(r@) =~= strings_view(before).push(s@));
        assert(ts@.map_values(|t: Vec<char>| t@).subrange(from as int, i + 1) =~= ts@.map_values(
            |t: Vec<char>| t@,
        ).subrange(from as int, i as int).push(ts@[i as int]@));
        i = i + 1;
    }
    assert(ts@.map_values(|t: Vec<char>| t@).subrange(from as int, ts@.len() as int) =~= ts@.map_values(
        |t: Vec<char>| t@,
    ).skip(from as int));
    r
}

impl UciSearch {
    /// A search of the position `fen` starts: score 0, nothing else known yet.
    pub fn start(fen: &str) -> (r: Self)
        ensures
            r@ == (UciSearchModel {
                black_to_move: fen_black_to_move(fen@),
                evaluation: Evaluation::Centipawns(0),
                best_move: Seq::empty(),
                principal_variation: Seq::empty(),
                nodes: None,
            }),
    {
        let c = chars_of(fen);
        let ts = split_ws(c.as_slice());
        let black = ts.len() > 1 && ts[1].len() > 0 && ts[1][0] == 'b';
        let r = UciSearch {
            black_to_move: black,
            evaluation: Evaluation::Centipawns(0),
            best_move: String::new(),
            principal_variation: Vec::new(),
            nodes: None,
        };
        assert(strings_view(r.principal_variation@) =~= Seq::<Seq<char>>::empty());
        r
    }

    fn apply_info(&mut self, ts: &Vec<Vec<char>>)
        ensures
            final(self)@ == after_info(old(self)@, ts@.map_values(|t: Vec<char>| t@)),
    {
        let ghost tv = ts@.map_values(|t: Vec<char>| t@);
        let n = ts.len();
        match find_token(ts, "score") {
            Some(k) => {
                proof {
                    lemma_first_index_bounds(tv, "score"@);
                }
                if n >= 2 && k < n - 2 {
                    match parse_i32(ts[k + 2].as_slice()) {
                        Some(v) => {
                            let e = if chars_eq_str(ts[k + 1].as_slice(), "cp") {
                                Evaluation::Centipawns(v)
                            } else if chars_eq_str(ts[k + 1].as_slice(), "mate") {
                                Evaluation::Mate(v)
                            } else {
                                return;
                            };
                            self.evaluation = to_absolute_exec(e, self.black_to_move);
                        },
                        None => {},
                    }
                }
            },
            None => {},
        }
        let ghost s_mid = self@;
        match find_token(ts, "nodes") {
            Some(k) => {
                proof {
                    lemma_first_index_bounds(tv, "nodes"@);
                }
                if k < n - 1 {
                    self.nodes = parse_u64(ts[k + 1].as_slice());
                }
            },
            None => {},
        }
        match find_token(ts, "pv") {
            Some(k) => {
                proof {
                    lemma_first_index_bounds(tv, "pv"@);
                }
                if k < n - 1 {
                    self.principal_variation = strings_of_tokens(ts, k + 1);
                }
            },
            None => {},
        }
    }

    /// Reads one output line; returns whether the search is over.
    pub fn read_line(&mut self, line: &str) -> (done: bool)
        ensures
            (final(self)@, done) == after_line(old(self)@, line@),
    {
        let c = chars_of(line);
        let ts = split_ws(c.as_slice());
        let ghost tv = ts@.map_values(|t: Vec<char>| t@);
        assert(tv =~= ws_tokens(line@));
        if ts.len() == 0 {
            return false;
        }
        if chars_eq_str(ts[0].as_slice(), "bestmove") {
            if ts.len() > 1 {
                self.best_move = string_of(ts[1].as_slice());
            }
            return true;
        }
        if chars_eq_str(ts[0].as_slice(), "info") {
            self.apply_info(&ts);
        }
        false
    }

    /// The evaluation and engine data the search produced.
    pub fn finish(self, depth: u32) -> (r: (Evaluation, EngineMetadata))
        ensures
            (r.0, r.1@) == search_result(self@, depth),
    {
        let mut best = self.best_move;
        if best.as_str().unicode_len() == 0 && self.principal_variation.len() > 0 {
            best = self.principal_variation[0].clone();
        }
        (self.evaluation, EngineMetadata {
            best_move: best,
            principal_variation: self.principal_variation,
            depth,
            nodes: self.nodes,
        })
    }
}

} // verus!
