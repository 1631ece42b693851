//! Planning of the engine work: the resources to use, the distinct positions to
//! analyse, which of them the cache already answers, and filling the games from
//! the cache afterwards. The engine processes themselves run outside this crate.

use vstd::prelude::*;
use std::collections::HashSet;
use crate::cache::{cache_after_insert, cached_result, CacheEntryModel, PositionCache};
use crate::chess::{checkmate_status, fen_checkmate, fen_zobrist, zobrist_of};
use crate::model::{moves_view, AnalyzedMoveModel, Evaluation, Game, GameModel};
use crate::cache::normalize_fen;
use crate::text::{normalized_fen, parse_u32, parse_u32_spec, chars_of, to_lowercase, unicode_lowercase};

verus! {

broadcast use vstd::string::group_string_axioms;

/// What the analysis is asked to do.
pub struct SchedulerConfig {
    pub engine_path: String,
    pub depth: u32,
    /// `auto` or a number.
    pub num_processes: String,
    pub threads_per_process: Option<u32>,
    pub hash_mb_per_process: Option<u32>,
    pub movetime_sec: u32,
}

/// How many engine processes to run, with how many threads and how much hash each.
#[derive(Debug)]
pub struct ResourceProfile {
    pub num_processes: u32,
    pub threads_per_process: u32,
    pub hash_mb: u32,
}

/// One position to analyse.
#[derive(Debug, Clone)]
pub struct AnalysisJob {
    pub fen: String,
    pub hash: u64,
}

pub open spec fn max_u(a: int, b: int) -> int {
    if a >= b { a } else { b }
}

/// Processes and threads per process. `auto` (in any letter case) leaves two cores
/// free, with at least one process; otherwise the number given (1 when it is not
/// a number, at least 1). Either way each process gets the threads asked for
/// (1 by default, at least 1): auto mode only fills in the process count.
pub open spec fn processes_and_threads(mode: Seq<char>, threads: Option<u32>, cores: u32) -> (u32, u32) {
    let lower = unicode_lowercase(mode);
    let t = match threads { Some(t) => t, None => 1 };
    let p = if lower == "auto"@ {
        max_u(cores - 2, 1)
    } else {
        match parse_u32_spec(lower) { Some(p) => max_u(p as int, 1), None => 1 }
    };
    (p as u32, max_u(t as int, 1) as u32)
}

/// Hash per process in MB: as configured, or else an even share of the memory
/// beyond 2048 MB kept for the system (512 MB when there is no more), between 64 and 1024.
pub open spec fn hash_share(hash: Option<u32>, total_ram_mb: u64, processes: u32) -> u32 {
    match hash {
        Some(h) => h,
        None => {
            let available: int = if total_ram_mb > 2048 { total_ram_mb - 2048 } else { 512 };
            let share = available / (processes as int);
            (if share < 64 { 64 } else if share > 1024 { 1024 } else { share }) as u32
        },
    }
}

/// The resources for a machine with `cores` cores and `total_ram_mb` MB of memory.
pub fn resources_for(config: &SchedulerConfig, cores: u32, total_ram_mb: u64) -> (r: ResourceProfile)
    ensures
        (r.num_processes, r.threads_per_process) == processes_and_threads(config.num_processes@, config.threads_per_process, cores),
        r.hash_mb == hash_share(config.hash_mb_per_process, total_ram_mb, r.num_processes),
        r.num_processes >= 1,
        r.threads_per_process >= 1,
        config.hash_mb_per_process is None ==> 64 <= r.hash_mb <= 1024,
{
    let lower = to_lowercase(config.num_processes.as_str());
    let lower_chars = chars_of(lower.as_str());
    let is_auto = crate::text::chars_eq_str(lower_chars.as_slice(), "auto");
    let t: u32 = match config.threads_per_process {
        Some(t) => if t >= 1 { t } else { 1 },
        None => 1,
    };
    let p: u32 = if is_auto {
        let free: u32 = if cores >= 2 { cores - 2 } else { 0 };
        if free >= 1 { free } else { 1 }
    } else {
        match parse_u32(lower_chars.as_slice()) {
            Some(p) => if p >= 1 { p } else { 1 },
            None => 1,
        }
    };
    let hash: u32 = match config.hash_mb_per_process {
        Some(h) => h,
        None => {
            let available: u64 = if total_ram_mb > 2048 { total_ram_mb - 2048 } else { 512 };
            let share: u64 = available / (p as u64);
            if share < 64 {
                64
            } else if share > 1024 {
                1024
            } else {
                share as u32
            }
        },
    };
    ResourceProfile { num_processes: p, threads_per_process: t, hash_mb: hash }
}

/// sysinfo: `System::new_all`, then the number of CPUs (`cpus().len()`) and the
/// memory size in bytes (`total_memory()`); `None` when sysinfo cannot read the system.
#[verifier::external_body]
fn system_cores_and_memory() -> (r: Option<(u32, u64)>) {
    let mut sys = sysinfo::System::new_all().ok()?;
    sys.refresh_all();
    Some((sys.cpus().len() as u32, sys.total_memory()))
}

/// The resources for this machine; a machine that cannot be read counts as having
/// no cores and no memory.
pub fn determine_resources(config: &SchedulerConfig) -> (r: ResourceProfile)
    ensures
        exists|cores: u32, ram_mb: u64| {
            &&& (r.num_processes, r.threads_per_process) == processes_and_threads(config.num_processes@, config.threads_per_process, cores)
            &&& r.hash_mb == hash_share(config.hash_mb_per_process, ram_mb, r.num_processes)
        },
        r.num_processes >= 1,
        r.threads_per_process >= 1,
{
    let (cores, bytes) = match system_cores_and_memory() {
        Some(x) => x,
        None => (0, 0),
    };
    resources_for(config, cores, bytes / (1024 * 1024))
}

// ---------------------------------------------------------------------------
// The positions to analyse
// ---------------------------------------------------------------------------

/// The positions a game asks about, in order: the position before each move, and
/// the position after the last move.
pub open spec fn game_positions(g: GameModel) -> Seq<Seq<char>> {
    let before = g.moves.map_values(|m: AnalyzedMoveModel| m.fen_before);
    if g.moves.len() > 0 {
        before.push(g.moves.last().fen_after)
    } else {
        before
    }
}

/// The positions all games ask about, game after game.
pub open spec fn all_positions(gs: Seq<GameModel>) -> Seq<Seq<char>>
    decreases gs.len(),
{
    if gs.len() == 0 {
        seq![]
    } else {
        all_positions(gs.drop_last()) + game_positions(gs.last())
    }
}

/// A count that stops at the largest machine word.
pub open spec fn capped(n: int) -> int {
    if n > usize::MAX { usize::MAX as int } else { n }
}

/// How many positions the games ask about, repeats included (see
/// [`game_positions`]); a count beyond the largest machine word stops there.
pub fn count_positions(games: &Vec<Game>) -> (r: usize)
    ensures
        r as int == capped(all_positions(games_view(games@)).len() as int),
{
    let ghost gv = games_view(games@);
    let mut total: usize = 0;
    let mut k: usize = 0;
    while k < games.len()
        invariant
            k <= games@.len(),
            gv == games_view(games@),
            total as int == capped(all_positions(gv.take(k as int)).len() as int),
        decreases games@.len() - k,
    {
        let n = games[k].moves.len();
        let here: usize = if n == 0 { 0 } else { n.saturating_add(1) };
        proof {
            let t = gv.take(k + 1);
            assert(t.drop_last() =~= gv.take(k as int));
            assert(t.last() == games@[k as int]@);
            assert(game_positions(games@[k as int]@).len() == if n == 0 { 0 } else { n + 1 });
        }
        total = total.saturating_add(here);
        k = k + 1;
    }
    assert(gv.take(games@.len() as int) =~= gv);
    total
}

pub open spec fn normalized_set(fens: Seq<Seq<char>>) -> Set<Seq<char>> {
    Set::new(|n: Seq<char>| exists|j: int| 0 <= j < fens.len() && normalized_fen(#[trigger] fens[j]) == n)
}

/// The jobs for a list of positions: each position whose normalized FEN did not
/// occur earlier, with its Zobrist hash, when shakmaty reads it.
pub open spec fn jobs_for(fens: Seq<Seq<char>>) -> Seq<(Seq<char>, u64)>
    decreases fens.len(),
{
    if fens.len() == 0 {
        seq![]
    } else {
        let p = fens.drop_last();
        let f = fens.last();
        if normalized_set(p).contains(normalized_fen(f)) {
            jobs_for(p)
        } else {
            match fen_zobrist(f) {
                Some(h) => jobs_for(p).push((f, h)),
                None => jobs_for(p),
            }
        }
    }
}

pub open spec fn jobs_view(v: Seq<AnalysisJob>) -> Seq<(Seq<char>, u64)> {
    v.map_values(|j: AnalysisJob| (j.fen@, j.hash))
}

/// The set of texts a set of strings holds.
pub uninterp spec fn string_set_contents(s: HashSet<String>) -> Set<Seq<char>>;

/// `HashSet::new`.
#[verifier::external_body]
fn string_set_new() -> (r: HashSet<String>)
    ensures
        string_set_contents(r) == Set::<Seq<char>>::empty(),
{
    HashSet::new()
}

/// `HashSet::len`: the number of texts in the set.
#[verifier::external_body]
fn string_set_len(s: &HashSet<String>) -> (r: usize)
    ensures
        r as int == string_set_contents(*s).len(),
{
    s.len()
}

/// `HashSet::insert`: whether the text was new; it is in the set afterwards.
#[verifier::external_body]
fn string_set_insert(s: &mut HashSet<String>, k: String) -> (r: bool)
    ensures
        r == !string_set_contents(*old(s)).contains(k@),
        string_set_contents(*final(s)) == string_set_contents(*old(s)).insert(k@),
{
    s.insert(k)
}

/// The state of the collection of jobs.
struct JobCollector {
    seen: HashSet<String>,
    jobs: Vec<AnalysisJob>,
}

impl JobCollector {
    /// Offers one position.
    fn offer(&mut self, fen: &String, Ghost(prev): Ghost<Seq<Seq<char>>>)
        requires
            string_set_contents(old(self).seen) == normalized_set(prev),
            jobs_view(old(self).jobs@) == jobs_for(prev),
        ensures
            string_set_contents(final(self).seen) == normalized_set(prev.push(fen@)),
            jobs_view(final(self).jobs@) == jobs_for(prev.push(fen@)),
    {
        let ghost cur = prev.push(fen@);
        assert(cur.drop_last() =~= prev);
        assert(normalized_set(cur) =~= normalized_set(prev).insert(normalized_fen(fen@))) by {
            assert forall|n: Seq<char>| normalized_set(cur).contains(n) implies normalized_set(prev).insert(normalized_fen(fen@)).contains(n) by {
                let j = choose|j: int| 0 <= j < cur.len() && normalized_fen(#[trigger] cur[j]) == n;
                if j < prev.len() {
                    assert(prev[j] == cur[j]);
                }
            }
            assert forall|n: Seq<char>| normalized_set(prev).insert(normalized_fen(fen@)).contains(n) implies normalized_set(cur).contains(n) by {
                if n == normalized_fen(fen@) {
                    assert(cur[prev.len() as int] == fen@);
                } else {
                    let j = choose|j: int| 0 <= j < prev.len() && normalized_fen(#[trigger] prev[j]) == n;
                    assert(cur[j] == prev[j]);
                }
            }
        }
        let normalized = normalize_fen(fen.as_str());
        let fresh = string_set_insert(&mut self.seen, normalized);
        if fresh {
            match zobrist_of(fen.as_str()) {
                Some(hash) => {
                    let ghost before = self.jobs@;
                    self.jobs.push(AnalysisJob { fen: fen.clone(), hash });
                    assert(jobs_view(self.jobs@) =~= jobs_view(before).push((fen@, hash)));
                },
                None => {},
            }
        }
    }
}


pub open spec fn games_view(gs: Seq<Game>) -> Seq<GameModel> {
    gs.map_values(|g: Game| g@)
}

/// The distinct positions of the games (by normalized FEN) that shakmaty can
/// read, each with its hash, in order of first appearance; and how many distinct
/// normalized FENs there are.
pub fn collect_jobs(games: &Vec<Game>) -> (r: (Vec<AnalysisJob>, usize))
    ensures
        jobs_view(r.0@) == jobs_for(all_positions(games_view(games@))),
        r.1 as int == normalized_set(all_positions(games_view(games@))).len(),
{
    let mut col = JobCollector { seen: string_set_new(), jobs: Vec::new() };
    let ghost gv = games_view(games@);
    let ghost mut prev: Seq<Seq<char>> = seq![];
    proof {
        assert(normalized_set(prev) =~= Set::<Seq<char>>::empty());
        assert(jobs_view(col.jobs@) =~= jobs_for(prev));
    }
    let mut k: usize = 0;
    while k < games.len()
        invariant
            k <= games@.len(),
            gv == games_view(games@),
            prev == all_positions(gv.take(k as int)),
            string_set_contents(col.seen) == normalized_set(prev),
            jobs_view(col.jobs@) == jobs_for(prev),
        decreases games@.len() - k,
    {
        let game = &games[k];
        let ghost g = gv[k as int];
        let ghost start = prev;
        let n = game.moves.len();
        let mut i: usize = 0;
        while i < n
            invariant
                n == game.moves@.len(),
                g == game@,
                i <= n,
                prev == start + g.moves.take(i as int).map_values(|m: AnalyzedMoveModel| m.fen_before),
                string_set_contents(col.seen) == normalized_set(prev),
                jobs_view(col.jobs@) == jobs_for(prev),
            decreases n - i,
        {
            col.offer(&game.moves[i].fen_before, Ghost(prev));
            proof {
                assert(g.moves[i as int] == game.moves@[i as int]@);
                assert(g.moves.take(i + 1).map_values(|m: AnalyzedMoveModel| m.fen_before) =~= g.moves.take(
                    i as int,
                ).map_values(|m: AnalyzedMoveModel| m.fen_before).push(game.moves@[i as int].fen_before@));
                prev = prev.push(game.moves@[i as int].fen_before@);
            }
            i = i + 1;
        }
        proof {
            assert(g.moves.take(n as int) =~= g.moves);
        }
        if n > 0 {
            col.offer(&game.moves[n - 1].fen_after, Ghost(prev));
            proof {
                assert(g.moves.last() == game.moves@[n - 1]@);
                prev = prev.push(game.moves@[n - 1].fen_after@);
            }
        }
        proof {
            assert(prev =~= start + game_positions(g));
            assert(gv.take(k + 1).drop_last() =~= gv.take(k as int));
            assert(gv.take(k + 1).last() == g);
        }
        k = k + 1;
    }
    proof {
        assert(gv.take(games@.len() as int) =~= gv);
    }
    let distinct = string_set_len(&col.seen);
    (col.jobs, distinct)
}

/// The jobs the cache cannot answer at `depth`, in order.
pub open spec fn uncached(js: Seq<(Seq<char>, u64)>, c: Map<u64, CacheEntryModel>, depth: u32) -> Seq<(Seq<char>, u64)>
    decreases js.len(),
{
    if js.len() == 0 {
        seq![]
    } else {
        let p = uncached(js.drop_last(), c, depth);
        if cached_result(c, js.last().1, js.last().0, depth) is None {
            p.push(js.last())
        } else {
            p
        }
    }
}

/// The jobs that `cache` does not answer at `depth`.
pub fn pending_jobs(jobs: &Vec<AnalysisJob>, cache: &PositionCache, depth: u32) -> (r: Vec<AnalysisJob>)
    ensures
        jobs_view(r@) == uncached(jobs_view(jobs@), cache@, depth),
{
    let ghost jv = jobs_view(jobs@);
    let mut out: Vec<AnalysisJob> = Vec::new();
    let n = jobs.len();
    let mut k: usize = 0;
    while k < n
        invariant
            n == jobs@.len(),
            jv == jobs_view(jobs@),
            k <= n,
            jobs_view(out@) == uncached(jv.take(k as int), cache@, depth),
        decreases n - k,
    {
        let job = &jobs[k];
        proof {
            let t = jv.take(k + 1);
            assert(t.drop_last() =~= jv.take(k as int));
            assert(t.last() == jv[k as int]);
            assert(jv[k as int] == (job.fen@, job.hash));
        }
        if cache.lookup(job.hash, job.fen.as_str(), depth).is_none() {
            let ghost before = out@;
            out.push(AnalysisJob { fen: job.fen.clone(), hash: job.hash });
            assert(jobs_view(out@) =~= jobs_view(before).push((job.fen@, job.hash)));
        }
        k = k + 1;
    }
    assert(jv.take(n as int) =~= jv);
    out
}

/// Move `m` filled from the cache: its evaluation and engine data when the cache
/// answers its starting position at `depth`.
pub open spec fn filled_move(m: AnalyzedMoveModel, c: Map<u64, CacheEntryModel>, depth: u32) -> AnalyzedMoveModel {
    match fen_zobrist(m.fen_before) {
        Some(h) => match cached_result(c, h, m.fen_before, depth) {
            Some(res) => AnalyzedMoveModel { evaluation: Some(res.0), engine_metadata: Some(res.1), ..m },
            None => m,
        },
        None => m,
    }
}

/// The evaluation after a game's last move: a mate when that move mated (`Mate(0)`
/// when White mated, `Mate(-1)` when Black did), otherwise the cache's answer for
/// the final position; unchanged when neither is known.
pub open spec fn filled_final(g: GameModel, c: Map<u64, CacheEntryModel>, depth: u32) -> Option<Evaluation> {
    if g.moves.len() == 0 {
        g.final_evaluation
    } else {
        let last = g.moves.last();
        match fen_checkmate(last.fen_after) {
            Some(true) => Some(if last.is_white { Evaluation::Mate(0) } else { Evaluation::Mate(-1i32) }),
            Some(false) => match fen_zobrist(last.fen_after) {
                Some(h) => match cached_result(c, h, last.fen_after, depth) {
                    Some(res) => Some(res.0),
                    None => g.final_evaluation,
                },
                None => g.final_evaluation,
            },
            None => g.final_evaluation,
        }
    }
}

pub open spec fn filled_game(g: GameModel, c: Map<u64, CacheEntryModel>, depth: u32) -> GameModel {
    GameModel {
        moves: g.moves.map_values(|m: AnalyzedMoveModel| filled_move(m, c, depth)),
        final_evaluation: filled_final(g, c, depth),
        ..g
    }
}

/// Fills one game's evaluations from the cache.
pub fn fill_game(game: &mut Game, cache: &PositionCache, depth: u32)
    ensures
        final(game)@ == filled_game(old(game)@, cache@, depth),
{
    let ghost g0 = game@;
    let n = game.moves.len();
    let mut i: usize = 0;
    while i < n
        invariant
            n == g0.moves.len(),
            game.moves@.len() == n,
            i <= n,
            game@.headers == g0.headers,
            game@.final_evaluation == g0.final_evaluation,
            forall|j: int| 0 <= j < i ==> (#[trigger] game@.moves[j]) == filled_move(g0.moves[j], cache@, depth),
            forall|j: int| i <= j < n ==> (#[trigger] game@.moves[j]) == g0.moves[j],
        decreases n - i,
    {
        let ghost before = game.moves@;
        let ghost gv = game@;
        proof {
            assert forall|j: int| 0 <= j < n implies gv.moves[j] == before[j]@ by {}
            assert(gv.moves[i as int] == g0.moves[i as int]);
        }
        match zobrist_of(game.moves[i].fen_before.as_str()) {
            Some(h) => {
                match cache.lookup(h, game.moves[i].fen_before.as_str(), depth) {
                    Some((e, meta)) => {
                        game.moves[i].evaluation = Some(e);
                        game.moves[i].engine_metadata = Some(meta);
                    },
                    None => {},
                }
            },
            None => {},
        }
        proof {
            assert forall|j: int| 0 <= j < n && j != i implies game.moves@[j] == before[j] by {}
            assert(game.moves@[i as int]@ == filled_move(g0.moves[i as int], cache@, depth));
            assert forall|j: int| 0 <= j <= i implies (#[trigger] game@.moves[j]) == filled_move(g0.moves[j], cache@, depth) by {
                assert(game@.moves[j] == game.moves@[j]@);
                if j < i {
                    assert(gv.moves[j] == filled_move(g0.moves[j], cache@, depth));
                }
            }
            assert forall|j: int| i < j < n implies (#[trigger] game@.moves[j]) == g0.moves[j] by {
                assert(game@.moves[j] == game.moves@[j]@);
                assert(gv.moves[j] == g0.moves[j]);
            }
        }
        i = i + 1;
    }
    proof {
        assert(game@.moves =~= g0.moves.map_values(|m: AnalyzedMoveModel| filled_move(m, cache@, depth)));
    }
    if n > 0 {
        let ghost gm = game@;
        proof {
            assert(gm.moves[n - 1] == game.moves@[n - 1]@);
            assert(g0.moves.last() == g0.moves[n - 1]);
        }
        let is_white = game.moves[n - 1].is_white;
        let new_final = match checkmate_status(game.moves[n - 1].fen_after.as_str()) {
            Some(true) => Some(if is_white { Evaluation::Mate(0) } else { Evaluation::Mate(-1) }),
            Some(false) => match zobrist_of(game.moves[n - 1].fen_after.as_str()) {
                Some(h) => match cache.lookup(h, game.moves[n - 1].fen_after.as_str(), depth) {
                    Some((e, _)) => Some(e),
                    None => game.final_evaluation,
                },
                None => game.final_evaluation,
            },
            None => game.final_evaluation,
        };
        game.final_evaluation = new_final;
    }
}

/// Each game of `after` is the same game of `before` filled from cache content `c`.
pub open spec fn games_filled_from(before: Seq<Game>, after: Seq<Game>, c: Map<u64, CacheEntryModel>, depth: u32) -> bool {
    &&& after.len() == before.len()
    &&& forall|k: int| 0 <= k < before.len() ==> (#[trigger] after[k])@ == filled_game(before[k]@, c, depth)
}

/// Fills the evaluations of every game from the cache.
pub fn fill_games(games: &mut Vec<Game>, cache: &PositionCache, depth: u32)
    ensures
        final(games)@.len() == old(games)@.len(),
        forall|k: int| 0 <= k < old(games)@.len() ==> (#[trigger] final(games)@[k])@ == filled_game(old(games)@[k]@, cache@, depth),
{
    let n = games.len();
    let mut k: usize = 0;
    while k < n
        invariant
            n == old(games)@.len(),
            games@.len() == n,
            k <= n,
            forall|j: int| 0 <= j < k ==> (#[trigger] games@[j])@ == filled_game(old(games)@[j]@, cache@, depth),
            forall|j: int| k <= j < n ==> (#[trigger] games@[j]) == old(games)@[j],
        decreases n - k,
    {
        fill_game(&mut games[k], cache, depth);
        k = k + 1;
    }
}


/// Filling a game from the cache changes nothing but the moves' evaluations and
/// engine data and the final evaluation: the tags, the number of moves and every
/// other field of each move stay.
pub proof fn law_filling_changes_only_evaluations(g: GameModel, c: Map<u64, CacheEntryModel>, depth: u32)
    ensures
        filled_game(g, c, depth).headers == g.headers,
        filled_game(g, c, depth).moves.len() == g.moves.len(),
        forall|i: int| 0 <= i < g.moves.len() ==> (AnalyzedMoveModel {
            evaluation: g.moves[i].evaluation,
            engine_metadata: g.moves[i].engine_metadata,
            ..#[trigger] filled_game(g, c, depth).moves[i]
        }) == g.moves[i],
{
}

/// A position whose analysis was offered to the cache at depth `d` or deeper is
/// filled in when the cache fills a move starting there at depth `d`: the move
/// gets an evaluation and engine data searched at least `d` deep.
pub proof fn law_inserted_results_are_filled(c: Map<u64, CacheEntryModel>, m: AnalyzedMoveModel, h: u64, e: CacheEntryModel, d: u32)
    requires
        fen_zobrist(m.fen_before) == Some(h),
        normalized_fen(e.fen) == normalized_fen(m.fen_before),
        e.metadata.depth >= d,
    ensures
        filled_move(m, cache_after_insert(c, h, e), d).evaluation is Some,
        filled_move(m, cache_after_insert(c, h, e), d).engine_metadata matches Some(md) && md.depth >= d,
{
}

/// In `auto` mode on a machine with three or more cores, the analysis runs one
/// process for every core but two, each with the threads configured (one when
/// none are).
pub proof fn law_auto_spares_two_cores(mode: Seq<char>, threads: Option<u32>, cores: u32)
    requires
        unicode_lowercase(mode) == "auto"@,
        cores >= 3,
    ensures
        processes_and_threads(mode, threads, cores).0 == cores - 2,
        processes_and_threads(mode, threads, cores).1 == match threads {
            Some(t) => if t >= 1 { t } else { 1 },
            None => 1,
        },
{
}

/// When no hash size is configured and the machine has room for the smallest
/// share, the engines' hash tables together stay within the memory left after
/// the 2048 MB kept for the system.
pub proof fn law_hash_within_memory(total_ram_mb: u64, processes: u32)
    requires
        processes >= 1,
        total_ram_mb >= 2048 + 64 * processes,
    ensures
        processes * hash_share(None, total_ram_mb, processes) <= total_ram_mb - 2048,
{
    let available: int = total_ram_mb - 2048;
    let p: int = processes as int;
    let share = available / p;
    assert(share >= 64 && p * share <= available) by (nonlinear_arith)
        requires
            p >= 1,
            available >= 64 * p,
            share == available / p,
    ;
    let h = hash_share(None, total_ram_mb, processes) as int;
    assert(h <= share);
    assert(p * h <= p * share) by (nonlinear_arith)
        requires
            p >= 1,
            h <= share,
    ;
}

/// `job` is one of `fens`, with the hash shakmaty gives it.
pub open spec fn job_of_position(fens: Seq<Seq<char>>, job: (Seq<char>, u64)) -> bool {
    exists|k: int| 0 <= k < fens.len() && #[trigger] fens[k] == job.0 && fen_zobrist(fens[k]) == Some(job.1)
}

/// Every job is one of the positions, with the hash shakmaty gives it.
pub proof fn law_jobs_come_from_positions(fens: Seq<Seq<char>>)
    ensures
        forall|i: int| 0 <= i < jobs_for(fens).len() ==> #[trigger] job_of_position(fens, jobs_for(fens)[i]),
    decreases fens.len(),
{
    if fens.len() > 0 {
        let p = fens.drop_last();
        let f = fens.last();
        law_jobs_come_from_positions(p);
        assert forall|i: int| 0 <= i < jobs_for(fens).len() implies #[trigger] job_of_position(fens, jobs_for(fens)[i]) by {
            if i < jobs_for(p).len() {
                assert(job_of_position(p, jobs_for(p)[i]));
                let k = choose|k: int| 0 <= k < p.len() && #[trigger] p[k] == jobs_for(p)[i].0 && fen_zobrist(p[k]) == Some(jobs_for(p)[i].1);
                assert(fens[k] == p[k]);
            } else {
                assert(fens[fens.len() - 1] == f);
            }
        }
    }
}

/// No two jobs are the same position: their normalized FENs differ, so each
/// position is analysed once.
pub proof fn law_jobs_distinct(fens: Seq<Seq<char>>)
    ensures
        forall|i: int, j: int| 0 <= i < j < jobs_for(fens).len() ==> normalized_fen(#[trigger] jobs_for(fens)[i].0) != normalized_fen(#[trigger] jobs_for(fens)[j].0),
    decreases fens.len(),
{
    if fens.len() > 0 {
        let p = fens.drop_last();
        let f = fens.last();
        law_jobs_distinct(p);
        law_jobs_come_from_positions(p);
        if !normalized_set(p).contains(normalized_fen(f)) && fen_zobrist(f) is Some {
            let js = jobs_for(fens);
            let n = jobs_for(p).len();
            assert forall|i: int| 0 <= i < n implies normalized_fen(#[trigger] js[i].0) != normalized_fen(f) by {
                assert(job_of_position(p, jobs_for(p)[i]));
                let k = choose|k: int| 0 <= k < p.len() && #[trigger] p[k] == jobs_for(p)[i].0 && fen_zobrist(p[k]) == Some(jobs_for(p)[i].1);
                if normalized_fen(js[i].0) == normalized_fen(f) {
                    assert(normalized_set(p).contains(normalized_fen(f)));
                }
            }
        }
    }
}

/// Each position whose normalized FEN appears for the first time, and that
/// shakmaty can read, becomes a job.
pub proof fn law_first_appearance_is_a_job(fens: Seq<Seq<char>>, k: int, h: u64)
    requires
        0 <= k < fens.len(),
        forall|i: int| 0 <= i < k ==> normalized_fen(#[trigger] fens[i]) != normalized_fen(fens[k]),
        fen_zobrist(fens[k]) == Some(h),
    ensures
        jobs_for(fens).contains((fens[k], h)),
    decreases fens.len(),
{
    let p = fens.drop_last();
    if k < fens.len() - 1 {
        assert forall|i: int| 0 <= i < k implies normalized_fen(#[trigger] p[i]) != normalized_fen(p[k]) by {
            assert(p[i] == fens[i]);
        }
        law_first_appearance_is_a_job(p, k, h);
        let j = choose|j: int| 0 <= j < jobs_for(p).len() && jobs_for(p)[j] == (p[k], h);
        assert(jobs_for(fens)[j] == (fens[k], h));
    } else {
        assert(fens.last() == fens[k]);
        if normalized_set(p).contains(normalized_fen(fens[k])) {
            let i = choose|i: int| 0 <= i < p.len() && normalized_fen(#[trigger] p[i]) == normalized_fen(fens[k]);
            assert(fens[i] == p[i]);
        }
        assert(jobs_for(fens) == jobs_for(p).push((fens[k], h)));
        assert(jobs_for(fens)[jobs_for(p).len() as int] == (fens[k], h));
    }
}

} // verus!
