//! Move classification from the evaluations before and after each move.

use vstd::prelude::*;
use crate::model::{
    eval_after, eval_value, AnalyzedMoveModel, Evaluation, Game, GameModel, MoveClassification,
};

verus! {

/// Upper bounds on the loss, in hundredths of a pawn, for each grade.
pub struct ClassificationConfig {
    pub best_move_threshold: i64,
    pub excellent_threshold: i64,
    pub good_threshold: i64,
    pub inaccuracy_threshold: i64,
    pub mistake_threshold: i64,
}

impl Default for ClassificationConfig {
    /// 0.10, 0.20, 0.50, 1.00 and 2.00 pawns.
    fn default() -> (r: Self)
        ensures
            r.best_move_threshold == 10,
            r.excellent_threshold == 20,
            r.good_threshold == 50,
            r.inaccuracy_threshold == 100,
            r.mistake_threshold == 200,
    {
        ClassificationConfig {
            best_move_threshold: 10,
            excellent_threshold: 20,
            good_threshold: 50,
            inaccuracy_threshold: 100,
            mistake_threshold: 200,
        }
    }
}

/// The side to move has a forced mate in `e`.
pub open spec fn winning_mate(e: Evaluation, white: bool) -> bool {
    match e {
        Evaluation::Mate(m) => (white && m > 0) || (!white && m < 0),
        _ => false,
    }
}

/// What the mover lost, in hundredths of a pawn, going from `before` to `after`.
pub open spec fn loss_of(before: Evaluation, after: Evaluation, white: bool) -> int {
    if white {
        eval_value(before) - eval_value(after)
    } else {
        eval_value(after) - eval_value(before)
    }
}

/// The mover's own advantage in `e`, in hundredths of a pawn.
pub open spec fn advantage(e: Evaluation, white: bool) -> int {
    if white {
        eval_value(e)
    } else {
        -eval_value(e)
    }
}

/// The grade of a move that the engine did not name as best, from the evaluations
/// around it. A winning position (1.50 pawns or a forced mate) that loses a pawn
/// or the mate is a Miss, or a Blunder when the mover ends below -1.00;
/// otherwise the loss is graded by the thresholds, where a loss beyond the
/// Mistake threshold is a Blunder only when it leaves the mover below -1.00
/// (a Mistake otherwise).
pub open spec fn grade(before: Evaluation, after: Evaluation, white: bool, cfg: ClassificationConfig) -> MoveClassification {
    let loss = loss_of(before, after, white);
    let mate_escaped = winning_mate(before, white) && !winning_mate(after, white);
    let was_winning = advantage(before, white) >= 150 || winning_mate(before, white);
    let lost_advantage = loss >= 100 || mate_escaped;
    if was_winning && lost_advantage {
        if advantage(after, white) < -100 {
            MoveClassification::Blunder
        } else {
            MoveClassification::Miss
        }
    } else if loss <= cfg.best_move_threshold {
        MoveClassification::BestMove
    } else if loss <= cfg.excellent_threshold {
        MoveClassification::Excellent
    } else if loss <= cfg.good_threshold {
        MoveClassification::Good
    } else if loss <= cfg.inaccuracy_threshold {
        MoveClassification::Inaccuracy
    } else if loss <= cfg.mistake_threshold || advantage(after, white) >= -100 {
        MoveClassification::Mistake
    } else {
        MoveClassification::Blunder
    }
}

/// The classification of a move: Best Move when it is the engine's best move;
/// otherwise its grade when the evaluations before and after it are known;
/// otherwise none.
pub open spec fn move_classification(m: AnalyzedMoveModel, after: Option<Evaluation>, cfg: ClassificationConfig) -> Option<MoveClassification> {
    if m.engine_metadata is Some && m.uci == m.engine_metadata->0.best_move {
        Some(MoveClassification::BestMove)
    } else {
        match (m.evaluation, after) {
            (Some(b), Some(a)) => Some(grade(b, a, m.is_white, cfg)),
            _ => None,
        }
    }
}

/// Move `i` of `g` after classification: a move that cannot be classified keeps
/// the classification it had.
pub open spec fn classified_move(g: GameModel, i: int, cfg: ClassificationConfig) -> AnalyzedMoveModel {
    let m = g.moves[i];
    AnalyzedMoveModel {
        classification: match move_classification(m, eval_after(g, i), cfg) {
            Some(c) => Some(c),
            None => m.classification,
        },
        ..m
    }
}

pub open spec fn classified_game(g: GameModel, cfg: ClassificationConfig) -> GameModel {
    GameModel { moves: Seq::new(g.moves.len(), |i: int| classified_move(g, i, cfg)), ..g }
}

fn winning_mate_exec(e: &Evaluation, white: bool) -> (r: bool)
    ensures
        r == winning_mate(*e, white),
{
    match e {
        Evaluation::Mate(m) => (white && *m > 0) || (!white && *m < 0),
        _ => false,
    }
}

fn grade_exec(before: &Evaluation, after: &Evaluation, white: bool, cfg: &ClassificationConfig) -> (r: MoveClassification)
    ensures
        r == grade(*before, *after, white, *cfg),
{
    let vb = before.absolute_value();
    let va = after.absolute_value();
    let loss: i64 = if white { vb - va } else { va - vb };
    let wm_before = winning_mate_exec(before, white);
    let wm_after = winning_mate_exec(after, white);
    let mate_escaped = wm_before && !wm_after;
    let adv_before: i64 = if white { vb } else { -vb };
    let adv_after: i64 = if white { va } else { -va };
    let was_winning = adv_before >= 150 || wm_before;
    let lost_advantage = loss >= 100 || mate_escaped;
    if was_winning && lost_advantage {
        if adv_after < -100 {
            MoveClassification::Blunder
        } else {
            MoveClassification::Miss
        }
    } else if loss <= cfg.best_move_threshold {
        MoveClassification::BestMove
    } else if loss <= cfg.excellent_threshold {
        MoveClassification::Excellent
    } else if loss <= cfg.good_threshold {
        MoveClassification::Good
    } else if loss <= cfg.inaccuracy_threshold {
        MoveClassification::Inaccuracy
    } else if loss <= cfg.mistake_threshold || adv_after >= -100 {
        MoveClassification::Mistake
    } else {
        MoveClassification::Blunder
    }
}

/// Classifies every move of a game that can be classified.
pub fn classify_game_moves(game: &mut Game, config: &ClassificationConfig)
    ensures
        final(game)@ == classified_game(old(game)@, *config),
{
    let ghost g0 = game@;
    let moves_len = game.moves.len();
    let mut i: usize = 0;
    while i < moves_len
        invariant
            moves_len == g0.moves.len(),
            i <= moves_len,
            game.moves@.len() == moves_len,
            game@.headers == g0.headers,
            game@.final_evaluation == g0.final_evaluation,
            forall|j: int| 0 <= j < i ==> (#[trigger] game@.moves[j]) == classified_move(g0, j, *config),
            forall|j: int| i <= j < moves_len ==> (#[trigger] game@.moves[j]) == g0.moves[j],
        decreases moves_len - i,
    {
        let is_white = game.moves[i].is_white;
        let is_engine_best = match &game.moves[i].engine_metadata {
            Some(meta) => game.moves[i].uci == meta.best_move,
            None => false,
        };
        let mut c: Option<MoveClassification> = None;
        if is_engine_best {
            c = Some(MoveClassification::BestMove);
        } else {
            let after = if i + 1 < moves_len {
                game.moves[i + 1].evaluation
            } else {
                game.final_evaluation
            };
            match (game.moves[i].evaluation, after) {
                (Some(b), Some(a)) => {
                    c = Some(grade_exec(&b, &a, is_white, config));
                },
                _ => {},
            }
        }
        proof {
            assert(game@.moves[i as int] == g0.moves[i as int]);
            if i + 1 < moves_len {
                assert(game@.moves[i + 1] == g0.moves[i + 1]);
            }
            assert(c == move_classification(g0.moves[i as int], eval_after(g0, i as int), *config));
        }
        let ghost before = game.moves@;
        let ghost gv = game@;
        proof {
            assert forall|j: int| 0 <= j < moves_len implies gv.moves[j] == before[j]@ by {}
        }
        match c {
            Some(cls) => {
                game.moves[i].classification = Some(cls);
            },
            None => {},
        }
        proof {
            assert forall|j: int| 0 <= j < moves_len && j != i implies game.moves@[j] == before[j] by {}
            assert(game.moves@[i as int]@ == classified_move(g0, i as int, *config));
            assert forall|j: int| 0 <= j <= i implies (#[trigger] game@.moves[j]) == classified_move(g0, j, *config) by {
                assert(game@.moves[j] == game.moves@[j]@);
                if j < i {
                    assert(gv.moves[j] == classified_move(g0, j, *config));
                }
            }
            assert forall|j: int| i < j < moves_len implies (#[trigger] game@.moves[j]) == g0.moves[j] by {
                assert(game@.moves[j] == game.moves@[j]@);
                assert(gv.moves[j] == g0.moves[j]);
            }
        }
        i = i + 1;
    }
    assert(game@.moves =~= classified_game(g0, *config).moves);
}

/// Classifies the moves of every game.
pub fn classify_all_moves(games: &mut Vec<Game>, config: &ClassificationConfig)
    ensures
        final(games)@.len() == old(games)@.len(),
        forall|k: int| 0 <= k < old(games)@.len() ==> (#[trigger] final(games)@[k])@ == classified_game(old(games)@[k]@, *config),
{
    let n = games.len();
    let mut k: usize = 0;
    while k < n
        invariant
            n == old(games)@.len(),
            games@.len() == n,
            k <= n,
            forall|j: int| 0 <= j < k ==> (#[trigger] games@[j])@ == classified_game(old(games)@[j]@, *config),
            forall|j: int| k <= j < n ==> (#[trigger] games@[j]) == old(games)@[j],
        decreases n - k,
    {
        classify_game_moves(&mut games[k], config);
        k = k + 1;
    }
}


/// A move that is the engine's best move is graded Best Move.
pub proof fn law_engine_best_is_best_move(g: GameModel, i: int, cfg: ClassificationConfig)
    requires
        0 <= i < g.moves.len(),
        g.moves[i].engine_metadata is Some,
        g.moves[i].uci == g.moves[i].engine_metadata->0.best_move,
    ensures
        classified_game(g, cfg).moves[i].classification == Some(MoveClassification::BestMove),
{
}

/// A move that loses no more than the Best Move threshold (and less than a pawn)
/// without letting a forced mate go is graded Best Move.
pub proof fn law_small_loss_is_best_move(before: Evaluation, after: Evaluation, white: bool, cfg: ClassificationConfig)
    requires
        loss_of(before, after, white) <= cfg.best_move_threshold,
        loss_of(before, after, white) < 100,
        !(winning_mate(before, white) && !winning_mate(after, white)),
    ensures
        grade(before, after, white, cfg) == MoveClassification::BestMove,
{
}

/// A Miss is a move from a winning position (1.50 pawns or a forced mate) that
/// loses at least a pawn or the mate, yet leaves the mover at -1.00 or better.
pub proof fn law_miss_meaning(before: Evaluation, after: Evaluation, white: bool, cfg: ClassificationConfig)
    requires
        grade(before, after, white, cfg) == MoveClassification::Miss,
    ensures
        advantage(before, white) >= 150 || winning_mate(before, white),
        loss_of(before, after, white) >= 100 || (winning_mate(before, white) && !winning_mate(after, white)),
        advantage(after, white) >= -100,
{
}

/// For either side, a move from a position worth at least 1.50 pawns to the
/// mover that loses at least a pawn yet leaves the mover at -1.00 or better is
/// a Miss; one that leaves the mover below -1.00 is a Blunder.
pub proof fn law_winning_position_thrown_away(before: Evaluation, after: Evaluation, white: bool, cfg: ClassificationConfig)
    requires
        advantage(before, white) >= 150,
        loss_of(before, after, white) >= 100,
    ensures
        advantage(after, white) >= -100 ==> grade(before, after, white, cfg) == MoveClassification::Miss,
        advantage(after, white) < -100 ==> grade(before, after, white, cfg) == MoveClassification::Blunder,
{
}

/// The loss is what the mover's own advantage drops by, for either side.
pub proof fn law_loss_is_drop_in_advantage(before: Evaluation, after: Evaluation, white: bool)
    ensures
        loss_of(before, after, white) == advantage(before, white) - advantage(after, white),
        advantage(before, white) == if white { eval_value(before) } else { -eval_value(before) },
{
}

/// A Blunder leaves the mover in a losing position, below -1.00, having either
/// lost more than the Mistake threshold or thrown away a winning position.
pub proof fn law_blunder_meaning(before: Evaluation, after: Evaluation, white: bool, cfg: ClassificationConfig)
    requires
        grade(before, after, white, cfg) == MoveClassification::Blunder,
    ensures
        advantage(after, white) < -100,
        loss_of(before, after, white) > cfg.mistake_threshold
            || ((advantage(before, white) >= 150 || winning_mate(before, white))
                && (loss_of(before, after, white) >= 100 || (winning_mate(before, white) && !winning_mate(after, white)))),
{
}

/// Classification changes nothing but the moves' classifications: the tags, the
/// number of moves, every other field of each move and the final evaluation stay.
pub proof fn law_classification_changes_only_classifications(g: GameModel, cfg: ClassificationConfig)
    ensures
        classified_game(g, cfg).headers == g.headers,
        classified_game(g, cfg).final_evaluation == g.final_evaluation,
        classified_game(g, cfg).moves.len() == g.moves.len(),
        forall|i: int| 0 <= i < g.moves.len() ==> (AnalyzedMoveModel {
            classification: g.moves[i].classification,
            ..#[trigger] classified_game(g, cfg).moves[i]
        }) == g.moves[i],
{
}

/// Classifying a game a second time changes nothing.
pub proof fn law_classification_idempotent(g: GameModel, cfg: ClassificationConfig)
    ensures
        classified_game(classified_game(g, cfg), cfg) == classified_game(g, cfg),
{
    let c = classified_game(g, cfg);
    assert forall|i: int| 0 <= i < g.moves.len() implies #[trigger] classified_move(c, i, cfg) == c.moves[i] by {
        assert(eval_after(c, i) == eval_after(g, i)) by {
            if i + 1 < g.moves.len() {
                assert(c.moves[i + 1] == classified_move(g, i + 1, cfg));
            }
        }
    }
    assert(classified_game(c, cfg).moves =~= c.moves);
}

} // verus!
