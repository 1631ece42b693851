//! Tactical findings: missed mates.

use vstd::prelude::*;
use crate::annotations::{classified_game, classified_move, ClassificationConfig};
use crate::chess::{checkmate_status, fen_checkmate};
use crate::model::{eval_after, AnalyzedMove, AnalyzedMoveModel, Evaluation, Game, GameModel, TacticalFinding};

verus! {

pub open spec fn abs(x: int) -> int {
    if x < 0 { -x } else { x }
}

/// The finding for a missed mate in `mb` moves: a plain Missed Mate for a mate in
/// one, a Missed Forced Mate otherwise.
pub open spec fn missed_mate_kind(mb: i32) -> TacticalFinding {
    if abs(mb as int) == 1 {
        TacticalFinding::MissedMate
    } else {
        TacticalFinding::MissedForcedMate
    }
}

/// The findings at a move. The mover had a forced mate (`Mate(mb)` in their favour),
/// the move did not give mate, and afterwards the mate is gone or further away:
/// that is a missed mate. Nothing else is found.
pub open spec fn move_findings(m: AnalyzedMoveModel, after: Option<Evaluation>, mate_after: bool) -> Seq<TacticalFinding> {
    match m.evaluation {
        Some(Evaluation::Mate(mb)) => {
            let winning = (m.is_white && mb > 0) || (!m.is_white && mb < 0);
            if winning && !mate_after {
                let missed = match after {
                    Some(Evaluation::Mate(ma)) => if m.is_white {
                        ma <= 0 || ma > mb
                    } else {
                        ma >= 0 || abs(ma as int) > abs(mb as int)
                    },
                    _ => true,
                };
                if missed {
                    seq![missed_mate_kind(mb)]
                } else {
                    seq![]
                }
            } else {
                seq![]
            }
        },
        _ => seq![],
    }
}

/// Move `i` of `g` after tactic detection. Where the position after the move
/// cannot be read, the move keeps its findings.
pub open spec fn detected_move(g: GameModel, i: int) -> AnalyzedMoveModel {
    let m = g.moves[i];
    match fen_checkmate(m.fen_after) {
        Some(mate) => AnalyzedMoveModel { tactical_findings: move_findings(m, eval_after(g, i), mate), ..m },
        None => m,
    }
}

pub open spec fn detected_game(g: GameModel) -> GameModel {
    GameModel { moves: Seq::new(g.moves.len(), |i: int| detected_move(g, i)), ..g }
}

/// The findings at one move, given the evaluation after it and whether it gave mate.
pub fn tactics_for_move(mv: &AnalyzedMove, after: Option<Evaluation>, mate_after: bool) -> (r: Vec<TacticalFinding>)
    ensures
        r@ == move_findings(mv@, after, mate_after),
{
    let mut findings: Vec<TacticalFinding> = Vec::new();
    if let Some(Evaluation::Mate(mb)) = mv.evaluation {
        let is_winning = (mv.is_white && mb > 0) || (!mv.is_white && mb < 0);
        if is_winning && !mate_after {
            let b: i64 = mb as i64;
            let abs_b: i64 = if b < 0 { -b } else { b };
            let missed = match after {
                Some(Evaluation::Mate(ma)) => {
                    let a: i64 = ma as i64;
                    let abs_a: i64 = if a < 0 { -a } else { a };
                    if mv.is_white {
                        a <= 0 || a > b
                    } else {
                        a >= 0 || abs_a > abs_b
                    }
                },
                _ => true,
            };
            if missed {
                if abs_b == 1 {
                    findings.push(TacticalFinding::MissedMate);
                } else {
                    findings.push(TacticalFinding::MissedForcedMate);
                }
            }
        }
    }
    proof {
        assert(findings@ =~= move_findings(mv@, after, mate_after));
    }
    findings
}

/// Records the missed mates of every move of a game.
pub fn detect_tactics_for_game(game: &mut Game)
    ensures
        final(game)@ == detected_game(old(game)@),
{
    let ghost g0 = game@;
    let moves_len = game.moves.len();
    let mut i: usize = 0;
    while i < moves_len
        invariant
            moves_len == g0.moves.len(),
            i <= moves_len,
            game.moves@.len() == moves_len,
            game@.headers == g0.headers,
            game@.final_evaluation == g0.final_evaluation,
            forall|j: int| 0 <= j < i ==> (#[trigger] game@.moves[j]) == detected_move(g0, j),
            forall|j: int| i <= j < moves_len ==> (#[trigger] game@.moves[j]) == g0.moves[j],
        decreases moves_len - i,
    {
        let ghost before = game.moves@;
        let ghost gv = game@;
        proof {
            assert forall|j: int| 0 <= j < moves_len implies gv.moves[j] == before[j]@ by {}
            if i + 1 < moves_len {
                assert(gv.moves[i + 1] == g0.moves[i + 1]);
            }
            assert(gv.moves[i as int] == g0.moves[i as int]);
        }
        let status = checkmate_status(game.moves[i].fen_after.as_str());
        match status {
            Some(mate_after) => {
                let after = if i + 1 < moves_len {
                    game.moves[i + 1].evaluation
                } else {
                    game.final_evaluation
                };
                assert(after == eval_after(g0, i as int));
                let findings = tactics_for_move(&game.moves[i], after, mate_after);
                game.moves[i].tactical_findings = findings;
            },
            None => {},
        }
        proof {
            assert forall|j: int| 0 <= j < moves_len && j != i implies game.moves@[j] == before[j] by {}
            assert(game.moves@[i as int]@ == detected_move(g0, i as int));
            assert forall|j: int| 0 <= j <= i implies (#[trigger] game@.moves[j]) == detected_move(g0, j) by {
                assert(game@.moves[j] == game.moves@[j]@);
                if j < i {
                    assert(gv.moves[j] == detected_move(g0, j));
                }
            }
            assert forall|j: int| i < j < moves_len implies (#[trigger] game@.moves[j]) == g0.moves[j] by {
                assert(game@.moves[j] == game.moves@[j]@);
                assert(gv.moves[j] == g0.moves[j]);
            }
        }
        i = i + 1;
    }
    assert(game@.moves =~= detected_game(g0).moves);
}

/// Records the missed mates of every game.
pub fn detect_all_tactics(games: &mut Vec<Game>)
    ensures
        final(games)@.len() == old(games)@.len(),
        forall|k: int| 0 <= k < old(games)@.len() ==> (#[trigger] final(games)@[k])@ == detected_game(old(games)@[k]@),
{
    let n = games.len();
    let mut k: usize = 0;
    while k < n
        invariant
            n == old(games)@.len(),
            games@.len() == n,
            k <= n,
            forall|j: int| 0 <= j < k ==> (#[trigger] games@[j])@ == detected_game(old(games)@[j]@),
            forall|j: int| k <= j < n ==> (#[trigger] games@[j]) == old(games)@[j],
        decreases n - k,
    {
        detect_tactics_for_game(&mut games[k]);
        k = k + 1;
    }
}


/// For either side: when the mover had a forced mate in `|mb|` and did not give
/// mate, a mate still in the mover's favour afterwards is missed exactly when it
/// is further away (`|ma| > |mb|`); a nearer or equal one is never a missed mate.
/// A missed mate in one is a Missed Mate, a longer one a Missed Forced Mate.
pub proof fn law_missed_mate_when_mate_gets_further(m: AnalyzedMoveModel, mb: i32, ma: i32)
    requires
        m.evaluation == Some(Evaluation::Mate(mb)),
        if m.is_white { mb > 0 && ma > 0 } else { mb < 0 && ma < 0 },
    ensures
        move_findings(m, Some(Evaluation::Mate(ma)), false).len() > 0 <==> abs(ma as int) > abs(mb as int),
        abs(ma as int) > abs(mb as int) ==> move_findings(m, Some(Evaluation::Mate(ma)), false) == seq![
            if abs(mb as int) == 1 { TacticalFinding::MissedMate } else { TacticalFinding::MissedForcedMate }
        ],
{
}

/// For either side: when the mover had a forced mate and did not give mate,
/// afterwards having no mate of their own (the evaluation is not a mate in the
/// mover's favour, or unknown) is always a missed mate; giving mate never is.
pub proof fn law_lost_mate_is_missed(m: AnalyzedMoveModel, mb: i32, after: Option<Evaluation>)
    requires
        m.evaluation == Some(Evaluation::Mate(mb)),
        if m.is_white { mb > 0 } else { mb < 0 },
    ensures
        !(after matches Some(Evaluation::Mate(ma)) && (if m.is_white { ma > 0 } else { ma < 0 }))
            ==> move_findings(m, after, false).len() == 1,
        move_findings(m, after, true).len() == 0,
{
}

/// Detection changes nothing but the moves' findings: the tags, the number of
/// moves, every other field of each move and the final evaluation stay.
pub proof fn law_detection_changes_only_findings(g: GameModel)
    ensures
        detected_game(g).headers == g.headers,
        detected_game(g).final_evaluation == g.final_evaluation,
        detected_game(g).moves.len() == g.moves.len(),
        forall|i: int| 0 <= i < g.moves.len() ==> (AnalyzedMoveModel {
            tactical_findings: g.moves[i].tactical_findings,
            ..#[trigger] detected_game(g).moves[i]
        }) == g.moves[i],
{
}

/// Detecting tactics in a game a second time changes nothing.
pub proof fn law_detection_idempotent(g: GameModel)
    ensures
        detected_game(detected_game(g)) == detected_game(g),
{
    let d = detected_game(g);
    assert forall|i: int| 0 <= i < g.moves.len() implies #[trigger] detected_move(d, i) == d.moves[i] by {
        assert(eval_after(d, i) == eval_after(g, i)) by {
            if i + 1 < g.moves.len() {
                assert(d.moves[i + 1] == detected_move(g, i + 1));
            }
        }
    }
    assert(detected_game(d).moves =~= d.moves);
}

/// Classifying moves and detecting tactics do not depend on each other: either
/// order gives the same game.
pub proof fn law_classify_detect_commute(g: GameModel, cfg: ClassificationConfig)
    ensures
        detected_game(classified_game(g, cfg)) == classified_game(detected_game(g), cfg),
{
    let c = classified_game(g, cfg);
    let d = detected_game(g);
    assert forall|i: int| 0 <= i < g.moves.len() implies #[trigger] detected_move(c, i) == classified_move(d, i, cfg) by {
        assert(eval_after(c, i) == eval_after(g, i) && eval_after(d, i) == eval_after(g, i)) by {
            if i + 1 < g.moves.len() {
                assert(c.moves[i + 1] == classified_move(g, i + 1, cfg));
                assert(d.moves[i + 1] == detected_move(g, i + 1));
            }
        }
    }
    assert(detected_game(c).moves =~= classified_game(d, cfg).moves);
}

} // verus!
