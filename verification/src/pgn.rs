//! Building games from the events of a PGN reader: tag pairs, moves in SAN and
//! comments. The reader drives a [`GameVisitor`] through one game at a time.

use vstd::prelude::*;
use crate::chess::{fen_position_epd, play_san, position_epd, san_step, start_position_epd};
use crate::model::{
    find_header, header_value, headers_view, moves_view, AnalyzedMove, AnalyzedMoveModel, Game,
    GameModel,
};
use crate::text::{chars_of, decode_utf8_bytes, push_char, push_chars, trim, trim_chars};

verus! {

broadcast use vstd::string::group_string_axioms;

/// The text of some bytes when they are UTF-8, the empty text otherwise.
pub open spec fn utf8_or_empty(b: Seq<u8>) -> Seq<char> {
    if vstd::utf8::valid_utf8(b) {
        vstd::utf8::decode_utf8(b)
    } else {
        Seq::empty()
    }
}

/// The EPD of the standard starting position.
pub open spec fn start_epd() -> Seq<char> {
    "rnbqkbnr/pppppppp/8/8/8/8/PPPPPPPP/RNBQKBNR w KQkq -"@
}

/// The position a game starts from: that of its first `FEN` tag (name compared
/// without regard to ASCII case) when it can be read, the standard one otherwise.
pub open spec fn initial_position(tags: Seq<(Seq<char>, Seq<char>)>) -> Seq<char> {
    match find_header(tags, "fen"@) {
        Some(f) => match fen_position_epd(f) {
            Some(p) => p,
            None => start_epd(),
        },
        None => start_epd(),
    }
}

/// The state of a game while its movetext is read.
pub struct Movetext {
    pub tags: Vec<(String, String)>,
    pub moves: Vec<AnalyzedMove>,
    /// The current position, as EPD.
    pub position: String,
}

/// The moves read so far form a chain: move `i` is half-move `i`, numbered and
/// coloured accordingly, and starts from the position the previous move reached;
/// the current position is the one the last move reached.
pub open spec fn consistent_moves(moves: Seq<AnalyzedMoveModel>, position: Seq<char>) -> bool {
    &&& forall|i: int| 0 <= i < moves.len() ==> {
        &&& (#[trigger] moves[i]).ply == i as u32
        &&& moves[i].move_number == 1 + moves[i].ply / 2
        &&& moves[i].is_white == (moves[i].ply % 2 == 0)
        &&& san_step(moves[i].fen_before, moves[i].san) == Some((moves[i].uci, moves[i].fen_after))
    }
    &&& forall|i: int| 0 <= i < moves.len() - 1 ==> (#[trigger] moves[i + 1]).fen_before == moves[i].fen_after
    &&& moves.len() > 0 ==> moves.last().fen_after == position
}

impl Movetext {
    pub open spec fn consistent(&self) -> bool {
        consistent_moves(moves_view(self.moves@), self.position@)
    }
}

/// The move that playing `san` from `position` records, as the `ply`-th half-move.
pub open spec fn recorded_move(position: Seq<char>, san: Seq<char>, ply: u32, step: (Seq<char>, Seq<char>)) -> AnalyzedMoveModel {
    AnalyzedMoveModel {
        move_number: (1 + ply / 2) as u32,
        ply: ply,
        is_white: ply % 2 == 0,
        san: san,
        uci: step.0,
        fen_before: position,
        fen_after: step.1,
        evaluation: None,
        classification: None,
        tactical_findings: Seq::empty(),
        engine_metadata: None,
        comment: None,
    }
}

/// Collects the games a PGN reader reports.
pub struct GameVisitor {
    /// The last game completed.
    pub current_game: Option<Game>,
}

impl GameVisitor {
    pub fn new() -> (r: Self)
        ensures
            r.current_game is None,
    {
        GameVisitor { current_game: None }
    }

    /// A game starts: no tags yet.
    pub fn begin_tags(&mut self) -> (r: Vec<(String, String)>)
        ensures
            r@.len() == 0,
    {
        Vec::new()
    }

    /// A tag pair: name and value are taken as UTF-8 (empty when they are not).
    pub fn tag(&mut self, tags: &mut Vec<(String, String)>, key: &[u8], value: &[u8])
        ensures
            headers_view(final(tags)@) == headers_view(old(tags)@).push((utf8_or_empty(key@), utf8_or_empty(value@))),
    {
        let k = match decode_utf8_bytes(key) {
            Some(s) => s,
            None => String::new(),
        };
        let v = match decode_utf8_bytes(value) {
            Some(s) => s,
            None => String::new(),
        };
        tags.push((k, v));
        assert(headers_view(tags@) =~= headers_view(old(tags)@).push((utf8_or_empty(key@), utf8_or_empty(value@))));
    }

    /// The movetext starts: from the position of the `FEN` tag if it can be read.
    pub fn begin_movetext(&mut self, tags: Vec<(String, String)>) -> (r: Movetext)
        ensures
            headers_view(r.tags@) == headers_view(tags@),
            r.moves@.len() == 0,
            r.position@ == initial_position(headers_view(tags@)),
            r.consistent(),
    {
        let start = match header_value(&tags, "fen") {
            Some(f) => match position_epd(f) {
                Some(p) => p,
                None => start_position_epd(),
            },
            None => start_position_epd(),
        };
        let r = Movetext { tags, moves: Vec::new(), position: start };
        assert(moves_view(r.moves@) =~= Seq::<AnalyzedMoveModel>::empty());
        r
    }

    /// A move in SAN: recorded when it is legal in the current position, which it
    /// then advances; ignored otherwise.
    pub fn san(&mut self, movetext: &mut Movetext, san: &str)
        ensures
            headers_view(final(movetext).tags@) == headers_view(old(movetext).tags@),
            match san_step(old(movetext).position@, san@) {
                Some(step) => {
                    &&& moves_view(final(movetext).moves@) == moves_view(old(movetext).moves@).push(
                        recorded_move(old(movetext).position@, san@, old(movetext).moves@.len() as u32, step))
                    &&& final(movetext).position@ == step.1
                },
                None => {
                    &&& moves_view(final(movetext).moves@) == moves_view(old(movetext).moves@)
                    &&& final(movetext).position@ == old(movetext).position@
                },
            },
            old(movetext).consistent() ==> final(movetext).consistent(),
    {
        match play_san(movetext.position.as_str(), san) {
            Some((uci, after)) => {
                let ply: u32 = movetext.moves.len() as u32;
                let move_number: u32 = 1 + ply / 2;
                let is_white = ply % 2 == 0;
                let fen_before = movetext.position.clone();
                let mut san_text = String::new();
                let san_chars = chars_of(san);
                push_chars(&mut san_text, san_chars.as_slice());
                let mv = AnalyzedMove {
                    move_number,
                    ply,
                    is_white,
                    san: san_text,
                    uci,
                    fen_before,
                    fen_after: after.clone(),
                    evaluation: None,
                    classification: None,
                    tactical_findings: Vec::new(),
                    engine_metadata: None,
                    comment: None,
                };
                let ghost old_moves = movetext.moves@;
                movetext.moves.push(mv);
                movetext.position = after;
                proof {
                    let ov = moves_view(old_moves);
                    let nv = moves_view(movetext.moves@);
                    assert(nv =~= ov.push(mv@));
                    assert(mv@ == recorded_move(old(movetext).position@, san@, old_moves.len() as u32, san_step(old(movetext).position@, san@)->0));
                    if old(movetext).consistent() {
                        assert forall|i: int| 0 <= i < nv.len() - 1 implies (#[trigger] nv[i + 1]).fen_before == nv[i].fen_after by {
                            if i + 1 < ov.len() {
                                assert(nv[i + 1] == ov[i + 1]);
                            }
                        }
                        assert forall|i: int| 0 <= i < nv.len() implies {
                            &&& (#[trigger] nv[i]).ply == i as u32
                            &&& nv[i].move_number == 1 + nv[i].ply / 2
                            &&& nv[i].is_white == (nv[i].ply % 2 == 0)
                            &&& san_step(nv[i].fen_before, nv[i].san) == Some((nv[i].uci, nv[i].fen_after))
                        } by {
                            if i < ov.len() {
                                assert(nv[i] == ov[i]);
                            }
                        }
                    }
                }
            },
            None => {},
        }
    }

    /// A comment after a move: trimmed, and when not empty attached to the last
    /// move, after a space if that move already has a comment.
    pub fn comment(&mut self, movetext: &mut Movetext, comment: &[u8])
        ensures
            headers_view(final(movetext).tags@) == headers_view(old(movetext).tags@),
            final(movetext).position == old(movetext).position,
            final(movetext).moves@.len() == old(movetext).moves@.len(),
            ({
                let old_m = moves_view(old(movetext).moves@);
                let new_m = moves_view(final(movetext).moves@);
                let c = trim(utf8_or_empty(comment@));
                if old_m.len() > 0 && c.len() > 0 {
                    &&& new_m.drop_last() == old_m.drop_last()
                    &&& new_m.last() == AnalyzedMoveModel {
                        comment: Some(match old_m.last().comment {
                            Some(e) => e + seq![' '] + c,
                            None => c,
                        }),
                        ..old_m.last()
                    }
                } else {
                    new_m == old_m
                }
            }),
            old(movetext).consistent() ==> final(movetext).consistent(),
    {
        let text = match decode_utf8_bytes(comment) {
            Some(s) => s,
            None => String::new(),
        };
        let chars = chars_of(text.as_str());
        let trimmed = trim_chars(chars.as_slice());
        assert(text@ == utf8_or_empty(comment@));
        assert(trimmed@ == trim(utf8_or_empty(comment@)));
        let n = movetext.moves.len();
        if n == 0 || trimmed.len() == 0 {
            return;
        }
        let ghost old_moves = movetext.moves@;
        let last = n - 1;
        let new_comment = match &movetext.moves[last].comment {
            Some(existing) => {
                let mut c = existing.clone();
                push_char(&mut c, ' ');
                push_chars(&mut c, trimmed.as_slice());
                assert(c@ =~= existing@ + seq![' '] + trimmed@);
                c
            },
            None => string_from(trimmed.as_slice()),
        };
        movetext.moves[last].comment = Some(new_comment);
        proof {
            let ov = moves_view(old_moves);
            let nv = moves_view(movetext.moves@);
            assert(nv.drop_last() =~= ov.drop_last());
            assert(nv.len() == ov.len());
            assert(nv.last() == nv[last as int]);
            assert(ov.last() == ov[last as int]);
            assert(nv[last as int] == movetext.moves@[last as int]@);
            assert(movetext.moves@[last as int].comment == Some(new_comment));
            assert(old_moves[last as int]@ == ov[last as int]);
            assert(nv.last() == AnalyzedMoveModel {
                comment: Some(match ov.last().comment {
                    Some(e) => e + seq![' '] + trimmed@,
                    None => trimmed@,
                }),
                ..ov.last()
            });
            if old(movetext).consistent() {
                assert forall|i: int| 0 <= i < nv.len() - 1 implies (#[trigger] nv[i + 1]).fen_before == nv[i].fen_after by {
                    assert(ov[i + 1].fen_before == ov[i].fen_after);
                    if i + 1 < last {
                        assert(nv[i + 1] == ov[i + 1]);
                    }
                    if i < last {
                        assert(nv[i] == ov[i]);
                    }
                }
                assert forall|i: int| 0 <= i < nv.len() implies {
                    &&& (#[trigger] nv[i]).ply == i as u32
                    &&& nv[i].move_number == 1 + nv[i].ply / 2
                    &&& nv[i].is_white == (nv[i].ply % 2 == 0)
                    &&& san_step(nv[i].fen_before, nv[i].san) == Some((nv[i].uci, nv[i].fen_after))
                } by {
                    assert(ov[i].ply == i as u32);
                    if i < last {
                        assert(nv[i] == ov[i]);
                    }
                }
            }
        }
    }

    /// Sub-variations are skipped.
    pub fn begin_variation(&mut self, movetext: &mut Movetext) -> (skip: bool)
        ensures
            skip,
    {
        true
    }

    /// The game ends: it is recorded as the current game and returned.
    pub fn end_game(&mut self, movetext: Movetext) -> (r: Option<Game>)
        ensures
            r matches Some(g) && g@ == (GameModel {
                headers: headers_view(movetext.tags@),
                moves: moves_view(movetext.moves@),
                final_evaluation: None,
            }),
            final(self).current_game matches Some(c) && c@ == r->0@,
    {
        let game = Game { headers: movetext.tags, moves: movetext.moves, final_evaluation: None };
        self.current_game = Some(game.duplicate());
        Some(game)
    }
}

fn string_from(v: &[char]) -> (r: String)
    ensures
        r@ == v@,
{
    let mut s = String::new();
    push_chars(&mut s, v);
    s
}

} // verus!
