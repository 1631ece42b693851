//! Annotated PGN export: each game's tag pairs, its moves with evaluation,
//! best move, classification, score loss, findings and the comments read with the game, the
//! engine's line where the position is decisive, and the result.

use vstd::prelude::*;
use vstd::string::StrSliceExecFns;
use crate::chess::{
    fen_after_legal_move, fen_legal_moves, legal_moves_of, play_legal_move, LegalMove,
    LegalMoveModel,
};
use crate::model::{
    classification_tag, eval_text, eval_value, finding_tag, AnalyzedMoveModel, Evaluation, Game,
    GameModel,
};
use crate::text::{chars_of, decimal, digit_char, digit_to_char, join, push_char, push_chars, push_decimal};

verus! {

broadcast use vstd::string::group_string_axioms;

// ---------------------------------------------------------------------------
// Moves in UCI notation
// ---------------------------------------------------------------------------

pub open spec fn is_file_char(c: char) -> bool {
    'a' <= c && c <= 'h'
}

pub open spec fn is_rank_char(c: char) -> bool {
    '1' <= c && c <= '8'
}

/// The square named by a file and a rank character (0 = a1, ..., 63 = h8).
pub open spec fn square_index(f: char, r: char) -> u8 {
    ((f as int - 'a' as int) + 8 * (r as int - '1' as int)) as u8
}

/// The promotion piece a UCI suffix names, as shakmaty numbers pieces.
pub open spec fn promotion_code(c: char) -> Option<u8> {
    if c == 'q' {
        Some(5u8)
    } else if c == 'r' {
        Some(4u8)
    } else if c == 'b' {
        Some(3u8)
    } else if c == 'n' {
        Some(2u8)
    } else {
        None
    }
}

/// A move in UCI notation: origin and target squares, and the promotion its fifth
/// character names (none when that character names no piece).
pub open spec fn parse_uci(u: Seq<char>) -> Option<(u8, u8, Option<u8>)> {
    if u.len() < 4 {
        None
    } else if !(is_file_char(u[0]) && is_rank_char(u[1])) {
        None
    } else if !(is_file_char(u[2]) && is_rank_char(u[3])) {
        None
    } else {
        Some((square_index(u[0], u[1]), square_index(u[2], u[3]), if u.len() > 4 { promotion_code(u[4]) } else { None }))
    }
}

/// Reading `u` as UCI slices its bytes at 2 and, when the first square reads, at 4;
/// those must fall between characters.
pub open spec fn uci_sliceable(u: Seq<char>) -> bool {
    let b = vstd::utf8::encode_utf8(u);
    ||| (b.len() as usize) < 4
    ||| vstd::utf8::is_char_boundary(b, 2) && (!(u.len() >= 2 && is_file_char(u[0]) && is_rank_char(u[1])) || vstd::utf8::is_char_boundary(b, 4))
}

pub open spec fn move_fits(m: LegalMoveModel, p: (u8, u8, Option<u8>)) -> bool {
    &&& m.from == Some(p.0)
    &&& m.to == p.1
    &&& match p.2 {
        Some(code) => m.promotion == Some(code),
        None => m.promotion is None,
    }
}

/// The first move of `legal` that `parsed` describes.
pub open spec fn first_fitting(legal: Seq<LegalMoveModel>, p: (u8, u8, Option<u8>)) -> Option<int>
    decreases legal.len(),
{
    if legal.len() == 0 {
        None
    } else if move_fits(legal[0], p) {
        Some(0)
    } else {
        match first_fitting(legal.drop_first(), p) {
            Some(k) => Some(k + 1),
            None => None,
        }
    }
}

/// Why a UCI text names no legal move: it is shorter than four bytes, its first
/// or second square does not read, or no legal move has those squares and that
/// promotion.
#[derive(Clone, Copy, Debug, PartialEq, Eq, Structural)]
pub enum UciError {
    InvalidLength,
    InvalidFromSquare,
    InvalidToSquare,
    NoLegalMove,
}

/// Reading a UCI text against the legal moves of a position: the position in
/// `legal` of the first move it names, or why there is none.
pub open spec fn uci_reading(legal: Seq<LegalMoveModel>, u: Seq<char>) -> Result<int, UciError> {
    if byte_len(u) < 4 {
        Err(UciError::InvalidLength)
    } else if !(u.len() >= 2 && is_file_char(u[0]) && is_rank_char(u[1])) {
        Err(UciError::InvalidFromSquare)
    } else if !(u.len() >= 4 && is_file_char(u[2]) && is_rank_char(u[3])) {
        Err(UciError::InvalidToSquare)
    } else {
        match parse_uci(u) {
            Some(p) => match first_fitting(legal, p) {
                Some(k) => Ok(k),
                None => Err(UciError::NoLegalMove),
            },
            None => Err(UciError::NoLegalMove),
        }
    }
}

/// The legal move a UCI text names, by its position in `legal`.
pub open spec fn uci_move_index(legal: Seq<LegalMoveModel>, u: Seq<char>) -> Option<int> {
    match uci_reading(legal, u) {
        Ok(k) => Some(k),
        Err(_) => None,
    }
}

pub proof fn lemma_first_fitting_bounds(legal: Seq<LegalMoveModel>, p: (u8, u8, Option<u8>))
    ensures
        first_fitting(legal, p) matches Some(k) ==> 0 <= k < legal.len(),
    decreases legal.len(),
{
    if legal.len() > 0 && !move_fits(legal[0], p) {
        lemma_first_fitting_bounds(legal.drop_first(), p);
    }
}

pub proof fn lemma_uci_move_index_bounds(legal: Seq<LegalMoveModel>, u: Seq<char>)
    ensures
        uci_move_index(legal, u) matches Some(k) ==> 0 <= k < legal.len(),
{
    if parse_uci(u) is Some {
        lemma_first_fitting_bounds(legal, parse_uci(u)->0);
    }
}

fn square_of(f: char, r: char) -> (s: u8)
    requires
        is_file_char(f),
        is_rank_char(r),
    ensures
        s == square_index(f, r),
{
    let fi: u32 = (f as u32) - 97;
    let ri: u32 = (r as u32) - 49;
    (fi + 8 * ri) as u8
}

fn parse_uci_exec(u: &[char]) -> (r: Option<(u8, u8, Option<u8>)>)
    ensures
        r == parse_uci(u@),
{
    if u.len() < 4 {
        return None;
    }
    if !('a' <= u[0] && u[0] <= 'h' && '1' <= u[1] && u[1] <= '8') {
        return None;
    }
    if !('a' <= u[2] && u[2] <= 'h' && '1' <= u[3] && u[3] <= '8') {
        return None;
    }
    let promo: Option<u8> = if u.len() > 4 {
        let c = u[4];
        if c == 'q' {
            Some(5u8)
        } else if c == 'r' {
            Some(4u8)
        } else if c == 'b' {
            Some(3u8)
        } else if c == 'n' {
            Some(2u8)
        } else {
            None
        }
    } else {
        None
    };
    Some((square_of(u[0], u[1]), square_of(u[2], u[3]), promo))
}

/// Whether reading `uci` as UCI slices its bytes between characters only.
pub fn uci_text_sliceable(uci: &str) -> (r: bool)
    ensures
        r == uci_sliceable(uci@),
{
    if uci.len() < 4 {
        return true;
    }
    if !uci.is_char_boundary(2) {
        return false;
    }
    let c = chars_of(uci);
    if !(c.len() >= 2 && 'a' <= c[0] && c[0] <= 'h' && '1' <= c[1] && c[1] <= '8') {
        return true;
    }
    uci.is_char_boundary(4)
}

/// The position in `legal` of the legal move the UCI text `uci` names, or why
/// there is none (see [`uci_reading`]).
fn parse_uci_move(legal: &Vec<LegalMove>, uci: &str) -> (r: Result<usize, UciError>)
    ensures
        match r {
            Ok(k) => uci_reading(legal@.map_values(|m: LegalMove| m@), uci@) == Ok::<int, UciError>(k as int),
            Err(e) => uci_reading(legal@.map_values(|m: LegalMove| m@), uci@) == Err::<int, UciError>(e),
        },
{
    let ghost lv = legal@.map_values(|m: LegalMove| m@);
    if uci.len() < 4 {
        return Err(UciError::InvalidLength);
    }
    let u = chars_of(uci);
    assert(u@ == uci@);
    if !(u.len() >= 2 && 'a' <= u[0] && u[0] <= 'h' && '1' <= u[1] && u[1] <= '8') {
        return Err(UciError::InvalidFromSquare);
    }
    if !(u.len() >= 4 && 'a' <= u[2] && u[2] <= 'h' && '1' <= u[3] && u[3] <= '8') {
        return Err(UciError::InvalidToSquare);
    }
    let p = match parse_uci_exec(u.as_slice()) {
        Some(p) => p,
        None => return Err(UciError::NoLegalMove),
    };
    let (from, to, promo) = p;
    let mut i: usize = 0;
    assert(lv.skip(0) =~= lv);
    while i < legal.len()
        invariant
            i <= legal@.len(),
            lv == legal@.map_values(|m: LegalMove| m@),
            p == (from, to, promo),
            parse_uci(uci@) == Some(p),
            uci_reading(lv, uci@) == match first_fitting(lv, p) {
                Some(k) => Ok::<int, UciError>(k),
                None => Err(UciError::NoLegalMove),
            },
            first_fitting(lv, p) == match first_fitting(lv.skip(i as int), p) {
                Some(k) => Some(k + i),
                None => None::<int>,
            },
        decreases legal@.len() - i,
    {
        let m = &legal[i];
        assert(lv.skip(i as int)[0] == m@);
        let from_ok = match m.from {
            Some(f) => f == from,
            None => false,
        };
        let promo_ok = match promo {
            Some(code) => match m.promotion {
                Some(q) => q == code,
                None => false,
            },
            None => m.promotion.is_none(),
        };
        let fits = from_ok && m.to == to && promo_ok;
        assert(fits == move_fits(m@, p));
        if fits {
            assert(first_fitting(lv.skip(i as int), p) == Some(0int));
            return Ok(i);
        }
        assert(lv.skip(i as int).drop_first() =~= lv.skip(i + 1));
        i = i + 1;
    }
    Err(UciError::NoLegalMove)
}

// ---------------------------------------------------------------------------
// The engine's line in PGN notation
// ---------------------------------------------------------------------------

/// Move numbers count on as 32-bit machine integers do.
pub open spec fn next_number(n: u32) -> u32 {
    if n == u32::MAX { 0 } else { (n + 1) as u32 }
}

/// The text for the moves of `pv` played from `fen`, the first of them being
/// entry `i` of the line: `12. Nf3 Nc6 13. Bb5` for White, `12... Nc6 13. Bb5`
/// for Black. It stops before the first entry that is not a legal move, and after
/// a move whose result cannot be found.
pub open spec fn pv_steps(fen: Seq<char>, pv: Seq<Seq<char>>, i: nat, white: bool, number: u32) -> Seq<char>
    decreases pv.len(),
{
    if pv.len() == 0 {
        seq![]
    } else {
        match fen_legal_moves(fen) {
            Some(legal) => match uci_move_index(legal, pv[0]) {
                Some(k) => {
                    let san = legal[k].san;
                    let piece = if white {
                        (if i == 0 { seq![] } else { seq![' '] }) + decimal(number as nat) + ". "@ + san
                    } else if i == 0 {
                        decimal(number as nat) + "... "@ + san
                    } else {
                        seq![' '] + san
                    };
                    match fen_after_legal_move(fen, k) {
                        Some(next) => piece + pv_steps(next, pv.drop_first(), i + 1, !white, if white { number } else { next_number(number) }),
                        None => piece,
                    }
                },
                None => seq![],
            },
            None => seq![],
        }
    }
}

/// Reading the line from `fen` never slices a UCI text inside a character.
pub open spec fn pv_sliceable(fen: Seq<char>, pv: Seq<Seq<char>>) -> bool
    decreases pv.len(),
{
    if pv.len() == 0 {
        true
    } else {
        match fen_legal_moves(fen) {
            Some(legal) => uci_sliceable(pv[0]) && match uci_move_index(legal, pv[0]) {
                Some(k) => match fen_after_legal_move(fen, k) {
                    Some(next) => pv_sliceable(next, pv.drop_first()),
                    None => true,
                },
                None => true,
            },
            None => true,
        }
    }
}

/// In the engine's line the move number goes up after each Black move and only
/// then. A line starting with Black to move at number `n` reads
/// `n... a n+1. b`; one starting with White reads `n. a b`.
pub proof fn law_pv_numbering(
    fen: Seq<char>,
    pv: Seq<Seq<char>>,
    n: u32,
    legal: Seq<LegalMoveModel>,
    k0: int,
    next: Seq<char>,
    legal2: Seq<LegalMoveModel>,
    k1: int,
)
    requires
        pv.len() >= 2,
        n < u32::MAX,
        fen_legal_moves(fen) == Some(legal),
        uci_move_index(legal, pv[0]) == Some(k0),
        fen_after_legal_move(fen, k0) == Some(next),
        fen_legal_moves(next) == Some(legal2),
        uci_move_index(legal2, pv[1]) == Some(k1),
    ensures
        (decimal(n as nat) + "... "@ + legal[k0].san + seq![' '] + decimal((n + 1) as nat) + ". "@ + legal2[k1].san).is_prefix_of(
            pv_steps(fen, pv, 0, false, n),
        ),
        (decimal(n as nat) + ". "@ + legal[k0].san + seq![' '] + legal2[k1].san).is_prefix_of(pv_steps(fen, pv, 0, true, n)),
{
    let rest = pv.drop_first();
    assert(rest[0] == pv[1]);
    let tail_b = match fen_after_legal_move(next, k1) {
        Some(nn) => pv_steps(nn, rest.drop_first(), 2, false, next_number(n)),
        None => seq![],
    };
    let tail_w = match fen_after_legal_move(next, k1) {
        Some(nn) => pv_steps(nn, rest.drop_first(), 2, true, next_number(n)),
        None => seq![],
    };
    let piece_b1 = seq![' '] + decimal(next_number(n) as nat) + ". "@ + legal2[k1].san;
    let piece_w1 = seq![' '] + legal2[k1].san;
    assert(pv_steps(next, rest, 1, true, next_number(n)) == piece_b1 + tail_b);
    assert(pv_steps(next, rest, 1, false, n) == piece_w1 + tail_w);
    let piece_b0 = decimal(n as nat) + "... "@ + legal[k0].san;
    let piece_w0 = (seq![] + decimal(n as nat)) + ". "@ + legal[k0].san;
    assert(pv_steps(fen, pv, 0, false, n) == piece_b0 + pv_steps(next, rest, 1, true, next_number(n)));
    assert(pv_steps(fen, pv, 0, true, n) == piece_w0 + pv_steps(next, rest, 1, false, n));
    assert(seq![] + decimal(n as nat) =~= decimal(n as nat));
    let pb = decimal(n as nat) + "... "@ + legal[k0].san + seq![' '] + decimal((n + 1) as nat) + ". "@ + legal2[k1].san;
    assert(pb =~= piece_b0 + piece_b1);
    assert(pv_steps(fen, pv, 0, false, n) =~= piece_b0 + piece_b1 + tail_b);
    assert(pb =~= pv_steps(fen, pv, 0, false, n).subrange(0, pb.len() as int));
    let pw = decimal(n as nat) + ". "@ + legal[k0].san + seq![' '] + legal2[k1].san;
    assert(pw =~= piece_w0 + piece_w1);
    assert(pv_steps(fen, pv, 0, true, n) =~= piece_w0 + piece_w1 + tail_w);
    assert(pw =~= pv_steps(fen, pv, 0, true, n).subrange(0, pw.len() as int));
}

/// Whether reading the engine's line from `fen` slices its texts between characters only.
fn pv_sliceable_exec(fen: &str, pv: &Vec<String>) -> (r: bool)
    ensures
        r == pv_sliceable(fen@, pv@.map_values(|s: String| s@)),
{
    let ghost pvv = pv@.map_values(|s: String| s@);
    let mut current = String::new();
    current.append(fen);
    let mut i: usize = 0;
    assert(pvv.skip(0) =~= pvv);
    while i < pv.len()
        invariant
            pv_sliceable(fen@, pvv) == pv_sliceable(current@, pvv.skip(i as int)),
            i <= pv@.len(),
            pvv == pv@.map_values(|s: String| s@),
        decreases pv@.len() - i,
    {
        let ghost rest = pvv.skip(i as int);
        assert(rest[0] == pv@[i as int]@);
        assert(rest.drop_first() =~= pvv.skip(i + 1));
        let legal = match legal_moves_of(current.as_str()) {
            Some(l) => l,
            None => {
                assert(pv_sliceable(current@, rest));
                return true;
            },
        };
        if !uci_text_sliceable(pv[i].as_str()) {
            assert(!pv_sliceable(current@, rest));
            return false;
        }
        let ghost lv = legal@.map_values(|m: LegalMove| m@);
        let k = match parse_uci_move(&legal, pv[i].as_str()) {
            Ok(k) => k,
            Err(_) => {
                assert(pv_sliceable(current@, rest));
                return true;
            },
        };
        let ghost cur0 = current@;
        match play_legal_move(current.as_str(), k) {
            Some(next) => {
                current = next;
                assert(pv_sliceable(cur0, rest) == pv_sliceable(current@, rest.drop_first()));
            },
            None => {
                assert(pv_sliceable(cur0, rest));
                return true;
            },
        }
        i = i + 1;
    }
    assert(pvv.skip(i as int).len() == 0);
    true
}

/// The engine's line as PGN text, when at least one of its moves is legal.
pub open spec fn pv_text(fen: Seq<char>, pv: Seq<Seq<char>>, white: bool, number: u32) -> Option<Seq<char>> {
    let t = pv_steps(fen, pv, 0, white, number);
    if t.len() == 0 {
        None
    } else {
        Some(t)
    }
}

fn format_pv_variation(fen: &str, pv: &Vec<String>, is_white_to_move: bool, start_move_number: u32) -> (r: Option<String>)
    ensures
        r matches Some(s) ==> pv_text(fen@, pv@.map_values(|s: String| s@), is_white_to_move, start_move_number) == Some(s@),
        r is None ==> pv_text(fen@, pv@.map_values(|s: String| s@), is_white_to_move, start_move_number) is None,
{
    let ghost pvv = pv@.map_values(|s: String| s@);
    let mut variation = String::new();
    let mut current = String::new();
    current.append(fen);
    let mut move_number = start_move_number;
    let mut is_white = is_white_to_move;
    let mut i: usize = 0;
    assert(pvv.skip(0) =~= pvv);
    while i < pv.len()
        invariant_except_break
            variation@ + pv_steps(current@, pvv.skip(i as int), i as nat, is_white, move_number)
                == pv_steps(fen@, pvv, 0, is_white_to_move, start_move_number),
        invariant
            i <= pv@.len(),
            pvv == pv@.map_values(|s: String| s@),
        ensures
            variation@ == pv_steps(fen@, pvv, 0, is_white_to_move, start_move_number),
        decreases pv@.len() - i,
    {
        let ghost rest = pvv.skip(i as int);
        assert(rest[0] == pv@[i as int]@);
        assert(rest.drop_first() =~= pvv.skip(i + 1));
        let legal = match legal_moves_of(current.as_str()) {
            Some(l) => l,
            None => {
                assert(pv_steps(current@, rest, i as nat, is_white, move_number) == Seq::<char>::empty());
                assert(variation@ + seq![] =~= variation@);
                break;
            },
        };
        let ghost lv = legal@.map_values(|m: LegalMove| m@);
        let k = match parse_uci_move(&legal, pv[i].as_str()) {
            Ok(k) => k,
            Err(_) => {
                assert(pv_steps(current@, rest, i as nat, is_white, move_number) == Seq::<char>::empty());
                assert(variation@ + seq![] =~= variation@);
                break;
            },
        };
        proof {
            lemma_uci_move_index_bounds(lv, pv@[i as int]@);
        }
        let ghost before = variation@;
        let san = &legal[k].san;
        if is_white {
            if i > 0 {
                push_char(&mut variation, ' ');
            }
            push_decimal(&mut variation, move_number as u64);
            variation.append(". ");
            variation.append(san.as_str());
        } else if i == 0 {
            push_decimal(&mut variation, move_number as u64);
            variation.append("... ");
            variation.append(san.as_str());
        } else {
            push_char(&mut variation, ' ');
            variation.append(san.as_str());
        }
        let ghost piece = if is_white {
            (if i == 0 { seq![] } else { seq![' '] }) + decimal(move_number as nat) + ". "@ + lv[k as int].san
        } else if i == 0 {
            decimal(move_number as nat) + "... "@ + lv[k as int].san
        } else {
            seq![' '] + lv[k as int].san
        };
        assert(variation@ =~= before + piece);
        let ghost cur0 = current@;
        match play_legal_move(current.as_str(), k) {
            Some(next) => {
                current = next;
                assert(pv_steps(cur0, rest, i as nat, is_white, move_number) == piece + pv_steps(current@, rest.drop_first(), (i + 1) as nat, !is_white, if is_white { move_number } else { next_number(move_number) }));
            },
            None => {
                assert(pv_steps(cur0, rest, i as nat, is_white, move_number) == piece);
                break;
            },
        }
        if !is_white {
            move_number = if move_number == u32::MAX { 0 } else { move_number + 1 };
        }
        is_white = !is_white;
        i = i + 1;
        assert(before + (piece + pv_steps(current@, pvv.skip(i as int), i as nat, is_white, move_number)) =~= variation@ + pv_steps(current@, pvv.skip(i as int), i as nat, is_white, move_number));
    }
    if variation.as_str().is_empty() {
        None
    } else {
        Some(variation)
    }
}


// ---------------------------------------------------------------------------
// One move
// ---------------------------------------------------------------------------

pub open spec fn iabs(x: int) -> int {
    if x < 0 { -x } else { x }
}

/// A non-negative number of hundredths with two decimals: `2.80`.
pub open spec fn two_decimals(v: nat) -> Seq<char> {
    decimal(v / 100) + seq!['.', digit_char(((v % 100) / 10) as int), digit_char((v % 10) as int)]
}

/// Black's move is numbered (`12... Nc6`) when the move before it carries annotations.
pub open spec fn prev_annotated(g: GameModel, idx: int) -> bool {
    idx > 0 && {
        let p = g.moves[idx - 1];
        p.comment is Some || p.evaluation is Some || p.engine_metadata is Some
    }
}

pub open spec fn move_prefix(g: GameModel, idx: int) -> Seq<char> {
    let m = g.moves[idx];
    if m.is_white {
        decimal(m.move_number as nat) + ". "@ + m.san
    } else if prev_annotated(g, idx) {
        decimal(m.move_number as nat) + "... "@ + m.san
    } else {
        m.san
    }
}

/// The engine's best move in SAN when the position and the move can be read, as
/// the engine wrote it otherwise.
pub open spec fn best_move_san(fen: Seq<char>, best: Seq<char>) -> Seq<char> {
    match fen_legal_moves(fen) {
        Some(legal) => match uci_move_index(legal, best) {
            Some(k) => legal[k].san,
            None => best,
        },
        None => best,
    }
}

/// A forced mate, or an advantage of at least 3.00 pawns either way.
pub open spec fn decisive(e: Option<Evaluation>) -> bool {
    match e {
        Some(Evaluation::Mate(_)) => true,
        Some(Evaluation::Centipawns(cp)) => iabs(cp as int) >= 300,
        None => false,
    }
}

/// The engine's line, shown for decisive positions that can be read.
pub open spec fn move_pv(m: AnalyzedMoveModel) -> Option<Seq<char>> {
    match m.engine_metadata {
        Some(meta) => if fen_legal_moves(m.fen_before) is Some && decisive(m.evaluation) && meta.principal_variation.len() > 0 {
            pv_text(m.fen_before, meta.principal_variation, m.is_white, m.move_number)
        } else {
            None
        },
        None => None,
    }
}

/// The loss of a move in hundredths of a pawn, when both evaluations are known.
pub open spec fn move_loss(g: GameModel, idx: int) -> Option<int> {
    let m = g.moves[idx];
    match (m.evaluation, crate::model::eval_after(g, idx)) {
        (Some(b), Some(a)) => Some(crate::annotations::loss_of(b, a, m.is_white)),
        _ => None,
    }
}

pub open spec fn analysis_tokens(g: GameModel, idx: int) -> Seq<Seq<char>> {
    let m = g.moves[idx];
    (match m.classification {
        Some(c) => seq!["classification="@ + classification_tag(c)],
        None => seq![],
    }) + (match move_loss(g, idx) {
        Some(l) => if l > 0 { seq!["score_loss="@ + two_decimals(l as nat)] } else { seq![] },
        None => seq![],
    }) + (if m.tactical_findings.len() > 0 {
        seq!["missed="@ + join(m.tactical_findings.map_values(|f| finding_tag(f)), ","@)]
    } else {
        seq![]
    })
}

/// The parts of a move's comment: evaluation, best move, analysis, own comment.
pub open spec fn comment_parts(g: GameModel, idx: int) -> Seq<Seq<char>> {
    let m = g.moves[idx];
    let tokens = analysis_tokens(g, idx);
    (match m.evaluation {
        Some(e) => seq!["[%eval "@ + eval_text(e) + "]"@],
        None => seq![],
    }) + (match m.engine_metadata {
        Some(meta) => seq!["[%bestmove "@ + best_move_san(m.fen_before, meta.best_move) + "]"@],
        None => seq![],
    }) + (if tokens.len() > 0 {
        seq!["[%analysis "@ + join(tokens, " "@) + "]"@]
    } else {
        seq![]
    }) + (match m.comment {
        Some(c) => seq![c],
        None => seq![],
    })
}

/// A move as it is written: its number and SAN, its comment in braces, the
/// engine's line in parentheses.
pub open spec fn move_text(g: GameModel, idx: int) -> Seq<char> {
    let parts = comment_parts(g, idx);
    move_prefix(g, idx) + (if parts.len() > 0 {
        " { "@ + join(parts, " "@) + " }"@
    } else {
        seq![]
    }) + (match move_pv(g.moves[idx]) {
        Some(v) => " ("@ + v + ")"@,
        None => seq![],
    })
}

fn push_two_decimals(out: &mut String, v: u64)
    ensures
        final(out)@ == old(out)@ + two_decimals(v as nat),
{
    push_decimal(out, v / 100);
    push_char(out, '.');
    push_char(out, digit_to_char((v % 100) / 10));
    push_char(out, digit_to_char(v % 10));
    assert(out@ =~= old(out)@ + two_decimals(v as nat));
}

/// Appends `parts` joined by `sep`.
fn push_joined_strings(out: &mut String, parts: &Vec<String>, sep: &str)
    ensures
        final(out)@ == old(out)@ + join(parts@.map_values(|t: String| t@), sep@),
{
    let n = parts.len();
    let ghost ps = parts@.map_values(|t: String| t@);
    let mut i: usize = 0;
    while i < n
        invariant
            n == parts@.len(),
            ps == parts@.map_values(|t: String| t@),
            i <= n,
            out@ == old(out)@ + join(ps.take(i as int), sep@),
        decreases n - i,
    {
        assert(ps.take(i + 1).drop_last() =~= ps.take(i as int));
        assert(ps.take(i + 1).last() == parts@[i as int]@);
        if i > 0 {
            out.append(sep);
        }
        out.append(parts[i].as_str());
        i = i + 1;
        proof {
            if i == 1 {
                assert(join(ps.take(1), sep@) == ps.take(1)[0]);
            }
        }
    }
    assert(ps.take(n as int) =~= ps);
}

fn best_move_san_exec(fen: &str, best: &String) -> (r: String)
    ensures
        r@ == best_move_san(fen@, best@),
{
    match legal_moves_of(fen) {
        Some(legal) => {
            let ghost lv = legal@.map_values(|m: LegalMove| m@);
            match parse_uci_move(&legal, best.as_str()) {
                Ok(k) => {
                    proof {
                        lemma_uci_move_index_bounds(lv, best@);
                    }
                    legal[k].san.clone()
                },
                Err(_) => best.clone(),
            }
        },
        None => best.clone(),
    }
}

fn analysis_tokens_exec(game: &Game, idx: usize) -> (r: Vec<String>)
    requires
        idx < game.moves@.len(),
    ensures
        r@.map_values(|t: String| t@) == analysis_tokens(game@, idx as int),
{
    let ghost g = game@;
    let m = &game.moves[idx];
    assert(g.moves[idx as int] == m@);
    let mut tokens: Vec<String> = Vec::new();
    let ghost mut expect: Seq<Seq<char>> = seq![];
    match m.classification {
        Some(c) => {
            let mut t = String::from_str("classification=");
            let tag = c.tag();
            t.append(tag.as_str());
            tokens.push(t);
            proof { expect = expect.push("classification="@ + classification_tag(c)); }
        },
        None => {},
    }
    let after = if idx < game.moves.len() - 1 {
        game.moves[idx + 1].evaluation
    } else {
        game.final_evaluation
    };
    proof {
        if idx + 1 < game.moves@.len() {
            assert(g.moves[idx + 1] == game.moves@[idx + 1]@);
        }
    }
    match (m.evaluation, after) {
        (Some(b), Some(a)) => {
            let vb = b.absolute_value();
            let va = a.absolute_value();
            let loss: i64 = if m.is_white { vb - va } else { va - vb };
            if loss > 0 {
                let mut t = String::from_str("score_loss=");
                push_two_decimals(&mut t, loss as u64);
                tokens.push(t);
                proof { expect = expect.push("score_loss="@ + two_decimals(loss as nat)); }
            }
        },
        _ => {},
    }
    if m.tactical_findings.len() > 0 {
        let mut tags: Vec<String> = Vec::new();
        let mut j: usize = 0;
        while j < m.tactical_findings.len()
            invariant
                j <= m.tactical_findings@.len(),
                tags@.map_values(|t: String| t@) =~= m.tactical_findings@.take(j as int).map_values(|f| finding_tag(f)),
            decreases m.tactical_findings@.len() - j,
        {
            let ghost before = tags@;
            let t = m.tactical_findings[j].tag();
            tags.push(t);
            proof {
                assert(tags@.map_values(|t: String| t@) =~= before.map_values(|t: String| t@).push(t@));
                assert(m.tactical_findings@.take(j + 1) =~= m.tactical_findings@.take(j as int).push(m.tactical_findings@[j as int]));
                assert(m.tactical_findings@.take(j + 1).map_values(|f| finding_tag(f)) =~= m.tactical_findings@.take(j as int).map_values(|f| finding_tag(f)).push(finding_tag(m.tactical_findings@[j as int])));
            }
            j = j + 1;
        }
        assert(m.tactical_findings@.take(j as int) =~= m.tactical_findings@);
        let mut t = String::from_str("missed=");
        push_joined_strings(&mut t, &tags, ",");
        tokens.push(t);
        proof { expect = expect.push("missed="@ + join(m.tactical_findings@.map_values(|f| finding_tag(f)), ","@)); }
    }
    assert(tokens@.map_values(|t: String| t@) =~= expect);
    assert(expect =~= analysis_tokens(g, idx as int));
    tokens
}


fn comment_parts_exec(game: &Game, idx: usize) -> (r: Vec<String>)
    requires
        idx < game.moves@.len(),
    ensures
        r@.map_values(|t: String| t@) == comment_parts(game@, idx as int),
{
    let ghost g = game@;
    let m = &game.moves[idx];
    assert(g.moves[idx as int] == m@);
    let mut parts: Vec<String> = Vec::new();
    let ghost mut expect: Seq<Seq<char>> = seq![];
    match m.evaluation {
        Some(e) => {
            let mut t = String::from_str("[%eval ");
            let et = e.to_string();
            t.append(et.as_str());
            t.append("]");
            parts.push(t);
            proof { expect = expect.push("[%eval "@ + eval_text(e) + "]"@); }
        },
        None => {},
    }
    match &m.engine_metadata {
        Some(meta) => {
            let san = best_move_san_exec(m.fen_before.as_str(), &meta.best_move);
            let mut t = String::from_str("[%bestmove ");
            t.append(san.as_str());
            t.append("]");
            parts.push(t);
            proof { expect = expect.push("[%bestmove "@ + best_move_san(m.fen_before@, meta.best_move@) + "]"@); }
        },
        None => {},
    }
    let tokens = analysis_tokens_exec(game, idx);
    if tokens.len() > 0 {
        let mut t = String::from_str("[%analysis ");
        push_joined_strings(&mut t, &tokens, " ");
        t.append("]");
        parts.push(t);
        proof { expect = expect.push("[%analysis "@ + join(analysis_tokens(g, idx as int), " "@) + "]"@); }
    }
    match &m.comment {
        Some(c) => {
            parts.push(c.clone());
            proof { expect = expect.push(c@); }
        },
        None => {},
    }
    assert(parts@.map_values(|t: String| t@) =~= expect);
    assert(expect =~= comment_parts(g, idx as int));
    parts
}

fn move_pv_exec(game: &Game, idx: usize) -> (r: Option<String>)
    requires
        idx < game.moves@.len(),
    ensures
        r matches Some(s) ==> move_pv(game@.moves[idx as int]) == Some(s@),
        r is None ==> move_pv(game@.moves[idx as int]) is None,
{
    let m = &game.moves[idx];
    assert(game@.moves[idx as int] == m@);
    match &m.engine_metadata {
        Some(meta) => {
            let readable = match legal_moves_of(m.fen_before.as_str()) {
                Some(_) => true,
                None => false,
            };
            let decisive = match m.evaluation {
                Some(Evaluation::Mate(_)) => true,
                Some(Evaluation::Centipawns(cp)) => {
                    let c: i64 = cp as i64;
                    c >= 300 || c <= -300
                },
                None => false,
            };
            if readable && decisive && meta.principal_variation.len() > 0 {
                format_pv_variation(m.fen_before.as_str(), &meta.principal_variation, m.is_white, m.move_number)
            } else {
                None
            }
        },
        None => None,
    }
}

/// The text of move `idx` of a game.
fn move_text_exec(game: &Game, idx: usize) -> (r: String)
    requires
        idx < game.moves@.len(),
    ensures
        r@ == move_text(game@, idx as int),
{
    let ghost g = game@;
    let m = &game.moves[idx];
    assert(g.moves[idx as int] == m@);
    let mut s = String::new();
    let numbered_black = if idx > 0 {
        let p = &game.moves[idx - 1];
        assert(g.moves[idx - 1] == p@);
        p.comment.is_some() || p.evaluation.is_some() || p.engine_metadata.is_some()
    } else {
        false
    };
    if m.is_white {
        push_decimal(&mut s, m.move_number as u64);
        s.append(". ");
        s.append(m.san.as_str());
    } else if numbered_black {
        push_decimal(&mut s, m.move_number as u64);
        s.append("... ");
        s.append(m.san.as_str());
    } else {
        s.append(m.san.as_str());
    }
    assert(s@ =~= move_prefix(g, idx as int));
    let parts = comment_parts_exec(game, idx);
    if parts.len() > 0 {
        s.append(" { ");
        push_joined_strings(&mut s, &parts, " ");
        s.append(" }");
    }
    match move_pv_exec(game, idx) {
        Some(v) => {
            s.append(" (");
            s.append(v.as_str());
            s.append(")");
        },
        None => {},
    }
    assert(s@ =~= move_text(g, idx as int));
    s
}

// ---------------------------------------------------------------------------
// Games
// ---------------------------------------------------------------------------

/// The UTF-8 length of a text.
pub open spec fn byte_len(s: Seq<char>) -> int {
    vstd::utf8::encode_utf8(s).len() as usize as int
}

/// Moves joined into lines: a move goes on the current line after a space unless
/// the line would then exceed 80 bytes; then the line is finished and the move
/// starts the next one. Gives the finished lines' text and the current line.
pub open spec fn wrap_moves(strs: Seq<Seq<char>>) -> (Seq<char>, Seq<char>)
    decreases strs.len(),
{
    if strs.len() == 0 {
        (seq![], seq![])
    } else {
        let (done, line) = wrap_moves(strs.drop_last());
        let s = strs.last();
        if line.len() == 0 {
            (done, s)
        } else if byte_len(line) + byte_len(s) + 1 > 80 {
            (done + line + seq!['\n'], s)
        } else {
            (done, line + seq![' '] + s)
        }
    }
}

proof fn lemma_encode_concat(a: Seq<char>, b: Seq<char>)
    ensures
        vstd::utf8::encode_utf8(a + b) == vstd::utf8::encode_utf8(a) + vstd::utf8::encode_utf8(b),
    decreases a.len(),
{
    if a.len() > 0 {
        lemma_encode_concat(a.drop_first(), b);
        assert((a + b).drop_first() =~= a.drop_first() + b);
        assert((a + b)[0] == a[0]);
        assert(vstd::utf8::encode_utf8(a + b) =~= vstd::utf8::encode_scalar(a[0] as u32) + (vstd::utf8::encode_utf8(
            a.drop_first(),
        ) + vstd::utf8::encode_utf8(b)));
    } else {
        assert(a + b =~= b);
    }
}

/// The line being filled either fits in 80 bytes or holds a single move (the
/// last one), given moves whose UTF-8 lengths fit in a machine word.
pub proof fn law_lines_fit_or_hold_one_move(strs: Seq<Seq<char>>)
    requires
        forall|i: int| 0 <= i < strs.len() ==> vstd::utf8::encode_utf8(#[trigger] strs[i]).len() <= usize::MAX,
    ensures
        strs.len() > 0 ==> (vstd::utf8::encode_utf8(wrap_moves(strs).1).len() <= 80 || wrap_moves(strs).1 == strs.last()),
    decreases strs.len(),
{
    if strs.len() > 0 {
        let p = strs.drop_last();
        let s = strs.last();
        assert(vstd::utf8::encode_utf8(s).len() <= usize::MAX) by {
            assert(s == strs[strs.len() - 1]);
        }
        law_lines_fit_or_hold_one_move(p);
        let (done, line) = wrap_moves(p);
        if line.len() > 0 && !(byte_len(line) + byte_len(s) + 1 > 80) {
            assert(p.len() > 0);
            assert(vstd::utf8::encode_utf8(p.last()).len() <= usize::MAX) by {
                assert(p.last() == strs[p.len() - 1]);
            }
            assert(vstd::utf8::encode_utf8(line).len() <= usize::MAX);
            lemma_encode_concat(line, seq![' ']);
            lemma_encode_concat(line + seq![' '], s);
            assert(vstd::utf8::encode_utf8(seq![' ']).len() == 1) by {
                reveal_with_fuel(vstd::utf8::encode_utf8, 2);
            }
        }
    }
}

pub open spec fn move_texts(g: GameModel) -> Seq<Seq<char>> {
    Seq::new(g.moves.len(), |i: int| move_text(g, i))
}

pub open spec fn movetext_lines(g: GameModel) -> Seq<char> {
    let (done, line) = wrap_moves(move_texts(g));
    done + if line.len() > 0 { line + seq!['\n'] } else { seq![] }
}

pub open spec fn header_lines(hs: Seq<(Seq<char>, Seq<char>)>) -> Seq<char>
    decreases hs.len(),
{
    if hs.len() == 0 {
        seq![]
    } else {
        header_lines(hs.drop_last()) + "["@ + hs.last().0 + " \""@ + hs.last().1 + "\"]"@ + seq!['\n']
    }
}

/// The result line: the `Result` tag, or `*`.
pub open spec fn result_text(g: GameModel) -> Seq<char> {
    match crate::model::find_header(g.headers, "result"@) {
        Some(v) => v,
        None => "*"@,
    }
}

/// A game in PGN: tag pairs, a blank line, the movetext, the result, a blank line.
pub open spec fn game_pgn(g: GameModel) -> Seq<char> {
    header_lines(g.headers) + seq!['\n'] + movetext_lines(g) + result_text(g) + seq!['\n', '\n']
}

pub open spec fn games_pgn(gs: Seq<GameModel>) -> Seq<char>
    decreases gs.len(),
{
    if gs.len() == 0 {
        seq![]
    } else {
        games_pgn(gs.drop_last()) + game_pgn(gs.last())
    }
}

fn push_header_lines(out: &mut String, game: &Game)
    ensures
        final(out)@ == old(out)@ + header_lines(game@.headers),
{
    let ghost g = game@;
    let mut h: usize = 0;
    while h < game.headers.len()
        invariant
            h <= game.headers@.len(),
            g == game@,
            out@ == old(out)@ + header_lines(g.headers.take(h as int)),
        decreases game.headers@.len() - h,
    {
        let ghost before = out@;
        out.append("[");
        out.append(game.headers[h].0.as_str());
        out.append(" \"");
        out.append(game.headers[h].1.as_str());
        out.append("\"]");
        push_char(out, '\n');
        proof {
            let t = g.headers.take(h + 1);
            assert(t.drop_last() =~= g.headers.take(h as int));
            assert(t.last() == (game.headers@[h as int].0@, game.headers@[h as int].1@));
            assert(out@ =~= before + ("["@ + t.last().0 + " \""@ + t.last().1 + "\"]"@ + seq!['\n']));
        }
        h = h + 1;
    }
    assert(g.headers.take(game.headers@.len() as int) =~= g.headers);
}

fn push_movetext(out: &mut String, game: &Game)
    ensures
        final(out)@ == old(out)@ + movetext_lines(game@),
{
    let ghost g = game@;
    let ghost texts = move_texts(g);
    let mut line = String::new();
    let ghost mut done: Seq<char> = seq![];
    let n = game.moves.len();
    let mut i: usize = 0;
    while i < n
        invariant
            n == g.moves.len(),
            g == game@,
            texts == move_texts(g),
            i <= n,
            (done, line@) == wrap_moves(texts.take(i as int)),
            out@ == old(out)@ + done,
        decreases n - i,
    {
        let s = move_text_exec(game, i);
        proof {
            let t = texts.take(i + 1);
            assert(t.drop_last() =~= texts.take(i as int));
            assert(t.last() == s@);
        }
        if line.as_str().is_empty() {
            line = s;
        } else {
            let a = line.as_str().len();
            let b = s.as_str().len();
            if a > 79 || b > 79 - a {
                out.append(line.as_str());
                push_char(out, '\n');
                proof {
                    done = done + line@ + seq!['\n'];
                }
                line = s;
            } else {
                push_char(&mut line, ' ');
                line.append(s.as_str());
            }
        }
        i = i + 1;
    }
    assert(texts.take(n as int) =~= texts);
    if !line.as_str().is_empty() {
        out.append(line.as_str());
        push_char(out, '\n');
    }
    assert(out@ =~= old(out)@ + movetext_lines(g));
}

fn push_game(out: &mut String, game: &Game)
    ensures
        final(out)@ == old(out)@ + game_pgn(game@),
{
    push_header_lines(out, game);
    push_char(out, '\n');
    push_movetext(out, game);
    let outcome: &str = match game.get_header("result") {
        Some(v) => v,
        None => "*",
    };
    out.append(outcome);
    push_char(out, '\n');
    push_char(out, '\n');
    assert(out@ =~= old(out)@ + game_pgn(game@));
}

/// Writing a move reads its engine's best move, and its line when the position is
/// decisive, as UCI; that slicing must fall between characters.
pub open spec fn move_sliceable(m: AnalyzedMoveModel) -> bool {
    match m.engine_metadata {
        Some(meta) => match fen_legal_moves(m.fen_before) {
            Some(_) => uci_sliceable(meta.best_move) && (decisive(m.evaluation) && meta.principal_variation.len() > 0 ==> pv_sliceable(m.fen_before, meta.principal_variation)),
            None => true,
        },
        None => true,
    }
}

pub open spec fn export_sliceable(gs: Seq<GameModel>) -> bool {
    forall|k: int, i: int| 0 <= k < gs.len() && 0 <= i < gs[k].moves.len() ==> move_sliceable(#[trigger] gs[k].moves[i])
}

/// Whether the games can be written: every UCI text read on the way is sliced
/// between characters.
pub fn export_is_sliceable(games: &Vec<Game>) -> (r: bool)
    ensures
        r == export_sliceable(games@.map_values(|g: Game| g@)),
{
    let ghost gv = games@.map_values(|g: Game| g@);
    let mut k: usize = 0;
    while k < games.len()
        invariant
            k <= games@.len(),
            gv == games@.map_values(|g: Game| g@),
            forall|a: int, i: int| 0 <= a < k && 0 <= i < gv[a].moves.len() ==> move_sliceable(#[trigger] gv[a].moves[i]),
        decreases games@.len() - k,
    {
        let game = &games[k];
        assert(gv[k as int] == game@);
        let mut i: usize = 0;
        while i < game.moves.len()
            invariant
                k < games@.len(),
                i <= game.moves@.len(),
                gv == games@.map_values(|g: Game| g@),
                gv[k as int] == game@,
                forall|j: int| 0 <= j < i ==> move_sliceable(#[trigger] gv[k as int].moves[j]),
            decreases game.moves@.len() - i,
        {
            let m = &game.moves[i];
            assert(gv[k as int].moves[i as int] == m@);
            match &m.engine_metadata {
                Some(meta) => {
                    let readable = match legal_moves_of(m.fen_before.as_str()) {
                        Some(_) => true,
                        None => false,
                    };
                    if readable {
                        if !uci_text_sliceable(meta.best_move.as_str()) {
                            return false;
                        }
                        let decisive = match m.evaluation {
                            Some(Evaluation::Mate(_)) => true,
                            Some(Evaluation::Centipawns(cp)) => {
                                let c: i64 = cp as i64;
                                c >= 300 || c <= -300
                            },
                            None => false,
                        };
                        if decisive && meta.principal_variation.len() > 0 {
                            if !pv_sliceable_exec(m.fen_before.as_str(), &meta.principal_variation) {
                                return false;
                            }
                        }
                    }
                },
                None => {},
            }
            i = i + 1;
        }
        k = k + 1;
    }
    true
}

/// The games as annotated PGN, one after the other.
pub fn export_to_pgn(games: &Vec<Game>) -> (r: String)
    requires
        export_sliceable(games@.map_values(|g: Game| g@)),
    ensures
        r@ == games_pgn(games@.map_values(|g: Game| g@)),
{
    let ghost gv = games@.map_values(|g: Game| g@);
    let mut pgn = String::new();
    let mut k: usize = 0;
    while k < games.len()
        invariant
            k <= games@.len(),
            gv == games@.map_values(|g: Game| g@),
            pgn@ == games_pgn(gv.take(k as int)),
        decreases games@.len() - k,
    {
        push_game(&mut pgn, &games[k]);
        proof {
            let t = gv.take(k + 1);
            assert(t.drop_last() =~= gv.take(k as int));
            assert(t.last() == games@[k as int]@);
        }
        k = k + 1;
    }
    assert(gv.take(games@.len() as int) =~= gv);
    pgn
}

} // verus!
