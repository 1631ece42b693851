//! The analysis model: games, moves, evaluations, classifications and findings.

use vstd::prelude::*;
use crate::text::{chars_of, parse_i32, parse_i32_spec, decimal, digit_char, digit_to_char, eq_ignore_ascii_case, push_char, push_decimal, str_eq_ignore_ascii_case};

verus! {

broadcast use vstd::string::group_string_axioms;

/// An engine evaluation, always from White's point of view.
#[derive(Clone, Copy, Debug, PartialEq, Eq, Structural)]
pub enum Evaluation {
    /// Hundredths of a pawn; positive favours White.
    Centipawns(i32),
    /// Mate in N; positive when White mates, negative when Black mates.
    Mate(i32),
}

/// The score of an evaluation in hundredths of a pawn, White's point of view.
/// A mate for White in `m` scores `1000 - m` pawns, a mate for Black in `|m|`
/// scores `-1000 - |m|` pawns.
pub open spec fn eval_value(e: Evaluation) -> int {
    match e {
        Evaluation::Centipawns(cp) => cp as int,
        Evaluation::Mate(m) => if m >= 0 {
            100000 - 100 * m
        } else {
            -100000 + 100 * m
        },
    }
}

/// The text of an evaluation: `+0.82`, `-1.05`, `#+3`, `#-2`.
pub open spec fn eval_text(e: Evaluation) -> Seq<char> {
    match e {
        Evaluation::Centipawns(cp) => {
            let a: nat = if cp < 0 { (-cp) as nat } else { cp as nat };
            let sign = if cp < 0 { '-' } else { '+' };
            seq![sign] + decimal(a / 100) + seq!['.', digit_char(((a % 100) / 10) as int), digit_char((a % 10) as int)]
        },
        Evaluation::Mate(m) => if m > 0 {
            seq!['#', '+'] + decimal(m as nat)
        } else {
            seq!['#', '-'] + decimal((-m) as nat)
        },
    }
}

impl Evaluation {
    /// The score in hundredths of a pawn from White's point of view (see [`eval_value`]).
    pub fn absolute_value(&self) -> (r: i64)
        ensures
            r == eval_value(*self),
    {
        match self {
            Evaluation::Centipawns(cp) => *cp as i64,
            Evaluation::Mate(m) => {
                if *m >= 0 {
                    100000 - 100 * (*m as i64)
                } else {
                    -100000 + 100 * (*m as i64)
                }
            },
        }
    }

    /// The evaluation as it is printed in annotations.
    pub fn to_string(&self) -> (r: String)
        ensures
            r@ == eval_text(*self),
    {
        let mut s = String::new();
        match self {
            Evaluation::Centipawns(cp) => {
                let c: i64 = *cp as i64;
                let a: u64 = if c < 0 { (-c) as u64 } else { c as u64 };
                push_char(&mut s, if c < 0 { '-' } else { '+' });
                push_decimal(&mut s, a / 100);
                push_char(&mut s, '.');
                push_char(&mut s, digit_to_char((a % 100) / 10));
                push_char(&mut s, digit_to_char(a % 10));
            },
            Evaluation::Mate(m) => {
                let c: i64 = *m as i64;
                push_char(&mut s, '#');
                if c > 0 {
                    push_char(&mut s, '+');
                    push_decimal(&mut s, c as u64);
                } else {
                    push_char(&mut s, '-');
                    push_decimal(&mut s, (-c) as u64);
                }
            },
        }
        s
    }
}

/// How good a played move was.
#[derive(Clone, Copy, Debug, PartialEq, Eq, Structural)]
pub enum MoveClassification {
    BestMove,
    Excellent,
    Good,
    Inaccuracy,
    Mistake,
    Blunder,
    Brilliant,
    Miss,
}

/// The display name of a classification.
pub open spec fn classification_text(c: MoveClassification) -> Seq<char> {
    match c {
        MoveClassification::BestMove => "Best Move"@,
        MoveClassification::Excellent => "Excellent"@,
        MoveClassification::Good => "Good"@,
        MoveClassification::Inaccuracy => "Inaccuracy"@,
        MoveClassification::Mistake => "Mistake"@,
        MoveClassification::Blunder => "Blunder"@,
        MoveClassification::Brilliant => "Brilliant"@,
        MoveClassification::Miss => "Miss"@,
    }
}

/// The variant name of a classification, as annotations record it.
pub open spec fn classification_tag(c: MoveClassification) -> Seq<char> {
    match c {
        MoveClassification::BestMove => "BestMove"@,
        MoveClassification::Excellent => "Excellent"@,
        MoveClassification::Good => "Good"@,
        MoveClassification::Inaccuracy => "Inaccuracy"@,
        MoveClassification::Mistake => "Mistake"@,
        MoveClassification::Blunder => "Blunder"@,
        MoveClassification::Brilliant => "Brilliant"@,
        MoveClassification::Miss => "Miss"@,
    }
}

impl MoveClassification {
    /// The display name, e.g. `Best Move`.
    pub fn to_string(&self) -> (r: String)
        ensures
            r@ == classification_text(*self),
    {
        match self {
            MoveClassification::BestMove => String::from_str("Best Move"),
            MoveClassification::Excellent => String::from_str("Excellent"),
            MoveClassification::Good => String::from_str("Good"),
            MoveClassification::Inaccuracy => String::from_str("Inaccuracy"),
            MoveClassification::Mistake => String::from_str("Mistake"),
            MoveClassification::Blunder => String::from_str("Blunder"),
            MoveClassification::Brilliant => String::from_str("Brilliant"),
            MoveClassification::Miss => String::from_str("Miss"),
        }
    }

    /// The variant name, e.g. `BestMove`.
    pub fn tag(&self) -> (r: String)
        ensures
            r@ == classification_tag(*self),
    {
        match self {
            MoveClassification::BestMove => String::from_str("BestMove"),
            MoveClassification::Excellent => String::from_str("Excellent"),
            MoveClassification::Good => String::from_str("Good"),
            MoveClassification::Inaccuracy => String::from_str("Inaccuracy"),
            MoveClassification::Mistake => String::from_str("Mistake"),
            MoveClassification::Blunder => String::from_str("Blunder"),
            MoveClassification::Brilliant => String::from_str("Brilliant"),
            MoveClassification::Miss => String::from_str("Miss"),
        }
    }
}

/// A tactical pattern found at a move.
#[derive(Clone, Copy, Debug, PartialEq, Eq, Structural)]
pub enum TacticalFinding {
    MissedMate,
    MissedForcedMate,
    MissedFork,
    MissedSkewer,
    MissedPin,
    MissedDiscoveredAttack,
    HangingPiece,
    FreePieceNotCaptured,
    PassedPawnOpportunity,
    PromotionOpportunity,
    OnlyWinningMove,
}

/// The display name of a finding.
pub open spec fn finding_text(f: TacticalFinding) -> Seq<char> {
    match f {
        TacticalFinding::MissedMate => "Missed Mate"@,
        TacticalFinding::MissedForcedMate => "Missed Forced Mate"@,
        TacticalFinding::MissedFork => "Missed Fork"@,
        TacticalFinding::MissedSkewer => "Missed Skewer"@,
        TacticalFinding::MissedPin => "Missed Pin"@,
        TacticalFinding::MissedDiscoveredAttack => "Missed Discovered Attack"@,
        TacticalFinding::HangingPiece => "Hanging Piece"@,
        TacticalFinding::FreePieceNotCaptured => "Free Piece Not Captured"@,
        TacticalFinding::PassedPawnOpportunity => "Passed Pawn Opportunity"@,
        TacticalFinding::PromotionOpportunity => "Promotion Opportunity"@,
        TacticalFinding::OnlyWinningMove => "Only Winning Move"@,
    }
}

/// The variant name of a finding, as annotations record it.
pub open spec fn finding_tag(f: TacticalFinding) -> Seq<char> {
    match f {
        TacticalFinding::MissedMate => "MissedMate"@,
        TacticalFinding::MissedForcedMate => "MissedForcedMate"@,
        TacticalFinding::MissedFork => "MissedFork"@,
        TacticalFinding::MissedSkewer => "MissedSkewer"@,
        TacticalFinding::MissedPin => "MissedPin"@,
        TacticalFinding::MissedDiscoveredAttack => "MissedDiscoveredAttack"@,
        TacticalFinding::HangingPiece => "HangingPiece"@,
        TacticalFinding::FreePieceNotCaptured => "FreePieceNotCaptured"@,
        TacticalFinding::PassedPawnOpportunity => "PassedPawnOpportunity"@,
        TacticalFinding::PromotionOpportunity => "PromotionOpportunity"@,
        TacticalFinding::OnlyWinningMove => "OnlyWinningMove"@,
    }
}

impl TacticalFinding {
    /// The display name, e.g. `Missed Mate`.
    pub fn to_string(&self) -> (r: String)
        ensures
            r@ == finding_text(*self),
    {
        match self {
            TacticalFinding::MissedMate => String::from_str("Missed Mate"),
            TacticalFinding::MissedForcedMate => String::from_str("Missed Forced Mate"),
            TacticalFinding::MissedFork => String::from_str("Missed Fork"),
            TacticalFinding::MissedSkewer => String::from_str("Missed Skewer"),
            TacticalFinding::MissedPin => String::from_str("Missed Pin"),
            TacticalFinding::MissedDiscoveredAttack => String::from_str("Missed Discovered Attack"),
            TacticalFinding::HangingPiece => String::from_str("Hanging Piece"),
            TacticalFinding::FreePieceNotCaptured => String::from_str("Free Piece Not Captured"),
            TacticalFinding::PassedPawnOpportunity => String::from_str("Passed Pawn Opportunity"),
            TacticalFinding::PromotionOpportunity => String::from_str("Promotion Opportunity"),
            TacticalFinding::OnlyWinningMove => String::from_str("Only Winning Move"),
        }
    }

    /// The variant name, e.g. `MissedMate`.
    pub fn tag(&self) -> (r: String)
        ensures
            r@ == finding_tag(*self),
    {
        match self {
            TacticalFinding::MissedMate => String::from_str("MissedMate"),
            TacticalFinding::MissedForcedMate => String::from_str("MissedForcedMate"),
            TacticalFinding::MissedFork => String::from_str("MissedFork"),
            TacticalFinding::MissedSkewer => String::from_str("MissedSkewer"),
            TacticalFinding::MissedPin => String::from_str("MissedPin"),
            TacticalFinding::MissedDiscoveredAttack => String::from_str("MissedDiscoveredAttack"),
            TacticalFinding::HangingPiece => String::from_str("HangingPiece"),
            TacticalFinding::FreePieceNotCaptured => String::from_str("FreePieceNotCaptured"),
            TacticalFinding::PassedPawnOpportunity => String::from_str("PassedPawnOpportunity"),
            TacticalFinding::PromotionOpportunity => String::from_str("PromotionOpportunity"),
            TacticalFinding::OnlyWinningMove => String::from_str("OnlyWinningMove"),
        }
    }
}

/// What the engine reported for a position.
#[derive(Debug, Clone)]
pub struct EngineMetadata {
    /// UCI notation, e.g. `e2e4`.
    pub best_move: String,
    /// The principal variation, as the engine gave it.
    pub principal_variation: Vec<String>,
    pub depth: u32,
    pub nodes: Option<u64>,
}

/// The mathematical content of [`EngineMetadata`].
pub struct EngineMetadataModel {
    pub best_move: Seq<char>,
    pub principal_variation: Seq<Seq<char>>,
    pub depth: u32,
    pub nodes: Option<u64>,
}

pub open spec fn strings_view(v: Seq<String>) -> Seq<Seq<char>> {
    v.map_values(|s: String| s@)
}

impl View for EngineMetadata {
    type V = EngineMetadataModel;

    open spec fn view(&self) -> EngineMetadataModel {
        EngineMetadataModel {
            best_move: self.best_move@,
            principal_variation: strings_view(self.principal_variation@),
            depth: self.depth,
            nodes: self.nodes,
        }
    }
}

/// A copy of a list of strings.
pub fn copy_strings(v: &Vec<String>) -> (r: Vec<String>)
    ensures
        r@ == v@,
{
    let mut r: Vec<String> = Vec::new();
    let mut i: usize = 0;
    while i < v.len()
        invariant
            i <= v@.len(),
            r@ =~= v@.take(i as int),
        decreases v@.len() - i,
    {
        r.push(v[i].clone());
        i = i + 1;
    }
    r
}

impl EngineMetadata {
    pub fn duplicate(&self) -> (r: Self)
        ensures
            r@ == self@,
            r.best_move == self.best_move,
            r.principal_variation@ == self.principal_variation@,
    {
        EngineMetadata {
            best_move: self.best_move.clone(),
            principal_variation: copy_strings(&self.principal_variation),
            depth: self.depth,
            nodes: self.nodes,
        }
    }
}

pub open spec fn opt_meta_view(m: Option<EngineMetadata>) -> Option<EngineMetadataModel> {
    match m {
        Some(x) => Some(x@),
        None => None,
    }
}

pub open spec fn opt_string_view(s: Option<String>) -> Option<Seq<char>> {
    match s {
        Some(x) => Some(x@),
        None => None,
    }
}

/// One played move with everything the analysis attached to it.
#[derive(Debug, Clone)]
pub struct AnalyzedMove {
    pub move_number: u32,
    /// Zero-based half-move index.
    pub ply: u32,
    pub is_white: bool,
    /// e.g. `Nf3`.
    pub san: String,
    /// e.g. `g1f3`.
    pub uci: String,
    pub fen_before: String,
    pub fen_after: String,
    pub evaluation: Option<Evaluation>,
    pub classification: Option<MoveClassification>,
    pub tactical_findings: Vec<TacticalFinding>,
    pub engine_metadata: Option<EngineMetadata>,
    pub comment: Option<String>,
}

/// The mathematical content of [`AnalyzedMove`].
pub struct AnalyzedMoveModel {
    pub move_number: u32,
    pub ply: u32,
    pub is_white: bool,
    pub san: Seq<char>,
    pub uci: Seq<char>,
    pub fen_before: Seq<char>,
    pub fen_after: Seq<char>,
    pub evaluation: Option<Evaluation>,
    pub classification: Option<MoveClassification>,
    pub tactical_findings: Seq<TacticalFinding>,
    pub engine_metadata: Option<EngineMetadataModel>,
    pub comment: Option<Seq<char>>,
}

impl View for AnalyzedMove {
    type V = AnalyzedMoveModel;

    open spec fn view(&self) -> AnalyzedMoveModel {
        AnalyzedMoveModel {
            move_number: self.move_number,
            ply: self.ply,
            is_white: self.is_white,
            san: self.san@,
            uci: self.uci@,
            fen_before: self.fen_before@,
            fen_after: self.fen_after@,
            evaluation: self.evaluation,
            classification: self.classification,
            tactical_findings: self.tactical_findings@,
            engine_metadata: opt_meta_view(self.engine_metadata),
            comment: opt_string_view(self.comment),
        }
    }
}

/// A copy of a list of findings.
pub fn copy_findings(v: &Vec<TacticalFinding>) -> (r: Vec<TacticalFinding>)
    ensures
        r@ == v@,
{
    let mut r: Vec<TacticalFinding> = Vec::new();
    let mut i: usize = 0;
    while i < v.len()
        invariant
            i <= v@.len(),
            r@ =~= v@.take(i as int),
        decreases v@.len() - i,
    {
        r.push(v[i]);
        i = i + 1;
    }
    r
}

impl AnalyzedMove {
    pub fn duplicate(&self) -> (r: Self)
        ensures
            r@ == self@,
    {
        AnalyzedMove {
            move_number: self.move_number,
            ply: self.ply,
            is_white: self.is_white,
            san: self.san.clone(),
            uci: self.uci.clone(),
            fen_before: self.fen_before.clone(),
            fen_after: self.fen_after.clone(),
            evaluation: self.evaluation,
            classification: self.classification,
            tactical_findings: copy_findings(&self.tactical_findings),
            engine_metadata: match &self.engine_metadata {
                Some(m) => Some(m.duplicate()),
                None => None,
            },
            comment: match &self.comment {
                Some(c) => Some(c.clone()),
                None => None,
            },
        }
    }
}

/// A game: its PGN tag pairs, its moves and the evaluation after the last move.
#[derive(Debug, Clone)]
pub struct Game {
    pub headers: Vec<(String, String)>,
    pub moves: Vec<AnalyzedMove>,
    pub final_evaluation: Option<Evaluation>,
}

pub struct GameModel {
    pub headers: Seq<(Seq<char>, Seq<char>)>,
    pub moves: Seq<AnalyzedMoveModel>,
    pub final_evaluation: Option<Evaluation>,
}

pub open spec fn headers_view(h: Seq<(String, String)>) -> Seq<(Seq<char>, Seq<char>)> {
    h.map_values(|p: (String, String)| (p.0@, p.1@))
}

pub open spec fn moves_view(m: Seq<AnalyzedMove>) -> Seq<AnalyzedMoveModel> {
    m.map_values(|x: AnalyzedMove| x@)
}

impl View for Game {
    type V = GameModel;

    open spec fn view(&self) -> GameModel {
        GameModel {
            headers: headers_view(self.headers@),
            moves: moves_view(self.moves@),
            final_evaluation: self.final_evaluation,
        }
    }
}

/// The value of the first tag whose name equals `key` up to ASCII case.
pub open spec fn find_header(hs: Seq<(Seq<char>, Seq<char>)>, key: Seq<char>) -> Option<Seq<char>>
    decreases hs.len(),
{
    if hs.len() == 0 {
        None
    } else if eq_ignore_ascii_case(hs[0].0, key) {
        Some(hs[0].1)
    } else {
        find_header(hs.drop_first(), key)
    }
}

/// The evaluation after move `i`: that of the next position, or the game's final one.
pub open spec fn eval_after(g: GameModel, i: int) -> Option<Evaluation> {
    if i + 1 < g.moves.len() {
        g.moves[i + 1].evaluation
    } else {
        g.final_evaluation
    }
}

/// A copy of a list of tag pairs.
pub fn copy_headers(v: &Vec<(String, String)>) -> (r: Vec<(String, String)>)
    ensures
        headers_view(r@) == headers_view(v@),
{
    let mut r: Vec<(String, String)> = Vec::new();
    let mut i: usize = 0;
    while i < v.len()
        invariant
            i <= v@.len(),
            r@.len() == i,
            forall|j: int| 0 <= j < i ==> (#[trigger] r@[j]).0@ == v@[j].0@ && r@[j].1@ == v@[j].1@,
        decreases v@.len() - i,
    {
        r.push((v[i].0.clone(), v[i].1.clone()));
        i = i + 1;
    }
    assert(headers_view(r@) =~= headers_view(v@));
    r
}

/// The value of the first tag pair whose name equals `key` up to ASCII case.
pub fn header_value<'a>(headers: &'a Vec<(String, String)>, key: &str) -> (r: Option<&'a str>)
    ensures
        r is Some <==> find_header(headers_view(headers@), key@) is Some,
        r matches Some(v) ==> Some(v@) == find_header(headers_view(headers@), key@),
{
    let ghost hs = headers_view(headers@);
    let mut i: usize = 0;
    assert(hs.skip(0) =~= hs);
    while i < headers.len()
        invariant
            i <= headers@.len(),
            hs == headers_view(headers@),
            find_header(hs, key@) == find_header(hs.skip(i as int), key@),
        decreases headers@.len() - i,
    {
        assert(hs.skip(i as int)[0] == hs[i as int]);
        if str_eq_ignore_ascii_case(headers[i].0.as_str(), key) {
            return Some(headers[i].1.as_str());
        }
        assert(hs.skip(i as int).drop_first() =~= hs.skip(i + 1));
        i = i + 1;
    }
    None
}

impl Game {
    /// The value of the first tag named `key`, compared without regard to ASCII case.
    pub fn get_header(&self, key: &str) -> (r: Option<&str>)
        ensures
            r is Some <==> find_header(headers_view(self.headers@), key@) is Some,
            r matches Some(v) ==> Some(v@) == find_header(headers_view(self.headers@), key@),
    {
        header_value(&self.headers, key)
    }

    pub fn duplicate(&self) -> (r: Self)
        ensures
            r@ == self@,
    {
        let mut moves: Vec<AnalyzedMove> = Vec::new();
        let mut i: usize = 0;
        while i < self.moves.len()
            invariant
                i <= self.moves@.len(),
                moves@.len() == i,
                forall|j: int| 0 <= j < i ==> (#[trigger] moves@[j])@ == self.moves@[j]@,
            decreases self.moves@.len() - i,
        {
            moves.push(self.moves[i].duplicate());
            i = i + 1;
        }
        let r = Game {
            headers: copy_headers(&self.headers),
            moves,
            final_evaluation: self.final_evaluation,
        };
        assert(moves_view(r.moves@) =~= moves_view(self.moves@));
        r
    }
}


/// The game's date tag: `Date`, or else `date`.
pub open spec fn game_date(g: GameModel) -> Option<Seq<char>> {
    match find_header(g.headers, "Date"@) {
        Some(d) => Some(d),
        None => find_header(g.headers, "date"@),
    }
}

/// The year a date text starts with: its first four bytes read as an `i32`,
/// when it has that many.
pub open spec fn year_of(date: Seq<char>) -> Option<i32> {
    let b = vstd::utf8::encode_utf8(date);
    if (b.len() as usize) >= 4 {
        parse_i32_spec(vstd::utf8::decode_utf8(b.subrange(0, 4)))
    } else {
        None
    }
}

/// The year of a game's date tag.
pub open spec fn game_year(g: GameModel) -> Option<i32> {
    match game_date(g) {
        Some(d) => year_of(d),
        None => None,
    }
}

/// Cutting the game's date after its fourth byte falls between characters.
pub open spec fn year_sliceable(g: GameModel) -> bool {
    match game_date(g) {
        Some(d) => {
            let b = vstd::utf8::encode_utf8(d);
            (b.len() as usize) >= 4 ==> vstd::utf8::is_char_boundary(b, 4)
        },
        None => true,
    }
}

/// Whether the game's date can be cut after its fourth byte (see [`year_sliceable`]).
pub fn year_is_sliceable(game: &Game) -> (r: bool)
    ensures
        r == year_sliceable(game@),
{
    let date_str = match game.get_header("Date") {
        Some(d) => d,
        None => match game.get_header("date") {
            Some(d) => d,
            None => return true,
        },
    };
    date_str.len() < 4 || date_str.is_char_boundary(4)
}

/// The year of the game, read from the first four bytes of its date tag.
pub fn get_game_year(game: &Game) -> (r: Option<i32>)
    requires
        year_sliceable(game@),
    ensures
        r == game_year(game@),
{
    let date_str = match game.get_header("Date") {
        Some(d) => d,
        None => match game.get_header("date") {
            Some(d) => d,
            None => return None,
        },
    };
    if date_str.len() >= 4 {
        let (head, _rest) = date_str.split_at(4);
        proof {
            vstd::utf8::encode_utf8_decode_utf8(head@);
        }
        let c = chars_of(head);
        parse_i32(c.as_slice())
    } else {
        None
    }
}

} // verus!
