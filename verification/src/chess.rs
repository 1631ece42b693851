//! The chess rules this crate relies on, from the `shakmaty` crate. Positions
//! travel as FEN/EPD text; each function here reads such a text with shakmaty
//! (`Fen` parsing, then `into_position::<Chess>` with standard castling) and
//! reports what shakmaty computes on it.

use vstd::prelude::*;
use shakmaty::{Chess, Position, CastlingMode, EnPassantMode};
use shakmaty::fen::{Epd, Fen};
use shakmaty::san::San;
use shakmaty::uci::UciMove;
use shakmaty::zobrist::{Zobrist64, ZobristHash};

verus! {

/// A side.
#[derive(Clone, Copy, Debug, PartialEq, Eq, Structural)]
pub enum Color {
    White,
    Black,
}

impl Color {
    pub open spec fn spec_other(self) -> Color {
        match self {
            Color::White => Color::Black,
            Color::Black => Color::White,
        }
    }

    #[verifier::when_used_as_spec(spec_other)]
    pub fn other(self) -> (r: Color)
        ensures
            r == self.spec_other(),
    {
        match self {
            Color::White => Color::Black,
            Color::Black => Color::White,
        }
    }
}

/// A kind of piece.
#[derive(Clone, Copy, Debug, PartialEq, Eq, Structural)]
pub enum Role {
    Pawn,
    Knight,
    Bishop,
    Rook,
    Queen,
    King,
}

/// A legal move of a position: its squares (0 = a1, 1 = b1, ..., 63 = h8) as
/// standard UCI writes them (a castle goes to the king's destination, as in
/// `e1g1`), the piece it promotes to (2 knight, 3 bishop, 4 rook, 5 queen, as shakmaty numbers
/// them), and its SAN without check suffix.
#[derive(Debug)]
pub struct LegalMove {
    pub from: Option<u8>,
    pub to: u8,
    pub promotion: Option<u8>,
    pub san: String,
}

pub struct LegalMoveModel {
    pub from: Option<u8>,
    pub to: u8,
    pub promotion: Option<u8>,
    pub san: Seq<char>,
}

impl View for LegalMove {
    type V = LegalMoveModel;

    open spec fn view(&self) -> LegalMoveModel {
        LegalMoveModel { from: self.from, to: self.to, promotion: self.promotion, san: self.san@ }
    }
}

/// Whether shakmaty reads `fen` as a standard chess position (`None` when it does
/// not), and if so whether the side to move is checkmated.
pub uninterp spec fn fen_checkmate(fen: Seq<char>) -> Option<bool>;

/// The EPD (board, side, castling, legal en-passant square) that shakmaty writes
/// for the position it reads from `fen`, if it reads one.
pub uninterp spec fn fen_position_epd(fen: Seq<char>) -> Option<Seq<char>>;

/// For the position read from `fen` and the move `san` in SAN (a check or mate
/// suffix allowed): the move in UCI and the EPD after it, when shakmaty reads
/// the position and finds exactly one legal move matching `san`.
pub uninterp spec fn san_step(fen: Seq<char>, san: Seq<char>) -> Option<(Seq<char>, Seq<char>)>;

/// The 64-bit Zobrist hash shakmaty gives the position read from `fen`.
pub uninterp spec fn fen_zobrist(fen: Seq<char>) -> Option<u64>;

/// The legal moves shakmaty generates for the position read from `fen`, in its
/// order, each with the squares of its standard UCI form.
pub uninterp spec fn fen_legal_moves(fen: Seq<char>) -> Option<Seq<LegalMoveModel>>;

/// The EPD after playing legal move number `index` (in [`fen_legal_moves`] order).
pub uninterp spec fn fen_after_legal_move(fen: Seq<char>, index: int) -> Option<Seq<char>>;

/// shakmaty: `Position::is_checkmate` of the position read from `fen`.
#[verifier::external_body]
pub(crate) fn checkmate_status(fen: &str) -> (r: Option<bool>)
    ensures
        r == fen_checkmate(fen@),
{
    match fen.parse::<Fen>() {
        Ok(f) => match f.into_position::<Chess>(CastlingMode::Standard) {
            Ok(pos) => Some(pos.is_checkmate()),
            Err(_) => None,
        },
        Err(_) => None,
    }
}

/// shakmaty: the EPD (`Epd::from_position`, legal en-passant squares only) of the
/// position read from `fen`.
#[verifier::external_body]
pub(crate) fn position_epd(fen: &str) -> (r: Option<String>)
    ensures
        r is Some <==> fen_position_epd(fen@) is Some,
        r matches Some(s) ==> fen_position_epd(fen@) == Some(s@),
{
    let pos: Chess = fen.parse::<Fen>().ok()?.into_position(CastlingMode::Standard).ok()?;
    Some(Epd::from_position(&pos, EnPassantMode::Legal).to_string())
}

/// shakmaty: the EPD of `Chess::default()`, the standard starting position.
#[verifier::external_body]
pub(crate) fn start_position_epd() -> (r: String)
    ensures
        r@ == "rnbqkbnr/pppppppp/8/8/8/8/PPPPPPPP/RNBQKBNR w KQkq -"@,
{
    Epd::from_position(&Chess::default(), EnPassantMode::Legal).to_string()
}

/// shakmaty: `San::from_str`, `San::to_move`, `Move::to_uci` and `Position::play`
/// on the position read from `fen`.
#[verifier::external_body]
pub(crate) fn play_san(fen: &str, san: &str) -> (r: Option<(String, String)>)
    ensures
        r is Some <==> san_step(fen@, san@) is Some,
        r matches Some(p) ==> san_step(fen@, san@) == Some((p.0@, p.1@)),
{
    let pos: Chess = fen.parse::<Fen>().ok()?.into_position(CastlingMode::Standard).ok()?;
    let mv = san.parse::<San>().ok()?.to_move(&pos).ok()?;
    let uci = mv.to_uci(CastlingMode::Standard).to_string();
    let after = pos.play(mv).ok()?;
    Some((uci, Epd::from_position(&after, EnPassantMode::Legal).to_string()))
}

/// shakmaty: `Position::zobrist_hash::<Zobrist64>` (legal en-passant squares only).
#[verifier::external_body]
pub(crate) fn zobrist_of(fen: &str) -> (r: Option<u64>)
    ensures
        r == fen_zobrist(fen@),
{
    let pos: Chess = fen.parse::<Fen>().ok()?.into_position(CastlingMode::Standard).ok()?;
    let h: Zobrist64 = pos.zobrist_hash(EnPassantMode::Legal);
    Some(h.0)
}

/// shakmaty: `Position::legal_moves`, each with `San::from_move`; its squares and
/// promotion as `Move::to_uci` with standard castling writes them.
#[verifier::external_body]
pub(crate) fn legal_moves_of(fen: &str) -> (r: Option<Vec<LegalMove>>)
    ensures
        r is Some <==> fen_legal_moves(fen@) is Some,
        r matches Some(v) ==> fen_legal_moves(fen@) == Some(v@.map_values(|m: LegalMove| m@)),
{
    let pos: Chess = fen.parse::<Fen>().ok()?.into_position(CastlingMode::Standard).ok()?;
    Some(pos.legal_moves().into_iter().map(|m| LegalMove {
        from: m.from().map(|s| s as u8),
        to: match m.to_uci(CastlingMode::Standard) {
            UciMove::Normal { to, .. } | UciMove::Put { to, .. } => to as u8,
            UciMove::Null => m.to() as u8,
        },
        promotion: m.promotion().map(|r| r as u8),
        san: San::from_move(&pos, m).to_string(),
    }).collect())
}

/// shakmaty: `Position::play` of legal move `index`, then its EPD.
#[verifier::external_body]
pub(crate) fn play_legal_move(fen: &str, index: usize) -> (r: Option<String>)
    ensures
        r is Some <==> fen_after_legal_move(fen@, index as int) is Some,
        r matches Some(s) ==> fen_after_legal_move(fen@, index as int) == Some(s@),
{
    let pos: Chess = fen.parse::<Fen>().ok()?.into_position(CastlingMode::Standard).ok()?;
    let mv = pos.legal_moves().get(index)?.clone();
    let after = pos.play(mv).ok()?;
    Some(Epd::from_position(&after, EnPassantMode::Legal).to_string())
}

} // verus!
