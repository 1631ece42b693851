//! Static features of a board: attacked squares, hanging and pinned pieces,
//! passed pawns. A board is held as bitboards (bit `i` stands for square `i`,
//! 0 = a1, 1 = b1, ..., 63 = h8); the attack tables are shakmaty's.

use vstd::prelude::*;
use crate::chess::{Color, Role};

verus! {

/// A board as shakmaty holds it: one bitboard per side and one per kind of piece.
#[derive(Clone, Copy, Debug)]
pub struct Board {
    pub white: u64,
    pub black: u64,
    pub pawns: u64,
    pub knights: u64,
    pub bishops: u64,
    pub rooks: u64,
    pub queens: u64,
    pub kings: u64,
}

/// Whether bitboard `x` holds square `sq`.
pub open spec fn contains(x: u64, sq: u64) -> bool {
    (x >> sq) & 1u64 == 1u64
}

pub open spec fn is_white(c: Color) -> bool {
    c == Color::White
}

impl Board {
    pub open spec fn by_color(self, c: Color) -> u64 {
        match c {
            Color::White => self.white,
            Color::Black => self.black,
        }
    }

    pub open spec fn occupied(self) -> u64 {
        self.white | self.black
    }

    /// The piece on `sq`, read as shakmaty reads it: the side is the first of
    /// white, black whose bitboard holds the square; the kind is the first of
    /// pawn, knight, bishop, rook, queen that holds it, else king.
    pub open spec fn piece_on(self, sq: u64) -> Option<(Color, Role)> {
        let color = if contains(self.white, sq) {
            Some(Color::White)
        } else if contains(self.black, sq) {
            Some(Color::Black)
        } else {
            None
        };
        match color {
            None => None,
            Some(c) => {
                let role = if contains(self.pawns, sq) {
                    Role::Pawn
                } else if contains(self.knights, sq) {
                    Role::Knight
                } else if contains(self.bishops, sq) {
                    Role::Bishop
                } else if contains(self.rooks, sq) {
                    Role::Rook
                } else if contains(self.queens, sq) {
                    Role::Queen
                } else {
                    Role::King
                };
                Some((c, role))
            },
        }
    }

    /// The board with square `sq` emptied.
    pub open spec fn without(self, sq: u64) -> Board {
        let keep = !(1u64 << sq);
        Board {
            white: self.white & keep,
            black: self.black & keep,
            pawns: self.pawns & keep,
            knights: self.knights & keep,
            bishops: self.bishops & keep,
            rooks: self.rooks & keep,
            queens: self.queens & keep,
            kings: self.kings & keep,
        }
    }
}

/// shakmaty's table of the squares a pawn of the given side attacks from `sq`.
pub uninterp spec fn pawn_attack_set(white: bool, sq: u8) -> u64;

/// shakmaty's table of the squares a knight attacks from `sq`.
pub uninterp spec fn knight_attack_set(sq: u8) -> u64;

/// shakmaty's table of the squares a king attacks from `sq`.
pub uninterp spec fn king_attack_set(sq: u8) -> u64;

/// shakmaty's diagonal sliding attacks from `sq` with the given occupancy.
pub uninterp spec fn bishop_attack_set(sq: u8, occupied: u64) -> u64;

/// shakmaty's orthogonal sliding attacks from `sq` with the given occupancy.
pub uninterp spec fn rook_attack_set(sq: u8, occupied: u64) -> u64;

/// `shakmaty::attacks::pawn_attacks`, a table lookup: claimed to return
/// `pawn_attack_set` of the same side and square.
#[verifier::external_body]
fn pawn_attacks(white: bool, sq: u8) -> (r: u64)
    requires
        sq < 64,
    ensures
        r == pawn_attack_set(white, sq),
{
    shakmaty::attacks::pawn_attacks(shakmaty::Color::from_white(white), shakmaty::Square::new(sq as u32)).0
}

/// `shakmaty::attacks::knight_attacks`, a table lookup: claimed to return
/// `knight_attack_set` of the square.
#[verifier::external_body]
fn knight_attacks(sq: u8) -> (r: u64)
    requires
        sq < 64,
    ensures
        r == knight_attack_set(sq),
{
    shakmaty::attacks::knight_attacks(shakmaty::Square::new(sq as u32)).0
}

/// `shakmaty::attacks::king_attacks`, a table lookup: claimed to return
/// `king_attack_set` of the square.
#[verifier::external_body]
fn king_attacks(sq: u8) -> (r: u64)
    requires
        sq < 64,
    ensures
        r == king_attack_set(sq),
{
    shakmaty::attacks::king_attacks(shakmaty::Square::new(sq as u32)).0
}

/// `shakmaty::attacks::bishop_attacks`, a magic-bitboard lookup: claimed to
/// return `bishop_attack_set` of the square and occupancy.
#[verifier::external_body]
fn bishop_attacks(sq: u8, occupied: u64) -> (r: u64)
    requires
        sq < 64,
    ensures
        r == bishop_attack_set(sq, occupied),
{
    shakmaty::attacks::bishop_attacks(shakmaty::Square::new(sq as u32), shakmaty::Bitboard(occupied)).0
}

/// `shakmaty::attacks::rook_attacks`, a magic-bitboard lookup: claimed to
/// return `rook_attack_set` of the square and occupancy.
#[verifier::external_body]
fn rook_attacks(sq: u8, occupied: u64) -> (r: u64)
    requires
        sq < 64,
    ensures
        r == rook_attack_set(sq, occupied),
{
    shakmaty::attacks::rook_attacks(shakmaty::Square::new(sq as u32), shakmaty::Bitboard(occupied)).0
}

/// The pieces of side `c` that attack `sq`, by kind.
pub open spec fn attacker_sets(b: Board, sq: u8, c: Color) -> (u64, u64, u64, u64, u64) {
    let occ = b.occupied();
    let mine = b.by_color(c);
    (
        pawn_attack_set(!is_white(c), sq) & b.pawns & mine,
        knight_attack_set(sq) & b.knights & mine,
        bishop_attack_set(sq, occ) & (b.bishops | b.queens) & mine,
        rook_attack_set(sq, occ) & (b.rooks | b.queens) & mine,
        king_attack_set(sq) & b.kings & mine,
    )
}

/// All pieces of side `c` that attack `sq`.
pub open spec fn attackers(b: Board, sq: u8, c: Color) -> u64 {
    let s = attacker_sets(b, sq, c);
    s.0 | s.1 | s.2 | s.3 | s.4
}

pub open spec fn attacked(b: Board, sq: u8, c: Color) -> bool {
    attackers(b, sq, c) != 0
}

proof fn lemma_or5_zero(a: u64, b: u64, c: u64, d: u64, e: u64)
    ensures
        (a | b | c | d | e) == 0 <==> (a == 0 && b == 0 && c == 0 && d == 0 && e == 0),
{
    assert((a | b | c | d | e) == 0 <==> (a == 0 && b == 0 && c == 0 && d == 0 && e == 0)) by (bit_vector);
}

/// Whether `square` is attacked by a piece of side `color`.
pub fn is_square_attacked(board: &Board, square: u8, color: Color) -> (r: bool)
    requires
        square < 64,
    ensures
        r == attacked(*board, square, color),
{
    let occupied = board.white | board.black;
    let by_color = match color {
        Color::White => board.white,
        Color::Black => board.black,
    };
    let pawn_side = match color {
        Color::White => false,
        Color::Black => true,
    };
    let pawn_attackers = pawn_attacks(pawn_side, square) & board.pawns & by_color;
    let knight_attackers = knight_attacks(square) & board.knights & by_color;
    let bishop_attackers = bishop_attacks(square, occupied) & (board.bishops | board.queens) & by_color;
    let rook_attackers = rook_attacks(square, occupied) & (board.rooks | board.queens) & by_color;
    let king_attackers = king_attacks(square) & board.kings & by_color;
    proof {
        lemma_or5_zero(pawn_attackers, knight_attackers, bishop_attackers, rook_attackers, king_attackers);
    }
    if pawn_attackers != 0 {
        return true;
    }
    if knight_attackers != 0 {
        return true;
    }
    if bishop_attackers != 0 {
        return true;
    }
    if rook_attackers != 0 {
        return true;
    }
    if king_attackers != 0 {
        return true;
    }
    false
}

/// The bitboard of all pieces of side `color` that attack `square`.
pub fn get_attackers(board: &Board, square: u8, color: Color) -> (r: u64)
    requires
        square < 64,
    ensures
        r == attackers(*board, square, color),
{
    let occupied = board.white | board.black;
    let by_color = match color {
        Color::White => board.white,
        Color::Black => board.black,
    };
    let pawn_side = match color {
        Color::White => false,
        Color::Black => true,
    };
    let pawn_attackers = pawn_attacks(pawn_side, square) & board.pawns & by_color;
    let knight_attackers = knight_attacks(square) & board.knights & by_color;
    let bishop_attackers = bishop_attacks(square, occupied) & (board.bishops | board.queens) & by_color;
    let rook_attackers = rook_attacks(square, occupied) & (board.rooks | board.queens) & by_color;
    let king_attackers = king_attacks(square) & board.kings & by_color;
    pawn_attackers | knight_attackers | bishop_attackers | rook_attackers | king_attackers
}

/// A piece on `square` is defended when a piece of its own side attacks the square.
pub fn is_defended(board: &Board, square: u8, defender_color: Color) -> (r: bool)
    requires
        square < 64,
    ensures
        r == attacked(*board, square, defender_color),
{
    is_square_attacked(board, square, defender_color)
}


impl Board {
    /// The piece on `sq`, as `piece_on` reads it.
    pub fn piece_at(&self, sq: u8) -> (r: Option<(Color, Role)>)
        requires
            sq < 64,
        ensures
            r == self.piece_on(sq as u64),
    {
        let s = sq as u64;
        let color = if (self.white >> s) & 1 == 1 {
            Color::White
        } else if (self.black >> s) & 1 == 1 {
            Color::Black
        } else {
            return None;
        };
        let role = if (self.pawns >> s) & 1 == 1 {
            Role::Pawn
        } else if (self.knights >> s) & 1 == 1 {
            Role::Knight
        } else if (self.bishops >> s) & 1 == 1 {
            Role::Bishop
        } else if (self.rooks >> s) & 1 == 1 {
            Role::Rook
        } else if (self.queens >> s) & 1 == 1 {
            Role::Queen
        } else {
            Role::King
        };
        Some((color, role))
    }
}

/// The value of a kind of piece, in centipawns.
pub open spec fn value_of(role: Role) -> i32 {
    match role {
        Role::Pawn => 100,
        Role::Knight => 300,
        Role::Bishop => 300,
        Role::Rook => 500,
        Role::Queen => 900,
        Role::King => 20000,
    }
}

/// The value of a kind of piece, in centipawns (roughly).
pub fn piece_value(role: Role) -> (r: i32)
    ensures
        r == value_of(role),
{
    match role {
        Role::Pawn => 100,
        Role::Knight => 300,
        Role::Bishop => 300,
        Role::Rook => 500,
        Role::Queen => 900,
        Role::King => 20000,
    }
}

/// Square `t` of `att` holds a piece worth less than `val`.
pub open spec fn cheaper_at(b: Board, att: u64, t: u64, val: i32) -> bool {
    &&& contains(att, t)
    &&& match b.piece_on(t) {
        Some(p) => value_of(p.1) < val,
        None => false,
    }
}

pub open spec fn cheaper_attacker(b: Board, att: u64, val: i32) -> bool {
    exists|t: u64| t < 64 && #[trigger] cheaper_at(b, att, t, val)
}

/// A piece of side `c` on `sq` hangs when the other side attacks it and either
/// nothing of its own side defends it or one of its attackers is worth less.
pub open spec fn hangs(b: Board, sq: u8, c: Color) -> bool {
    match b.piece_on(sq as u64) {
        Some(p) => {
            &&& p.0 == c
            &&& attacked(b, sq, c.other())
            &&& (!attacked(b, sq, c) || cheaper_attacker(b, attackers(b, sq, c.other()), value_of(p.1)))
        },
        None => false,
    }
}

fn has_cheaper_attacker(board: &Board, attackers: u64, val: i32) -> (r: bool)
    ensures
        r == cheaper_attacker(*board, attackers, val),
{
    let mut t: u64 = 0;
    while t < 64
        invariant
            t <= 64,
            forall|u: u64| u < t ==> !#[trigger] cheaper_at(*board, attackers, u, val),
        decreases 64 - t,
    {
        if (attackers >> t) & 1 == 1 {
            if let Some(p) = board.piece_at(t as u8) {
                if piece_value(p.1) < val {
                    assert(cheaper_at(*board, attackers, t, val));
                    return true;
                }
            }
        }
        t += 1;
    }
    false
}

/// Whether the piece of side `color` on `square` hangs: attacked by the other
/// side and either undefended or attacked by something worth less.
pub fn is_hanging_at(board: &Board, square: u8, color: Color) -> (r: bool)
    requires
        square < 64,
    ensures
        r == hangs(*board, square, color),
{
    let piece = match board.piece_at(square) {
        Some(p) => {
            if p.0 == color {
                p
            } else {
                return false;
            }
        },
        None => return false,
    };
    let opponent_color = color.other();
    let attackers = get_attackers(board, square, opponent_color);
    if attackers == 0 {
        return false;
    }
    let defended = is_defended(board, square, color);
    if !defended {
        return true;
    }
    let piece_val = piece_value(piece.1);
    has_cheaper_attacker(board, attackers, piece_val)
}

proof fn lemma_bit_set(r: u64, t: u64, u: u64)
    requires
        t < 64,
        u < 64,
    ensures
        contains(r | (1u64 << t), u) == (contains(r, u) || u == t),
{
    assert(contains(r | (1u64 << t), u) == (contains(r, u) || u == t)) by (bit_vector)
        requires
            t < 64,
            u < 64,
    ;
}

proof fn lemma_no_bits(u: u64)
    ensures
        !contains(0, u),
{
    assert(!contains(0, u)) by (bit_vector);
}

/// The bitboard of the hanging pieces of side `color`.
pub fn get_hanging_pieces(board: &Board, color: Color) -> (r: u64)
    ensures
        forall|t: u64| t < 64 ==> (#[trigger] contains(r, t) <==> (contains(board.by_color(color), t) && hangs(*board, t as u8, color))),
{
    let my_pieces = match color {
        Color::White => board.white,
        Color::Black => board.black,
    };
    let mut hanging: u64 = 0;
    proof {
        assert forall|u: u64| u < 64 implies !contains(hanging, u) by {
            lemma_no_bits(u);
        }
    }
    let mut t: u64 = 0;
    while t < 64
        invariant
            t <= 64,
            my_pieces == board.by_color(color),
            forall|u: u64| u < 64 ==> (#[trigger] contains(hanging, u) <==> (u < t && contains(my_pieces, u) && hangs(*board, u as u8, color))),
        decreases 64 - t,
    {
        if (my_pieces >> t) & 1 == 1 && is_hanging_at(board, t as u8, color) {
            let ghost old_h = hanging;
            hanging = hanging | (1u64 << t);
            assert forall|u: u64| u < 64 implies (#[trigger] contains(hanging, u) <==> (u < t + 1 && contains(my_pieces, u) && hangs(*board, u as u8, color))) by {
                lemma_bit_set(old_h, t, u);
            }
        }
        t += 1;
    }
    hanging
}


/// The square of a bitboard that holds exactly one square.
pub open spec fn single_square(x: u64) -> Option<u64> {
    if exists|i: u64| i < 64 && x == #[trigger] (1u64 << i) {
        Some(choose|i: u64| i < 64 && x == #[trigger] (1u64 << i))
    } else {
        None
    }
}

proof fn lemma_single_bit_unique(i: u64, j: u64)
    requires
        i < 64,
        j < 64,
        (1u64 << i) == (1u64 << j),
    ensures
        i == j,
{
    assert(i == j) by (bit_vector)
        requires
            i < 64,
            j < 64,
            (1u64 << i) == (1u64 << j),
    ;
}

fn single_square_of(x: u64) -> (r: Option<u8>)
    ensures
        match r {
            Some(i) => single_square(x) == Some(i as u64),
            None => single_square(x) is None,
        },
{
    let mut i: u64 = 0;
    while i < 64
        invariant
            i <= 64,
            forall|j: u64| j < i ==> x != #[trigger] (1u64 << j),
        decreases 64 - i,
    {
        if x == (1u64 << i) {
            proof {
                let k = choose|k: u64| k < 64 && x == #[trigger] (1u64 << k);
                lemma_single_bit_unique(i, k);
            }
            return Some(i as u8);
        }
        i += 1;
    }
    None
}

/// Removing the piece on `sq` lets a diagonal or orthogonal slider of the
/// other side reach the king square `k` that it did not reach before.
pub open spec fn exposes(b: Board, k: u8, sq: u64, c: Color) -> bool {
    let opp = b.by_color(c.other());
    let a = b.without(sq);
    let bishop_before = bishop_attack_set(k, b.occupied()) & (b.bishops | b.queens) & opp;
    let rook_before = rook_attack_set(k, b.occupied()) & (b.rooks | b.queens) & opp;
    let bishop_after = bishop_attack_set(k, a.occupied()) & (a.bishops | a.queens) & opp;
    let rook_after = rook_attack_set(k, a.occupied()) & (a.rooks | a.queens) & opp;
    (bishop_after & !bishop_before) != 0 || (rook_after & !rook_before) != 0
}

/// The piece on `sq` is pinned to the king of side `c`: that side has exactly
/// one king, `sq` is not its square, and removing the piece exposes the king.
pub open spec fn pinned(b: Board, sq: u8, c: Color) -> bool {
    match single_square(b.kings & b.by_color(c)) {
        None => false,
        Some(k) => sq as u64 != k && exposes(b, k as u8, sq as u64, c),
    }
}

/// Whether the piece of side `color` on `square` is pinned to its king.
pub fn is_pinned(board: &Board, square: u8, color: Color) -> (r: bool)
    requires
        square < 64,
    ensures
        r == pinned(*board, square, color),
{
    let by_color = match color {
        Color::White => board.white,
        Color::Black => board.black,
    };
    let king_sq = match single_square_of(board.kings & by_color) {
        Some(k) => k,
        None => return false,
    };
    if square == king_sq {
        return false;
    }
    let by_opponent = match color {
        Color::White => board.black,
        Color::Black => board.white,
    };
    let occupied_before = board.white | board.black;
    let bishop_before = bishop_attacks(king_sq, occupied_before) & (board.bishops | board.queens) & by_opponent;
    let rook_before = rook_attacks(king_sq, occupied_before) & (board.rooks | board.queens) & by_opponent;
    let keep = !(1u64 << (square as u64));
    let test_board = Board {
        white: board.white & keep,
        black: board.black & keep,
        pawns: board.pawns & keep,
        knights: board.knights & keep,
        bishops: board.bishops & keep,
        rooks: board.rooks & keep,
        queens: board.queens & keep,
        kings: board.kings & keep,
    };
    assert(test_board == board.without(square as u64));
    let occupied_after = test_board.white | test_board.black;
    let bishop_after = bishop_attacks(king_sq, occupied_after) & (test_board.bishops | test_board.queens) & by_opponent;
    let rook_after = rook_attacks(king_sq, occupied_after) & (test_board.rooks | test_board.queens) & by_opponent;
    (bishop_after & !bishop_before) != 0 || (rook_after & !rook_before) != 0
}

/// The bitboard of the pinned pieces of side `color`.
pub fn get_pinned_pieces(board: &Board, color: Color) -> (r: u64)
    ensures
        forall|t: u64| t < 64 ==> (#[trigger] contains(r, t) <==> (contains(board.by_color(color), t) && pinned(*board, t as u8, color))),
{
    let my_pieces = match color {
        Color::White => board.white,
        Color::Black => board.black,
    };
    let mut pins: u64 = 0;
    proof {
        assert forall|u: u64| u < 64 implies !contains(pins, u) by {
            lemma_no_bits(u);
        }
    }
    let mut t: u64 = 0;
    while t < 64
        invariant
            t <= 64,
            my_pieces == board.by_color(color),
            forall|u: u64| u < 64 ==> (#[trigger] contains(pins, u) <==> (u < t && contains(my_pieces, u) && pinned(*board, u as u8, color))),
        decreases 64 - t,
    {
        if (my_pieces >> t) & 1 == 1 && is_pinned(board, t as u8, color) {
            let ghost old_p = pins;
            pins = pins | (1u64 << t);
            assert forall|u: u64| u < 64 implies (#[trigger] contains(pins, u) <==> (u < t + 1 && contains(my_pieces, u) && pinned(*board, u as u8, color))) by {
                lemma_bit_set(old_p, t, u);
            }
        }
        t += 1;
    }
    pins
}

/// Rank `r` is in front of rank `from` for a pawn of side `c`.
pub open spec fn ahead(c: Color, r: int, from: int) -> bool {
    match c {
        Color::White => r > from,
        Color::Black => r < from,
    }
}

/// An opponent pawn stands on file `f`, rank `r`, in front of the pawn of side
/// `c` on `sq`.
pub open spec fn pawn_ahead(b: Board, sq: u8, c: Color, f: int, r: int) -> bool {
    &&& contains(b.pawns & b.by_color(c.other()), (r * 8 + f) as u64)
    &&& ahead(c, r, (sq / 8) as int)
}

/// A pawn of side `c` on `sq` is passed: no opponent pawn stands in front of it
/// on its own file or on an adjacent one.
pub open spec fn passed(b: Board, sq: u8, c: Color) -> bool {
    &&& b.piece_on(sq as u64) == Some((c, Role::Pawn))
    &&& !exists|f: int, r: int|
        0 <= f < 8 && 0 <= r < 8 && (sq % 8) - 1 <= f <= (sq % 8) + 1 && #[trigger] pawn_ahead(b, sq, c, f, r)
}

fn opponent_pawn_ahead_on_file(board: &Board, square: u8, color: Color, file: u64) -> (r: bool)
    requires
        square < 64,
        file < 8,
    ensures
        r == exists|rank: int| 0 <= rank < 8 && #[trigger] pawn_ahead(*board, square, color, file as int, rank),
{
    let opponent_pawns = match color {
        Color::White => board.pawns & board.black,
        Color::Black => board.pawns & board.white,
    };
    let rank_idx: u64 = (square / 8) as u64;
    let mut r: u64 = 0;
    while r < 8
        invariant
            r <= 8,
            file < 8,
            square < 64,
            rank_idx == square / 8,
            opponent_pawns == board.pawns & board.by_color(color.other()),
            forall|rank: int| 0 <= rank < r ==> !#[trigger] pawn_ahead(*board, square, color, file as int, rank),
        decreases 8 - r,
    {
        let sq = r * 8 + file;
        if (opponent_pawns >> sq) & 1 == 1 {
            let is_in_front = match color {
                Color::White => r > rank_idx,
                Color::Black => r < rank_idx,
            };
            if is_in_front {
                assert(pawn_ahead(*board, square, color, file as int, r as int));
                return true;
            }
        }
        r += 1;
    }
    false
}

/// Whether the pawn of side `color` on `square` is a passed pawn.
pub fn is_passed_pawn(board: &Board, square: u8, color: Color) -> (r: bool)
    requires
        square < 64,
    ensures
        r == passed(*board, square, color),
{
    match board.piece_at(square) {
        Some(p) => {
            if !(p.1 == Role::Pawn && p.0 == color) {
                return false;
            }
        },
        None => return false,
    }
    let file: u64 = (square % 8) as u64;
    if opponent_pawn_ahead_on_file(board, square, color, file) {
        return false;
    }
    if file >= 1 {
        if opponent_pawn_ahead_on_file(board, square, color, file - 1) {
            return false;
        }
    }
    if file + 1 < 8 {
        if opponent_pawn_ahead_on_file(board, square, color, file + 1) {
            return false;
        }
    }
    assert forall|f: int, r: int|
        0 <= f < 8 && 0 <= r < 8 && (square % 8) - 1 <= f <= (square % 8) + 1 implies !#[trigger] pawn_ahead(*board, square, color, f, r) by {
        if f == file as int {
        } else if f == file as int - 1 {
        } else {
        }
    }
    true
}


/// A king is never pinned to itself.
pub proof fn law_king_never_pinned(b: Board, c: Color, k: u64)
    requires
        single_square(b.kings & b.by_color(c)) == Some(k),
    ensures
        !pinned(b, k as u8, c),
{
    let i = choose|i: u64| i < 64 && (b.kings & b.by_color(c)) == #[trigger] (1u64 << i);
    assert(k < 64);
}

} // verus!
