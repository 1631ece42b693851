use chess_analizer::chess::{Color, Role};
use chess_analizer::features::{
    get_attackers, get_hanging_pieces, get_pinned_pieces, is_defended, is_hanging_at, is_passed_pawn,
    is_pinned, is_square_attacked, piece_value, Board,
};
use shakmaty::fen::Fen;
use shakmaty::{CastlingMode, Chess, Position};

/// The bitboards of the position a FEN describes, read with shakmaty.
fn board_of(fen: &str) -> Board {
    let pos: Chess = fen.parse::<Fen>().unwrap().into_position(CastlingMode::Standard).unwrap();
    let b = pos.board();
    Board {
        white: b.by_color(shakmaty::Color::White).0,
        black: b.by_color(shakmaty::Color::Black).0,
        pawns: b.pawns().0,
        knights: b.knights().0,
        bishops: b.bishops().0,
        rooks: b.rooks().0,
        queens: b.queens().0,
        kings: b.kings().0,
    }
}

fn sq(name: &str) -> u8 {
    let c: Vec<char> = name.chars().collect();
    (c[0] as u8 - b'a') + 8 * (c[1] as u8 - b'1')
}

fn bit(name: &str) -> u64 {
    1u64 << sq(name)
}

const START: &str = "rnbqkbnr/pppppppp/8/8/8/8/PPPPPPPP/RNBQKBNR w KQkq - 0 1";

#[test]
fn piece_values() {
    assert_eq!(piece_value(Role::Pawn), 100);
    assert_eq!(piece_value(Role::Knight), 300);
    assert_eq!(piece_value(Role::Bishop), 300);
    assert_eq!(piece_value(Role::Rook), 500);
    assert_eq!(piece_value(Role::Queen), 900);
    assert_eq!(piece_value(Role::King), 20000);
}

#[test]
fn piece_at_reads_the_start_position() {
    let b = board_of(START);
    assert_eq!(b.piece_at(sq("e1")), Some((Color::White, Role::King)));
    assert_eq!(b.piece_at(sq("d8")), Some((Color::Black, Role::Queen)));
    assert_eq!(b.piece_at(sq("b1")), Some((Color::White, Role::Knight)));
    assert_eq!(b.piece_at(sq("e4")), None);
}

#[test]
fn attacks_in_the_start_position() {
    let b = board_of(START);
    // f3 is covered by the g1 knight and the e2 and g2 pawns.
    assert!(is_square_attacked(&b, sq("f3"), Color::White));
    assert_eq!(get_attackers(&b, sq("f3"), Color::White), bit("g1") | bit("e2") | bit("g2"));
    assert!(!is_square_attacked(&b, sq("e4"), Color::White));
    assert_eq!(get_attackers(&b, sq("e4"), Color::White), 0);
    assert!(is_square_attacked(&b, sq("f6"), Color::Black));
    assert!(!is_square_attacked(&b, sq("f6"), Color::White));
    // The queen on d1 is defended by the king beside it.
    assert!(is_defended(&b, sq("d1"), Color::White));
    assert_eq!(get_hanging_pieces(&b, Color::White), 0);
    assert_eq!(get_hanging_pieces(&b, Color::Black), 0);
    assert_eq!(get_pinned_pieces(&b, Color::White), 0);
}

#[test]
fn sliders_see_through_empty_squares_only() {
    // White rook a1, white king h1, black king h8, black pawn a5.
    let b = board_of("7k/8/8/p7/8/8/8/R6K w - - 0 1");
    assert!(is_square_attacked(&b, sq("a5"), Color::White));
    assert!(!is_square_attacked(&b, sq("a6"), Color::White));
    assert_eq!(get_attackers(&b, sq("a5"), Color::White), bit("a1"));
}

#[test]
fn an_undefended_attacked_piece_hangs() {
    // Black knight on d5 attacked by the e4 pawn, nothing defends it.
    let b = board_of("4k3/8/8/3n4/4P3/8/8/4K3 b - - 0 1");
    assert!(is_hanging_at(&b, sq("d5"), Color::Black));
    assert_eq!(get_hanging_pieces(&b, Color::Black), bit("d5"));
    // The knight on d5 does not reach e4, so the pawn does not hang.
    assert!(!is_hanging_at(&b, sq("e4"), Color::White));
    // A square holding a piece of the other side never hangs for this side.
    assert!(!is_hanging_at(&b, sq("d5"), Color::White));
    // An empty square never hangs.
    assert!(!is_hanging_at(&b, sq("a1"), Color::White));
}

#[test]
fn a_defended_piece_hangs_to_a_cheaper_attacker() {
    // Black rook on d5 defended by the c6 pawn, attacked by the e4 pawn.
    let b = board_of("4k3/8/2p5/3r4/4P3/8/8/4K3 b - - 0 1");
    assert!(is_defended(&b, sq("d5"), Color::Black));
    assert!(is_hanging_at(&b, sq("d5"), Color::Black));
    // The same rook attacked only by a queen is not hanging.
    let b2 = board_of("4k3/8/2p5/3r4/8/8/3Q4/4K3 b - - 0 1");
    assert!(is_defended(&b2, sq("d5"), Color::Black));
    assert!(!is_hanging_at(&b2, sq("d5"), Color::Black));
}

#[test]
fn a_piece_between_a_rook_and_its_king_is_pinned() {
    // White king e1, white bishop e2, black rook e8, black king a8.
    let b = board_of("k3r3/8/8/8/8/8/4B3/4K3 w - - 0 1");
    assert!(is_pinned(&b, sq("e2"), Color::White));
    assert!(!is_pinned(&b, sq("e1"), Color::White));
    assert_eq!(get_pinned_pieces(&b, Color::White), bit("e2"));
    // Without the rook nothing is pinned.
    let b2 = board_of("k7/8/8/8/8/8/4B3/4K3 w - - 0 1");
    assert!(!is_pinned(&b2, sq("e2"), Color::White));
}

#[test]
fn a_diagonal_pin() {
    // White king a1, white knight b2, black bishop h8, black king e8.
    let b = board_of("4k2b/8/8/8/8/8/1N6/K7 w - - 0 1");
    assert!(is_pinned(&b, sq("b2"), Color::White));
    assert_eq!(get_pinned_pieces(&b, Color::White), bit("b2"));
}

#[test]
fn no_king_means_no_pin() {
    let b = Board {
        white: bit("e2"),
        black: bit("e8"),
        pawns: 0,
        knights: 0,
        bishops: bit("e2"),
        rooks: bit("e8"),
        queens: 0,
        kings: 0,
    };
    assert!(!is_pinned(&b, sq("e2"), Color::White));
}

#[test]
fn passed_pawns() {
    // White pawn e5 with black pawns on a7 and h7: passed.
    let b = board_of("4k3/p6p/8/4P3/8/8/8/4K3 w - - 0 1");
    assert!(is_passed_pawn(&b, sq("e5"), Color::White));
    // A black pawn on d6 (adjacent file, in front) stops it.
    let b2 = board_of("4k3/8/3p4/4P3/8/8/8/4K3 w - - 0 1");
    assert!(!is_passed_pawn(&b2, sq("e5"), Color::White));
    // A black pawn on d4 (behind) does not.
    let b3 = board_of("4k3/8/8/4P3/3p4/8/8/4K3 w - - 0 1");
    assert!(is_passed_pawn(&b3, sq("e5"), Color::White));
    // For Black, in front means a lower rank.
    assert!(is_passed_pawn(&b3, sq("d4"), Color::Black));
    // A pawn on the a-file only looks at the b-file beside it.
    let b4 = board_of("4k3/1p6/8/P7/8/8/8/4K3 w - - 0 1");
    assert!(!is_passed_pawn(&b4, sq("a5"), Color::White));
    let b5 = board_of("4k3/7p/8/P7/8/8/8/4K3 w - - 0 1");
    assert!(is_passed_pawn(&b5, sq("a5"), Color::White));
    // Not a pawn of that side: not passed.
    assert!(!is_passed_pawn(&b5, sq("a5"), Color::Black));
    assert!(!is_passed_pawn(&b5, sq("e1"), Color::White));
}
