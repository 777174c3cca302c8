use othello::board::BitBoard;
use othello::player::Player;

const INIT_BLACK: u64 = 0x0000000810000000;
const INIT_WHITE: u64 = 0x0000001008000000;

#[test]
fn initial_position_masks() {
    let board = BitBoard::new();
    assert_eq!(board.black, INIT_BLACK);
    assert_eq!(board.white, INIT_WHITE);
    assert_eq!(board.black & board.white, 0);
    assert_eq!(board.count_all_discs(), (2, 2));
}

#[test]
fn initial_legal_moves_black() {
    let board = BitBoard::new();
    // (2,3), (3,2), (4,5), (5,4): squares 19, 26, 37, 44.
    let expected = (1u64 << 19) | (1u64 << 26) | (1u64 << 37) | (1u64 << 44);
    assert_eq!(board.get_legal_moves(Player::Black), expected);
    assert_eq!(board.get_legal_move_positions(Player::Black), vec![19, 26, 37, 44]);
}

#[test]
fn initial_legal_moves_white() {
    let board = BitBoard::new();
    // (2,4), (3,5), (4,2), (5,3): squares 20, 29, 34, 43.
    let expected = (1u64 << 20) | (1u64 << 29) | (1u64 << 34) | (1u64 << 43);
    assert_eq!(board.get_legal_moves(Player::White), expected);
}

#[test]
fn compute_flips_opening_move() {
    let board = BitBoard::new();
    // Black on (2,3) flips the white disc on (3,3) = square 27.
    assert_eq!(board.compute_flips(19, Player::Black), 1u64 << 27);
    // An empty corner flips nothing.
    assert_eq!(board.compute_flips(0, Player::Black), 0);
    // An occupied square's scan also finds nothing to flip for its owner.
    assert_eq!(board.compute_flips(20, Player::Black), 0);
}

#[test]
fn flips_color_swap_matches_opposite_player() {
    // The flip set of one player equals the flip set of the other on the
    // colour-swapped board, square by square.
    let board = BitBoard::new();
    let swapped = BitBoard { black: board.white, white: board.black };
    for pos in 0..64 {
        assert_eq!(
            board.compute_flips(pos, Player::Black),
            swapped.compute_flips(pos, Player::White)
        );
        assert_eq!(
            board.compute_flips(pos, Player::White),
            swapped.compute_flips(pos, Player::Black)
        );
    }
}

#[test]
fn make_move_applies_flips() {
    let mut board = BitBoard::new();
    assert!(board.make_move(19, Player::Black));
    assert_eq!(board.black, INIT_BLACK | (1u64 << 19) | (1u64 << 27));
    assert_eq!(board.white, 1u64 << 36);
    assert_eq!(board.black & board.white, 0);
}

#[test]
fn make_move_rejects_occupied_square_unchanged() {
    let mut board = BitBoard::new();
    // (3,3) = square 27 holds a white disc.
    assert!(!board.make_move(27, Player::Black));
    assert_eq!(board.black, INIT_BLACK);
    assert_eq!(board.white, INIT_WHITE);
}

#[test]
fn make_move_rejects_flipless_square_unchanged() {
    let mut board = BitBoard::new();
    // The empty corner flips nothing, so the move is refused.
    assert!(!board.make_move(0, Player::Black));
    assert_eq!(board.black, INIT_BLACK);
    assert_eq!(board.white, INIT_WHITE);
}

#[test]
fn every_advertised_move_succeeds() {
    // Each bit of the legal mask, passed on its own to make_move, is
    // accepted; every other square is refused.
    let board = BitBoard::new();
    for side in [Player::Black, Player::White] {
        let legal = board.get_legal_moves(side);
        for pos in 0..64 {
            let mut copy = board;
            let expected = (legal >> pos) & 1 == 1;
            assert_eq!(copy.is_legal_move(pos as usize, side), expected);
            assert_eq!(copy.make_move(pos as usize, side), expected);
        }
    }
}

#[test]
fn disc_conservation_along_a_game() {
    // Along any played line: the masks stay disjoint and discs plus empty
    // squares account for all 64 squares.
    let mut board = BitBoard::new();
    let mut side = Player::Black;
    for _ in 0..16 {
        let (b, w) = board.count_all_discs();
        let empty = 64 - (board.black | board.white).count_ones();
        assert_eq!(board.black & board.white, 0);
        assert_eq!(b + w + empty, 64);
        let moves = board.get_legal_move_positions(side);
        match moves.first() {
            Some(&pos) => {
                assert!(board.make_move(pos, side));
                // Each applied move adds exactly one disc in total.
                let (nb, nw) = board.count_all_discs();
                assert_eq!(nb + nw, b + w + 1);
            }
            None => {}
        }
        side = side.opponent();
    }
}

#[test]
fn get_disc_reads_squares() {
    let board = BitBoard::new();
    assert_eq!(board.get_disc(27), Some(Player::White));
    assert_eq!(board.get_disc(28), Some(Player::Black));
    assert_eq!(board.get_disc(0), None);
    assert_eq!(board.get_disc(64), None);
    assert_eq!(board.get_disc_at(3, 3), Some(Player::White));
    assert_eq!(board.get_disc_at(3, 4), Some(Player::Black));
    assert_eq!(board.get_disc_at(8, 0), None);
}

#[test]
fn full_board_is_over_and_majority_wins() {
    // A completely full board is over, and the side with strictly more
    // discs wins.
    let board = BitBoard { black: 0xFFFFFFFFF0000000, white: 0x000000000FFFFFFF };
    assert!(board.is_game_over());
    assert_eq!(board.get_winner(), Some(Player::Black));
    assert_eq!(board.count_all_discs(), (36, 28));
}

#[test]
fn full_board_tie_has_no_winner() {
    let board = BitBoard { black: 0xFFFFFFFF00000000, white: 0x00000000FFFFFFFF };
    assert!(board.is_game_over());
    assert_eq!(board.get_winner(), None);
}

#[test]
fn blocked_position_is_over_without_being_full() {
    // Three black discs in a corner and nothing else: neither side can
    // flip anything, so the game is over though the board is nearly empty.
    let board = BitBoard { black: 0b111, white: 0 };
    assert_eq!(board.get_legal_moves(Player::Black), 0);
    assert_eq!(board.get_legal_moves(Player::White), 0);
    assert!(board.is_game_over());
    assert_eq!(board.get_winner(), Some(Player::Black));
}

#[test]
fn pass_position_is_not_over() {
    // White cannot play but black can: a forced pass, not the end.
    let board = BitBoard { black: 0b1, white: 0b10 };
    assert!(board.is_pass_required(Player::White));
    assert!(!board.is_pass_required(Player::Black));
    assert!(!board.is_game_over());
    assert_eq!(board.get_legal_move_positions(Player::Black), vec![2]);
}

#[test]
fn player_basics() {
    assert_eq!(Player::Black.opponent(), Player::White);
    assert_eq!(Player::White.opponent(), Player::Black);
    assert_eq!(Player::Black.to_char(), 'X');
    assert_eq!(Player::White.to_char(), 'O');
    assert_eq!(Player::Black.to_string(), "black");
    assert_eq!(Player::White.to_string(), "white");
}

#[test]
fn default_board_is_initial() {
    let board = BitBoard::default();
    assert_eq!(board.black, INIT_BLACK);
    assert_eq!(board.white, INIT_WHITE);
}

#[test]
fn popcount_counts_bits() {
    assert_eq!(othello::bits::popcount(0), 0);
    assert_eq!(othello::bits::popcount(u64::MAX), 64);
    assert_eq!(othello::bits::popcount(0x8000000000000001), 2);
    assert_eq!(othello::bits::popcount(INIT_BLACK), 2);
}
