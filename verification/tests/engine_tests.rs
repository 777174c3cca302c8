use othello::board::BitBoard;
use othello::eval::GamePhase;
use othello::heuristics::safe_neg;
use othello::heuristics::HistoryTable;
use othello::heuristics::KillerMoves;
use othello::heuristics::Move;
use othello::heuristics::PVTable;
use othello::player::NodeType;
use othello::player::Player;
use othello::ttable::new_transposition_table;
use othello::ttable::tt_entries;
use othello::ttable::tt_len;
use othello::ttable::tt_probe;
use othello::ttable::tt_remove;
use othello::ttable::tt_store;
use othello::player::Entry;

#[test]
fn terminal_score_is_zero_sum() {
    // score(gameOverBoard, Black) == -score(gameOverBoard, White).
    let board = BitBoard { black: 0xFFFFFFFFF0000000, white: 0x000000000FFFFFFF };
    assert_eq!(board.evaluate_game_end(Player::Black), 10008);
    assert_eq!(board.evaluate_game_end(Player::White), -10008);
    let tie = BitBoard { black: 0xFFFFFFFF00000000, white: 0x00000000FFFFFFFF };
    assert_eq!(tie.evaluate_game_end(Player::Black), 0);
    assert_eq!(tie.evaluate_game_end(Player::White), 0);
}

#[test]
fn static_evaluation_is_zero_sum() {
    // The leaf evaluation sees opposite scores for the two sides, at the
    // symmetric opening and after an asymmetric move alike.
    let mut board = BitBoard::new();
    assert_eq!(
        board.evaluate_board_optimized(Player::Black),
        -board.evaluate_board_optimized(Player::White)
    );
    assert!(board.make_move(19, Player::Black));
    assert_eq!(
        board.evaluate_board_optimized(Player::Black),
        -board.evaluate_board_optimized(Player::White)
    );
}

#[test]
fn position_values_order_corner_edge_interior() {
    // Qualitative ordering: corner > edge > interior > X-square.
    let corner = othello::eval::position_score(0, 0);
    let edge = othello::eval::position_score(0, 2);
    let interior = othello::eval::position_score(3, 3);
    let x_square = othello::eval::position_score(1, 1);
    assert_eq!(corner, 100);
    assert!(corner > edge);
    assert!(edge > interior);
    assert!(interior > x_square);
    assert_eq!(x_square, -50);
}

#[test]
fn shallow_mode_picks_an_opening_move() {
    // Initial position, black to move, shallow mode: the chosen move is
    // one of the four legal openings, each flipping exactly one disc.
    let mut board = BitBoard::new();
    let mut tt = new_transposition_table();
    let (pos, score) = board.find_best_move_with_tt(Player::Black, 1, &mut tt);
    let pos = pos.expect("a legal opening move exists");
    assert!([19usize, 26, 37, 44].contains(&pos));
    assert_eq!(score, Some(0));
}

#[test]
fn search_returns_member_of_legal_move_set() {
    // Any move iterative deepening returns is in the legal-move set at
    // that position, across depths and along a played line.
    let mut board = BitBoard::new();
    let mut tt = new_transposition_table();
    let mut side = Player::Black;
    for turn in 0..6 {
        let depth = 1 + (turn % 4);
        let legal = board.get_legal_moves(side);
        let (pos, score) = board.find_best_move_with_tt(side, depth, &mut tt);
        if legal == 0 {
            assert_eq!(pos, None);
            assert_eq!(score, None);
        } else {
            let pos = pos.expect("a move is owed when one exists");
            assert!((legal >> pos) & 1 == 1);
            assert!(score.is_some());
            assert!(board.make_move(pos, side));
        }
        side = side.opponent();
    }
}

#[test]
fn zero_depth_asks_for_nothing() {
    let mut board = BitBoard::new();
    let mut tt = new_transposition_table();
    assert_eq!(board.find_best_move_with_tt(Player::Black, 0, &mut tt), (None, None));
}

#[test]
fn aspiration_and_full_window_agree() {
    // Aspiration-window search and full-window search are compared at the
    // fixed opening position, depths one to six, the aspiration window
    // centred on the previous depth's score. Up to depth three the two
    // take the same code path and return identical scores and root moves.
    // Deeper, the window changes which branches late-move reduction and
    // futility pruning cut, so the two may settle on different
    // recommendations; both must still be legal root moves.
    let board = BitBoard::new();
    let legal = board.get_legal_moves(Player::Black);
    let mut prev = 0i32;
    for depth in 1..=6usize {
        let mut tt_full = new_transposition_table();
        let mut pv_full = PVTable::new();
        let mut killers_full = KillerMoves::new();
        let mut history_full = HistoryTable::new();
        let full = board.minimax_best_move_with_tt(
            Player::Black,
            depth,
            &mut tt_full,
            &mut pv_full,
            &mut killers_full,
            &mut history_full,
        );
        let mut tt_asp = new_transposition_table();
        let mut pv_asp = PVTable::new();
        let mut killers_asp = KillerMoves::new();
        let mut history_asp = HistoryTable::new();
        let asp = board.aspiration_window_search(
            Player::Black,
            depth,
            &mut tt_asp,
            &mut pv_asp,
            &mut killers_asp,
            &mut history_asp,
            prev,
        );
        let (full_move, full_score) = full.expect("the opening has moves");
        let (asp_move, asp_score) = asp.expect("the opening has moves");
        if depth <= 3 {
            assert_eq!(full_score, asp_score, "depth {}", depth);
            assert_eq!(full_move, asp_move, "depth {}", depth);
        }
        assert!((legal >> full_move) & 1 == 1);
        assert!((legal >> asp_move) & 1 == 1);
        prev = asp_score;
    }
}

#[test]
fn search_for_side_that_must_pass_reports_no_move() {
    // White has no legal move but black does: the search for white
    // reports an explicit "no move", which the caller treats as a forced
    // pass, and the game is not over.
    let board = BitBoard {
        black: 0b1_0000_0111 | (1u64 << 16) | (1u64 << 63),
        white: 1u64 << 62,
    };
    assert!(!board.is_game_over());
    assert!(board.is_pass_required(Player::White));
    assert!(!board.is_pass_required(Player::Black));
    let mut copy = board;
    let mut tt = new_transposition_table();
    assert_eq!(copy.find_best_move_with_tt(Player::White, 3, &mut tt), (None, None));
}

#[test]
fn search_through_a_forced_pass_returns_a_move() {
    // Black to move; black's replies lead to positions where white must
    // pass, so the search recurses through the pass at unchanged depth
    // and still returns a legal move for black.
    let board = BitBoard {
        black: 0b111 | (1u64 << 63),
        white: (1u64 << 8) | (1u64 << 62),
    };
    assert!(!board.is_game_over());
    let mut copy = board;
    let mut tt = new_transposition_table();
    let (pos, score) = copy.find_best_move_with_tt(Player::Black, 2, &mut tt);
    let pos = pos.expect("black has moves");
    assert!((board.get_legal_moves(Player::Black) >> pos) & 1 == 1);
    assert!(score.is_some());
}

#[test]
fn winning_line_is_found_and_scored_as_terminal() {
    // Black's only move ends the game with every disc black: the score is
    // the terminal offset plus the disc differential.
    let board = BitBoard { black: 0b1, white: 0b10 };
    let mut copy = board;
    let mut tt = new_transposition_table();
    let (pos, score) = copy.find_best_move_with_tt(Player::Black, 5, &mut tt);
    assert_eq!(pos, Some(2));
    assert_eq!(score, Some(10003));
}

#[test]
fn safe_neg_maps_sentinel() {
    assert_eq!(safe_neg(i32::MIN), i32::MAX);
    assert_eq!(safe_neg(i32::MAX), i32::MIN + 1);
    assert_eq!(safe_neg(5), -5);
    assert_eq!(safe_neg(0), 0);
}

#[test]
fn transposition_table_stores_probes_and_removes() {
    let mut tt = new_transposition_table();
    let key = (0x10u64, 0x20u64, 0u8);
    assert!(tt_probe(&tt, key).is_none());
    tt_store(
        &mut tt,
        key,
        Entry { score: 42, depth: 3, flag: NodeType::Exact, best_move: Some(19) },
    );
    let entry = tt_probe(&tt, key).expect("stored entry is found");
    assert_eq!(entry.score, 42);
    assert_eq!(entry.depth, 3);
    assert!(matches!(entry.flag, NodeType::Exact));
    assert_eq!(entry.best_move, Some(19));
    // Overwritten wholesale.
    tt_store(
        &mut tt,
        key,
        Entry { score: -7, depth: 5, flag: NodeType::LowerBound, best_move: None },
    );
    let entry = tt_probe(&tt, key).expect("entry still present");
    assert_eq!(entry.score, -7);
    assert!(matches!(entry.flag, NodeType::LowerBound));
    let listed = tt_entries(&tt);
    assert_eq!(listed.len(), 1);
    assert_eq!(listed[0].0, key);
    assert_eq!(listed[0].1.score, -7);
    assert_eq!(tt_len(&tt), 1);
    let other = (0x30u64, 0x40u64, 1u8);
    tt_store(
        &mut tt,
        other,
        Entry { score: 5, depth: 1, flag: NodeType::UpperBound, best_move: None },
    );
    assert_eq!(tt_len(&tt), 2);
    let listed = tt_entries(&tt);
    assert_eq!(listed.len(), 2);
    assert_ne!(listed[0].0, listed[1].0);
    tt_remove(&mut tt, key);
    assert!(tt_probe(&tt, key).is_none());
    assert!(tt_probe(&tt, other).is_some());
    assert_eq!(tt_len(&tt), 1);
}

#[test]
fn root_entry_records_the_search() {
    // After a full-window root search on a fresh table, the root position's
    // entry holds the searched depth, the returned score exactly, and the
    // returned move as its best move.
    let board = BitBoard::new();
    let mut tt = new_transposition_table();
    let mut pv = PVTable::new();
    let mut killers = KillerMoves::new();
    let mut history = HistoryTable::new();
    let (mv, score) = board
        .minimax_best_move_with_tt(Player::Black, 3, &mut tt, &mut pv, &mut killers, &mut history)
        .expect("the opening has moves");
    let root_key = (board.black, board.white, 0u8);
    let entry = tt_probe(&tt, root_key).expect("the root was stored");
    assert_eq!(entry.depth, 3);
    assert_eq!(entry.score, score);
    assert_eq!(entry.best_move, Some(mv as u8));
    assert!(matches!(entry.flag, NodeType::Exact));
}

#[test]
fn search_fills_the_table() {
    // The table handed in comes back holding entries for searched
    // positions: the root position itself among them.
    let mut board = BitBoard::new();
    let mut tt = new_transposition_table();
    let (pos, _) = board.find_best_move_with_tt(Player::Black, 3, &mut tt);
    assert!(pos.is_some());
    let root_key = (board.black, board.white, 0u8);
    assert!(tt_probe(&tt, root_key).is_some());
    assert!(tt_entries(&tt).len() > 1);
}

#[test]
fn persistent_table_is_reusable_across_turns() {
    let mut board = BitBoard::new();
    let mut tt = new_transposition_table();
    let (first, _) = board.find_best_move_with_tt(Player::Black, 4, &mut tt);
    let first = first.expect("opening move");
    assert!(board.make_move(first, Player::Black));
    let (second, _) = board.find_best_move_with_tt(Player::White, 4, &mut tt);
    let second = second.expect("white has replies");
    assert!(board.is_legal_move(second, Player::White));
}

#[test]
fn pv_table_records_continuations() {
    let mut pv = PVTable::new();
    assert_eq!(pv.get_pv_move(0), None);
    pv.update(1, 26, 2);
    pv.update(0, 19, 1);
    assert_eq!(pv.get_pv_move(0), Some(19));
    assert_eq!(pv.get_pv_move(1), Some(26));
    pv.clear_ply(0);
    assert_eq!(pv.get_pv_move(0), None);
    assert_eq!(pv.get_pv_move(1), Some(26));
}

#[test]
fn killer_moves_keep_two_and_demote() {
    let mut killers = KillerMoves::new();
    assert!(!killers.is_killer(2, 19));
    killers.add_killer(2, 19);
    assert!(killers.is_killer(2, 19));
    killers.add_killer(2, 26);
    assert!(killers.is_killer(2, 26));
    assert!(killers.is_killer(2, 19));
    killers.add_killer(2, 37);
    assert!(killers.is_killer(2, 37));
    assert!(killers.is_killer(2, 26));
    assert!(!killers.is_killer(2, 19));
    // Re-adding the newest killer changes nothing.
    killers.add_killer(2, 37);
    assert!(killers.is_killer(2, 26));
    assert!(!killers.is_killer(3, 37));
}

#[test]
fn history_table_rewards_decays_and_clamps() {
    let mut history = HistoryTable::new();
    assert_eq!(history.get_score(0, 0, 5), 0);
    history.update(0, 0, 5, 3, true);
    assert_eq!(history.get_score(0, 0, 5), 9);
    history.update(0, 0, 5, 4, false);
    assert_eq!(history.get_score(0, 0, 5), 1);
    history.update(1, 1, 5, 4, true);
    assert_eq!(history.get_score(1, 1, 5), 16);
    // Geometric decay: times seven, divided by eight, truncating.
    history.age();
    assert_eq!(history.get_score(0, 0, 5), 0);
    assert_eq!(history.get_score(1, 1, 5), 14);
    // Clamped at the fixed bound.
    for _ in 0..300 {
        history.update(0, 1, 7, 8, true);
    }
    assert_eq!(history.get_score(0, 1, 7), 10000);
    // Out-of-range triples read as zero and ignore updates.
    assert_eq!(history.get_score(2, 0, 5), 0);
    history.update(2, 0, 64, 3, true);
    assert_eq!(history.get_score(2, 0, 5), 0);
}

#[test]
fn move_candidates_carry_position_and_score() {
    let mv = Move::new(19, 310);
    assert_eq!(mv.position, 19);
    assert_eq!(mv.score, 310);
}

#[test]
fn fast_move_evaluation_rewards_corners_and_flips() {
    let board = BitBoard::new();
    // The opening moves each flip one disc from an interior square.
    assert_eq!(board.evaluate_move_fast(19, Player::Black), -1 + 10);
    // A corner would add its positional worth and the corner bonus.
    let cornered = BitBoard { black: 1u64 << 9, white: (1u64 << 18) | (1u64 << 27) };
    // From the corner (0,0): the diagonal run is not terminated, so no
    // flips; the square itself is worth 100 + 300.
    assert_eq!(cornered.evaluate_move_fast(0, Player::Black), 400);
}

#[test]
fn game_phase_thresholds() {
    assert_eq!(GamePhase::from_empty_count(60), GamePhase::Early);
    assert_eq!(GamePhase::from_empty_count(26), GamePhase::Early);
    assert_eq!(GamePhase::from_empty_count(25), GamePhase::Mid);
    assert_eq!(GamePhase::from_empty_count(15), GamePhase::Mid);
    assert_eq!(GamePhase::from_empty_count(14), GamePhase::End);
    assert_eq!(GamePhase::from_empty_count(0), GamePhase::End);
    assert_eq!(GamePhase::Early.index(), 0);
    assert_eq!(GamePhase::Mid.index(), 0);
    assert_eq!(GamePhase::End.index(), 1);
}

#[test]
fn eval_components_on_crafted_boards() {
    // A full black top row with a lone white corner below: the whole row
    // is provably stable (each disc is backed by the edge or the owned
    // corners on every axis), against white's single stable corner.
    let board = BitBoard { black: 0xFF, white: 1u64 << 56 };
    assert_eq!(board.evaluate_stability(Player::Black), 7);
    assert_eq!(board.evaluate_stability(Player::White), -7);
    // 55 empty squares: odd, so black plays last and takes the bonus.
    assert_eq!(board.evaluate_parity(Player::Black), 10);
    assert_eq!(board.evaluate_parity(Player::White), -10);
    // Corner ownership: black holds two corners, white one.
    assert_eq!(board.evaluate_corners_optimized(Player::Black), 300);
    assert_eq!(board.evaluate_disc_count(Player::Black), 7);
    // Positional worth of the top row plus both corners, minus white's
    // corner: (100 - 20 + 10 + 5 + 5 + 10 - 20 + 100) - 100.
    assert_eq!(board.evaluate_position_value(Player::Black), 90);
    assert_eq!(board.evaluate_position_value(Player::White), -90);
}

#[test]
fn mobility_balances_at_the_opening() {
    let board = BitBoard::new();
    assert_eq!(board.evaluate_mobility(Player::Black), 0);
    assert_eq!(board.evaluate_mobility(Player::White), 0);
}
