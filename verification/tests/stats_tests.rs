use othello::game_stats::GameStats;
use othello::player::Player;
use othello::ui_state::GameState;
use othello::ui_state::Language;
use othello::ui_state::PlayerTypeSelection;
use othello::ui_state::PlotType;
use othello::ui_state::PlotViewer;

#[test]
fn stats_record_and_count_moves() {
    let mut stats = GameStats::new();
    assert_eq!(stats.get_move_count(), 0);
    stats.record_move(Player::Black, Some((2, 3)), 120, 4, 1, Some(9));
    stats.record_move(Player::White, Some((2, 4)), 80, 3, 3, None);
    // A pass is recorded but not numbered.
    stats.record_move(Player::Black, None, 5, 3, 3, None);
    stats.record_move(Player::Black, Some((2, 2)), 200, 5, 2, Some(12));
    assert_eq!(stats.get_move_count(), 3);
    assert_eq!(stats.moves.len(), 4);
    assert_eq!(stats.moves[0].move_number, 1);
    assert_eq!(stats.moves[2].move_number, 2);
    assert_eq!(stats.moves[3].move_number, 3);
}

#[test]
fn stats_histories_skip_passes_and_humans() {
    let mut stats = GameStats::new();
    stats.record_move(Player::Black, Some((2, 3)), 120, 4, 1, Some(9));
    stats.record_move(Player::White, Some((2, 4)), 80, 3, 3, None);
    stats.record_move(Player::Black, None, 5, 3, 3, None);
    stats.record_move(Player::Black, Some((2, 2)), 200, 5, 2, Some(12));
    assert_eq!(
        stats.get_disc_count_history(),
        vec![(1, 4, 1), (2, 3, 3), (3, 5, 2)]
    );
    assert_eq!(
        stats.get_evaluation_history(),
        vec![(1, Player::Black, 9), (3, Player::Black, 12)]
    );
}

#[test]
fn stats_finalize_sums_thinking_time() {
    let mut stats = GameStats::new();
    stats.record_move(Player::Black, Some((2, 3)), 120, 4, 1, Some(9));
    stats.record_move(Player::White, Some((2, 4)), 80, 3, 3, None);
    stats.record_move(Player::Black, None, 999, 3, 3, None);
    let result = stats.finalize_game(Some(Player::Black), 40, 24);
    assert_eq!(result.winner, Some(Player::Black));
    assert_eq!(result.black_final_count, 40);
    assert_eq!(result.white_final_count, 24);
    assert_eq!(result.total_moves, 2);
    // The pass's time is excluded.
    assert_eq!(result.total_thinking_time_ms, 200);
}

#[test]
fn stats_clone_for_plotting_keeps_records() {
    let mut stats = GameStats::new();
    stats.record_move(Player::Black, Some((2, 3)), 120, 4, 1, Some(9));
    let copy = stats.clone_for_plotting();
    assert_eq!(copy.get_move_count(), 1);
    assert_eq!(copy.moves.len(), 1);
    assert_eq!(copy.moves[0].black_count, 4);
}

#[test]
fn plot_viewer_starts_without_data() {
    let mut viewer = PlotViewer::new();
    viewer.mark_data_available();
    let _ = viewer;
}

#[test]
fn ui_enums_compare_and_label() {
    assert_ne!(Language::Japanese, Language::English);
    assert_eq!(GameState::Menu, GameState::Menu);
    assert_ne!(GameState::Playing, GameState::GameOver);
    assert_eq!(PlayerTypeSelection::Human.to_string(), "Human");
    assert_eq!(PlayerTypeSelection::AI5.to_string(), "AI level 5 (advanced)");
    assert_eq!(PlayerTypeSelection::Custom.to_string(), "Custom");
    assert_ne!(PlotType::DiscCount, PlotType::Overview);
}
