use phips_game::render::RefreshableComponent;
use phips_game::state::GameState;

#[test]
fn state_new_starts_at_zero() {
    let s = GameState::new(45, 17);
    assert_eq!(s.coins(), 0);
    assert_eq!(s.coin_target, 17);
    assert_eq!(s.cols, 45);
}

#[test]
fn bar_string_right_aligns_the_count() {
    let s = GameState::new(45, 17);
    assert_eq!(s.get_bar_string(), "Phips-Game:   0/17 Coins");
}

#[test]
fn bar_string_tracks_increments() {
    let mut s = GameState::new(45, 17);
    s.coins_inc();
    s.coins_inc();
    s.coins_inc();
    assert_eq!(s.coins(), 3);
    assert_eq!(s.get_bar_string(), "Phips-Game:   3/17 Coins");
}

#[test]
fn bar_string_with_wide_counts() {
    let s = GameState {
        coins: 123,
        coin_target: 4567,
        cols: 80,
    };
    assert_eq!(s.get_bar_string(), "Phips-Game: 123/4567 Coins");
}

#[test]
fn width_is_the_bar_length_when_it_fits() {
    let s = GameState::new(45, 17);
    // "Phips-Game:   0/17 Coins" is 24 characters.
    assert_eq!(s.width(), 24);
}

#[test]
fn width_clamps_to_the_field_width() {
    let s = GameState::new(10, 17);
    assert_eq!(s.width(), 10);
}

#[test]
fn gamestate_string_frames_the_bar_with_rules() {
    let s = GameState::new(45, 17);
    let rule = "#".repeat(24);
    assert_eq!(
        s.get_gamestate_string(),
        format!("{}\nPhips-Game:   0/17 Coins\n{}", rule, rule)
    );
}

#[test]
fn won_flips_exactly_at_the_target() {
    let mut s = GameState::new(5, 1);
    assert!(!s.won());
    s.coins_inc();
    assert!(s.won());
}

#[test]
fn state_print_ends_with_a_newline() {
    let s = GameState::new(45, 17);
    let banner = s.get_gamestate_string();
    assert_eq!(s.print(), format!("{}\n", banner));
}

#[test]
fn state_offsets_cover_three_lines() {
    let s = GameState::new(45, 17);
    assert_eq!(s.after_print_rows_offset(), 3);
    assert_eq!(s.after_print_cols_offset(), 24);
}
