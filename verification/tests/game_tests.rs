use phips_game::field::{FieldType, GameField, InitError};
use phips_game::game::{Game, MoveOutcome, COIN_COUNT};
use phips_game::state::GameState;

/// Builds a field from a drawing: `#` barrier, `X` player, `C` coin,
/// anything else space.
fn field_from(rows: &[&str]) -> GameField {
    let mut grid = Vec::new();
    let mut player = (0, 0);
    for (i, line) in rows.iter().enumerate() {
        let mut row = Vec::new();
        for (j, ch) in line.chars().enumerate() {
            let t = match ch {
                '#' => FieldType::Barrier,
                'X' => {
                    player = (i, j);
                    FieldType::Player
                }
                'C' => FieldType::Coin,
                _ => FieldType::Space,
            };
            row.push(t);
        }
        grid.push(row);
    }
    GameField {
        cols: rows[0].len(),
        rows: rows.len(),
        gamefield: grid,
        player_pos: player,
    }
}

/// A fixed 4 x 4 game with one coin, used by the deterministic tests.
fn small_game() -> Game {
    let field = field_from(&["####", "#X #", "# C#", "####"]);
    Game {
        state: GameState::new(4, 1),
        field,
        is_initial_refresh: true,
    }
}

#[test]
fn coin_count_constant() {
    assert_eq!(COIN_COUNT, 17);
}

#[test]
fn game_new_rejects_bad_dimensions() {
    assert_eq!(Game::new(3, 25, 17).unwrap_err(), InitError::TooFewCols);
    assert_eq!(Game::new(45, 2, 17).unwrap_err(), InitError::TooFewRows);
}

#[test]
fn game_new_rejects_unreachable_quota() {
    assert_eq!(
        Game::new(5, 5, 7).unwrap_err(),
        InitError::CoinQuotaUnreachable
    );
}

#[test]
fn game_new_initialises_a_playable_field() {
    let g = Game::new(45, 25, COIN_COUNT).unwrap();
    assert!(!g.won());
    assert_eq!(g.cols(), 45);
    assert_eq!(g.state.coins, 0);
    let mut coins = 0;
    for row in &g.field.gamefield {
        for cell in row {
            if *cell == FieldType::Coin {
                coins += 1;
            }
        }
    }
    assert_eq!(coins, COIN_COUNT);
}

#[test]
fn first_refresh_has_no_cursor_reset() {
    let mut g = small_game();
    let out = g.refresh();
    assert_eq!(
        out,
        "####\nPhips-Game:   0/1 Coins\n####\n####\n#X #\n# C#\n####\n"
    );
}

#[test]
fn later_refreshes_rewind_the_cursor_first() {
    let mut g = small_game();
    g.refresh();
    let out = g.refresh();
    assert_eq!(
        out,
        "\u{1b}[4D\u{1b}[3A\u{1b}[4D\u{1b}[4A####\nPhips-Game:   0/1 Coins\n####\n####\n#X #\n# C#\n####\n"
    );
}

#[test]
fn refresh_twice_is_byte_identical() {
    let mut g = small_game();
    g.refresh();
    let second = g.refresh();
    let third = g.refresh();
    assert_eq!(second, third);
}

#[test]
fn refresh_of_a_random_game_is_stable() {
    let mut g = Game::new(45, 25, COIN_COUNT).unwrap();
    g.refresh();
    let second = g.refresh();
    let third = g.refresh();
    assert_eq!(second, third);
    assert!(second.starts_with("\u{1b}[24D\u{1b}[3A\u{1b}[45D\u{1b}[25A"));
}

#[test]
fn barrier_hit_changes_nothing() {
    let mut g = small_game();
    let before = g.field.gamefield.clone();
    assert_eq!(g.move_player_up(), MoveOutcome::BarrierHit);
    assert_eq!(g.field.player_pos, (1, 1));
    assert_eq!(g.field.gamefield, before);
    assert_eq!(g.state.coins, 0);
}

#[test]
fn plain_move_reports_moved() {
    let mut g = small_game();
    assert_eq!(g.move_player_right(), MoveOutcome::Moved);
    assert_eq!(g.field.player_pos, (1, 2));
    assert_eq!(g.field.gamefield[1][1], FieldType::Space);
    assert_eq!(g.field.gamefield[1][2], FieldType::Player);
    assert_eq!(g.state.coins, 0);
}

#[test]
fn single_pickup_flips_won_and_it_stays_won() {
    let mut g = small_game();
    assert!(!g.won());
    assert_eq!(g.move_player_down(), MoveOutcome::Moved);
    assert!(!g.won());
    assert_eq!(g.move_player_right(), MoveOutcome::CoinCollected);
    assert_eq!(g.state.coins, 1);
    assert!(g.won());
    // Every later move finds no coin, so the game stays won.
    assert_eq!(g.move_player_left(), MoveOutcome::Moved);
    assert!(g.won());
    assert_eq!(g.move_player_up(), MoveOutcome::Moved);
    assert!(g.won());
}

#[test]
fn pickup_rewrites_the_cells() {
    let mut g = small_game();
    g.move_player_down();
    g.move_player_right();
    assert_eq!(g.field.player_pos, (2, 2));
    assert_eq!(g.field.gamefield[2][2], FieldType::Player);
    assert_eq!(g.field.gamefield[2][1], FieldType::Space);
    let mut coins = 0;
    for row in &g.field.gamefield {
        for cell in row {
            if *cell == FieldType::Coin {
                coins += 1;
            }
        }
    }
    assert_eq!(coins, 0);
}
