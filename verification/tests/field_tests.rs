use phips_game::field::{FieldType, GameField, InitError, MoveError};
use phips_game::render::RefreshableComponent;

/// Builds a field from a drawing: `#` barrier, `X` player, `C` coin,
/// anything else space.
fn field_from(rows: &[&str]) -> GameField {
    let mut grid = Vec::new();
    let mut player = (0, 0);
    for (i, line) in rows.iter().enumerate() {
        let mut row = Vec::new();
        for (j, ch) in line.chars().enumerate() {
            let t = match ch {
                '#' => FieldType::Barrier,
                'X' => {
                    player = (i, j);
                    FieldType::Player
                }
                'C' => FieldType::Coin,
                _ => FieldType::Space,
            };
            row.push(t);
        }
        grid.push(row);
    }
    GameField {
        cols: rows[0].len(),
        rows: rows.len(),
        gamefield: grid,
        player_pos: player,
    }
}

fn count_cells(f: &GameField, t: FieldType, interior_only: bool) -> usize {
    let mut n = 0;
    for r in 0..f.rows {
        for c in 0..f.cols {
            let interior = r >= 1 && r < f.rows - 1 && c >= 1 && c < f.cols - 1;
            if (!interior_only || interior) && f.gamefield[r][c] == t {
                n += 1;
            }
        }
    }
    n
}

#[test]
fn new_rejects_too_few_cols() {
    assert_eq!(GameField::new(3, 10).unwrap_err(), InitError::TooFewCols);
    assert_eq!(GameField::new(0, 10).unwrap_err(), InitError::TooFewCols);
}

#[test]
fn new_rejects_too_few_rows() {
    assert_eq!(GameField::new(10, 3).unwrap_err(), InitError::TooFewRows);
    assert_eq!(GameField::new(10, 0).unwrap_err(), InitError::TooFewRows);
}

#[test]
fn new_allocates_all_space() {
    let f = GameField::new(5, 6).unwrap();
    assert_eq!(f.cols, 5);
    assert_eq!(f.rows, 6);
    assert_eq!(f.player_pos, (0, 0));
    assert_eq!(f.gamefield.len(), 6);
    for row in &f.gamefield {
        assert_eq!(row.len(), 5);
        for cell in row {
            assert_eq!(*cell, FieldType::Space);
        }
    }
}

#[test]
fn init_marks_every_border_cell() {
    let mut f = GameField::new(7, 6).unwrap();
    f.init(4).unwrap();
    for r in 0..f.rows {
        for c in 0..f.cols {
            if r == 0 || r == f.rows - 1 || c == 0 || c == f.cols - 1 {
                assert_eq!(f.gamefield[r][c], FieldType::Barrier);
            }
        }
    }
}

#[test]
fn init_places_exactly_one_player() {
    let mut f = GameField::new(9, 7).unwrap();
    f.init(5).unwrap();
    assert_eq!(count_cells(&f, FieldType::Player, false), 1);
    let (pr, pc) = f.player_pos;
    assert_eq!(f.gamefield[pr][pc], FieldType::Player);
    assert!(pr >= 1 && pr < f.rows - 1);
    assert!(pc >= 1 && pc < f.cols - 1);
}

#[test]
fn init_places_exactly_the_coin_target() {
    let mut f = GameField::new(12, 9).unwrap();
    f.init(11).unwrap();
    assert_eq!(count_cells(&f, FieldType::Coin, false), 11);
}

#[test]
fn init_meets_the_barrier_quota() {
    // Interior 8 x 6 = 48 cells; quota is (48 - 1) / 4 = 11.
    let mut f = GameField::new(10, 8).unwrap();
    f.init(6).unwrap();
    assert_eq!(count_cells(&f, FieldType::Barrier, true), 11);
}

#[test]
fn init_5x5_scenario() {
    // Interior is a 3 x 3 box: quota (9 - 1) / 4 = 2 barriers.
    let mut f = GameField::new(5, 5).unwrap();
    f.init(3).unwrap();
    assert_eq!(count_cells(&f, FieldType::Barrier, true), 2);
    assert_eq!(count_cells(&f, FieldType::Coin, true), 3);
    assert_eq!(count_cells(&f, FieldType::Player, true), 1);
    assert_eq!(count_cells(&f, FieldType::Space, true), 3);
}

#[test]
fn init_rejects_unreachable_coin_quota() {
    // Capacity after player and barriers: 9 - 1 - 2 = 6 coins at most.
    let mut f = GameField::new(5, 5).unwrap();
    assert_eq!(f.init(7).unwrap_err(), InitError::CoinQuotaUnreachable);
    // The failed call left the field untouched.
    for row in &f.gamefield {
        for cell in row {
            assert_eq!(*cell, FieldType::Space);
        }
    }
    assert!(f.init(6).is_ok());
    assert_eq!(count_cells(&f, FieldType::Coin, true), 6);
    assert_eq!(count_cells(&f, FieldType::Space, true), 0);
}

#[test]
fn init_largest_dimensions() {
    let mut f = GameField::new(255, 255).unwrap();
    // Interior 253 x 253 = 64009; quota (64009 - 1) / 4 = 16002;
    // capacity 64009 - 1 - 16002 = 48006.
    assert_eq!(f.init(48007).unwrap_err(), InitError::CoinQuotaUnreachable);
    f.init(48006).unwrap();
    assert_eq!(count_cells(&f, FieldType::Barrier, true), 16002);
    assert_eq!(count_cells(&f, FieldType::Coin, true), 48006);
    assert_eq!(count_cells(&f, FieldType::Space, true), 0);
}

#[test]
fn move_onto_barrier_is_blocked() {
    let mut f = field_from(&["#####", "#X ##", "# C #", "#####"]);
    let before = f.gamefield.clone();
    let res = f.move_player_to((1, 3));
    assert_eq!(res.unwrap_err(), MoveError::Blocked(FieldType::Barrier));
    assert_eq!(f.player_pos, (1, 1));
    assert_eq!(f.gamefield, before);
}

#[test]
fn move_onto_coin_succeeds_and_reports_it() {
    let mut f = field_from(&["#####", "#X  #", "#C  #", "#####"]);
    let res = f.move_player_to((2, 1));
    assert_eq!(res.unwrap(), FieldType::Coin);
    assert_eq!(f.player_pos, (2, 1));
    assert_eq!(f.gamefield[2][1], FieldType::Player);
    assert_eq!(f.gamefield[1][1], FieldType::Space);
}

#[test]
fn move_onto_space_succeeds() {
    let mut f = field_from(&["#####", "#X  #", "#   #", "#####"]);
    let res = f.move_player_to((1, 2));
    assert_eq!(res.unwrap(), FieldType::Space);
    assert_eq!(f.player_pos, (1, 2));
    assert_eq!(f.gamefield[1][2], FieldType::Player);
    assert_eq!(f.gamefield[1][1], FieldType::Space);
}

#[test]
fn move_out_of_bounds_is_an_error() {
    let mut f = field_from(&["#####", "#X  #", "#   #", "#####"]);
    let before = f.gamefield.clone();
    assert_eq!(
        f.move_player_to((4, 1)).unwrap_err(),
        MoveError::OutOfBounds
    );
    assert_eq!(
        f.move_player_to((1, 5)).unwrap_err(),
        MoveError::OutOfBounds
    );
    assert_eq!(f.player_pos, (1, 1));
    assert_eq!(f.gamefield, before);
}

#[test]
fn symbols_for_every_cell_kind() {
    assert_eq!(FieldType::Space.symbol(), ' ');
    assert_eq!(FieldType::Player.symbol(), 'X');
    assert_eq!(FieldType::Barrier.symbol(), '#');
    assert_eq!(FieldType::Coin.symbol(), 'C');
}

#[test]
fn field_print_renders_one_line_per_row() {
    let f = field_from(&["####", "#X #", "# C#", "####"]);
    assert_eq!(f.print(), "####\n#X #\n# C#\n####\n");
}

#[test]
fn field_offsets_match_dimensions() {
    let f = field_from(&["####", "#X #", "# C#", "####"]);
    assert_eq!(f.after_print_cols_offset(), 4);
    assert_eq!(f.after_print_rows_offset(), 4);
}

#[test]
fn getters_report_the_construction_values() {
    let f = GameField::new(45, 25).unwrap();
    assert_eq!(f.cols(), 45);
    assert_eq!(f.rows(), 25);
    assert_eq!(f.player_pos(), (0, 0));
}
