use minesweeper::field::Field;
use minesweeper::tile::{Button, GameState, Tile, TileState};
use rand::rngs::StdRng;
use rand::SeedableRng;

fn board(rows: &[&str]) -> Field {
    let height = rows.len();
    let width = rows[0].len();
    let mut mines = vec![vec![false; height]; width];
    for (y, row) in rows.iter().enumerate() {
        for (x, sign) in row.chars().enumerate() {
            mines[x][y] = sign == '*';
        }
    }
    Field::from_mines([520, 520], &mines).unwrap()
}

fn shown(field: &Field) -> Vec<String> {
    let mut rows = Vec::new();
    for y in 0..field.height() {
        let mut row = String::new();
        for x in 0..field.width() {
            let tile = field.tile(x, y);
            row.push(match tile.tile_state {
                TileState::Default => '.',
                TileState::Flag => 'F',
                TileState::Mine => '*',
                TileState::Sweeped => (b'0' + tile.bomb_value) as char,
            });
        }
        rows.push(row);
    }
    rows
}

fn tiles(field: &Field) -> Vec<Vec<Tile>> {
    (0..field.width()).map(|x| (0..field.height()).map(|y| field.tile(x, y)).collect()).collect()
}

#[test]
fn flood_fill_opens_everything_around_a_single_corner_mine() {
    let mut field = board(&["*....", ".....", ".....", ".....", "....."]);
    field.reveal_at(4, 4);
    assert_eq!(shown(&field), vec![".1000", "11000", "00000", "00000", "00000"]);
    let mut revealed = 0;
    for x in 0..5 {
        for y in 0..5 {
            if field.tile(x, y).tile_state == TileState::Sweeped {
                revealed += 1;
            }
        }
    }
    assert_eq!(revealed, 24);
    assert_eq!(field.tile(0, 0).tile_state, TileState::Default);
    assert_eq!(field.last_mine(), None);
}

#[test]
fn flood_fill_stops_at_the_numbered_border() {
    let mut field = board(&["...*..."]);
    field.reveal_at(0, 0);
    assert_eq!(shown(&field), vec!["001...."]);
    assert_eq!(field.game_state(), GameState::Running);
    field.reveal_at(6, 0);
    assert_eq!(shown(&field), vec!["001.100"]);
    assert_eq!(field.game_state(), GameState::Won);
}

#[test]
fn flood_fill_reveals_the_region_and_its_border_only() {
    let mut field = board(&[
        "......",
        "......",
        "..**..",
        "......",
        "......",
        "*.....",
    ]);
    field.reveal_at(0, 0);
    assert_eq!(
        shown(&field),
        vec!["000000", "012210", "01..10", "012210", "110000", ".10000"],
    );
    assert_eq!(field.game_state(), GameState::Won);
}

#[test]
fn flood_fill_does_not_cross_a_wall_of_numbers() {
    let mut field = board(&[
        "...*...",
        "...*...",
        "...*...",
    ]);
    field.reveal_at(0, 1);
    assert_eq!(shown(&field), vec!["002....", "003....", "002...."]);
    assert_eq!(field.game_state(), GameState::Running);
}

#[test]
fn flood_fill_passes_diagonally() {
    let mut field = board(&[
        "..*.",
        "..**",
        "**..",
        ".*..",
    ]);
    field.reveal_at(0, 0);
    assert_eq!(shown(&field), vec!["02..", "24..", "....", "...."]);
    field.reveal_at(3, 3);
    assert_eq!(shown(&field), vec!["02..", "24..", "..42", "..20"]);
}

#[test]
fn a_numbered_tile_is_revealed_alone() {
    let mut field = board(&["*....", ".....", ".....", ".....", "....."]);
    field.reveal_at(1, 1);
    assert_eq!(shown(&field), vec![".....", ".1...", ".....", ".....", "....."]);
    assert_eq!(field.game_state(), GameState::Running);
}

#[test]
fn a_flag_stops_the_flood() {
    let mut field = board(&[".....", "....*"]);
    field.flag_at(1, 0);
    field.flag_at(1, 1);
    field.reveal_at(0, 0);
    assert_eq!(shown(&field), vec!["0F...", "0F..."]);
    field.reveal_at(2, 0);
    assert_eq!(shown(&field), vec!["0F01.", "0F01."]);
    assert_eq!(field.game_state(), GameState::Running);
}

#[test]
fn a_tile_unflagged_beside_a_revealed_region_stays_hidden() {
    let mut field = board(&["....*"]);
    field.flag_at(1, 0);
    field.reveal_at(0, 0);
    assert_eq!(shown(&field), vec!["0F..."]);
    field.flag_at(1, 0);
    assert_eq!(shown(&field), vec!["0...."]);
    field.reveal_at(0, 0);
    assert_eq!(shown(&field), vec!["0...."]);
    field.reveal_at(1, 0);
    assert_eq!(shown(&field), vec!["0001."]);
    assert_eq!(field.game_state(), GameState::Won);
}

#[test]
fn reveal_twice_is_a_no_op() {
    let mut field = board(&["*....", ".....", ".....", ".....", "....."]);
    field.reveal_at(1, 1);
    let once = tiles(&field);
    field.reveal_at(1, 1);
    assert_eq!(tiles(&field), once);
    assert_eq!(field.game_state(), GameState::Running);
    assert_eq!(field.last_mine(), None);
}

#[test]
fn flag_twice_restores_the_tile() {
    let mut field = board(&["*..", "...", "..."]);
    let before = tiles(&field);
    field.flag_at(0, 0);
    assert_eq!(field.tile(0, 0).tile_state, TileState::Flag);
    field.flag_at(0, 0);
    assert_eq!(tiles(&field), before);
    field.flag_at(2, 1);
    field.flag_at(2, 1);
    assert_eq!(tiles(&field), before);
}

#[test]
fn flag_changes_the_state_only() {
    let mut field = board(&["*..", "...", "..."]);
    field.flag_at(0, 0);
    assert_eq!(field.tile(0, 0), Tile { bomb_value: 0, tile_state: TileState::Flag, has_bomb: true });
    field.flag_at(1, 1);
    assert_eq!(field.tile(1, 1), Tile { bomb_value: 1, tile_state: TileState::Flag, has_bomb: false });
    assert_eq!(shown(&field), vec!["F..", ".F.", "..."]);
    assert_eq!(field.game_state(), GameState::Running);
}

#[test]
fn flag_of_a_revealed_tile_is_a_no_op() {
    let mut field = board(&["*..", "...", "..."]);
    field.reveal_at(1, 1);
    let before = tiles(&field);
    field.flag_at(1, 1);
    assert_eq!(tiles(&field), before);
    assert_eq!(field.tile(1, 1).tile_state, TileState::Sweeped);
}

#[test]
fn a_flagged_tile_is_protected_from_reveal() {
    let mut field = board(&["*..", "...", "..."]);
    field.flag_at(0, 0);
    field.flag_at(1, 0);
    let before = tiles(&field);
    field.reveal_at(0, 0);
    field.reveal_at(1, 0);
    assert_eq!(tiles(&field), before);
    assert_eq!(field.game_state(), GameState::Running);
    assert_eq!(field.last_mine(), None);
    field.flag_at(1, 0);
    field.reveal_at(1, 0);
    assert_eq!(field.tile(1, 0).tile_state, TileState::Sweeped);
    field.flag_at(0, 0);
    field.reveal_at(0, 0);
    assert_eq!(field.game_state(), GameState::GameOver);
}

#[test]
fn revealing_a_mine_loses_the_game() {
    let mut field = board(&["*..*", "....", "....", "...*"]);
    field.flag_at(3, 0);
    field.flag_at(2, 2);
    field.reveal_at(0, 1);
    field.reveal_at(0, 0);
    assert_eq!(field.game_state(), GameState::GameOver);
    assert_eq!(field.last_mine(), Some((0, 0)));
    assert_eq!(field.tile(0, 0).tile_state, TileState::Mine);
    assert_eq!(shown(&field), vec!["*11F", "1111", "00F1", "001*"]);
    for x in 0..4 {
        for y in 0..4 {
            assert_ne!(field.tile(x, y).tile_state, TileState::Default);
        }
    }
}

#[test]
fn losing_on_a_board_full_of_mines_shows_every_mine() {
    let mut field = board(&["***", "***"]);
    field.reveal_at(1, 1);
    assert_eq!(field.game_state(), GameState::GameOver);
    assert_eq!(field.last_mine(), Some((1, 1)));
    assert_eq!(shown(&field), vec!["***", "***"]);
}

#[test]
fn nothing_changes_after_a_lost_game() {
    let mut field = board(&["*..*", "....", "....", "...*"]);
    field.flag_at(3, 0);
    field.reveal_at(0, 0);
    assert_eq!(field.game_state(), GameState::GameOver);
    let before = tiles(&field);
    for x in 0..4 {
        for y in 0..4 {
            field.reveal_at(x, y);
            field.flag_at(x, y);
            field.mouse_release(x as i32, y as i32, Button::MouseLeft);
            field.mouse_press(x as i32, y as i32, Button::MouseRight);
        }
    }
    assert_eq!(tiles(&field), before);
    assert_eq!(field.game_state(), GameState::GameOver);
    assert_eq!(field.last_mine(), Some((0, 0)));
}

#[test]
fn a_flag_left_on_the_board_at_the_loss_stays() {
    let mut field = board(&["*."]);
    field.flag_at(1, 0);
    field.reveal_at(0, 0);
    assert_eq!(field.game_state(), GameState::GameOver);
    assert_eq!(shown(&field), vec!["*F"]);
    field.flag_at(1, 0);
    assert_eq!(shown(&field), vec!["*F"]);
    field.mouse_press(1, 0, Button::MouseRight);
    assert_eq!(shown(&field), vec!["*F"]);
    field.flag_at(0, 0);
    assert_eq!(shown(&field), vec!["*F"]);
    assert_eq!(field.last_mine(), Some((0, 0)));
}

#[test]
fn no_flag_is_set_after_a_won_game() {
    let mut field = board(&["*.."]);
    field.reveal_at(2, 0);
    assert_eq!(field.game_state(), GameState::Won);
    field.flag_at(0, 0);
    assert_eq!(shown(&field), vec![".10"]);
    field.flag_at(1, 0);
    assert_eq!(shown(&field), vec![".10"]);
}

#[test]
fn nothing_changes_after_a_won_game() {
    let mut field = board(&["*....", ".....", ".....", ".....", "....."]);
    field.reveal_at(4, 4);
    assert_eq!(field.game_state(), GameState::Won);
    let before = tiles(&field);
    field.reveal_at(0, 0);
    field.flag_at(0, 0);
    field.mouse_release(0, 0, Button::MouseLeft);
    field.mouse_press(0, 0, Button::MouseRight);
    assert_eq!(tiles(&field), before);
    assert_eq!(field.game_state(), GameState::Won);
    assert_eq!(field.last_mine(), None);
    assert_eq!(field.tile(0, 0).tile_state, TileState::Default);
}

#[test]
fn a_single_tile_without_a_mine_is_revealed_in_one_call() {
    let mut rng = StdRng::seed_from_u64(0);
    let mut field = Field::new([520, 520], 1, 1, 0, 1, &mut rng);
    assert_eq!(field.tile(0, 0), Tile { bomb_value: 0, tile_state: TileState::Default, has_bomb: false });
    field.reveal_at(0, 0);
    assert_eq!(field.tile(0, 0), Tile { bomb_value: 0, tile_state: TileState::Sweeped, has_bomb: false });
    assert!(field.all_safe_swept());
    assert_eq!(field.game_state(), GameState::Won);
    assert_eq!(field.last_mine(), None);
}

#[test]
fn a_single_tile_with_a_mine_loses_in_one_call() {
    let mut rng = StdRng::seed_from_u64(0);
    let mut field = Field::new([520, 520], 1, 1, 1, 1, &mut rng);
    assert!(field.tile(0, 0).has_bomb);
    assert!(field.all_safe_swept());
    assert_eq!(field.game_state(), GameState::Running);
    field.reveal_at(0, 0);
    assert_eq!(field.tile(0, 0).tile_state, TileState::Mine);
    assert_eq!(field.game_state(), GameState::GameOver);
    assert_eq!(field.last_mine(), Some((0, 0)));
}

#[test]
fn a_board_without_mines_is_won_by_the_first_reveal() {
    let mut rng = StdRng::seed_from_u64(4);
    let mut field = Field::new([520, 520], 16, 16, 0, 4, &mut rng);
    field.reveal_at(7, 9);
    for x in 0..16 {
        for y in 0..16 {
            assert_eq!(
                field.tile(x, y),
                Tile { bomb_value: 0, tile_state: TileState::Sweeped, has_bomb: false },
            );
        }
    }
    assert_eq!(field.game_state(), GameState::Won);
}

#[test]
fn the_game_is_won_when_the_last_safe_tile_is_revealed() {
    let mut field = board(&["*.", ".."]);
    assert!(!field.all_safe_swept());
    field.reveal_at(1, 0);
    assert_eq!(field.game_state(), GameState::Running);
    field.reveal_at(0, 1);
    assert_eq!(field.game_state(), GameState::Running);
    assert!(!field.all_safe_swept());
    field.flag_at(0, 0);
    field.reveal_at(1, 1);
    assert!(field.all_safe_swept());
    assert_eq!(field.game_state(), GameState::Won);
    assert_eq!(shown(&field), vec!["F1", "11"]);
}

#[test]
fn flagging_does_not_win_the_game() {
    let mut field = board(&["*.", ".."]);
    field.reveal_at(1, 0);
    field.reveal_at(0, 1);
    field.reveal_at(1, 1);
    assert_eq!(field.game_state(), GameState::Won);
    let mut field = board(&["**", "**"]);
    field.flag_at(0, 0);
    field.flag_at(0, 0);
    assert_eq!(field.game_state(), GameState::Running);
}

#[test]
fn a_large_open_board_does_not_exhaust_the_stack() {
    let mines = vec![vec![false; 600]; 600];
    let mut field = Field::from_mines([520, 520], &mines).unwrap();
    field.reveal_at(0, 0);
    assert_eq!(field.game_state(), GameState::Won);
    assert_eq!(field.tile(599, 599).tile_state, TileState::Sweeped);
    assert_eq!(field.tile(300, 17).tile_state, TileState::Sweeped);
}

#[test]
fn mouse_release_reveals_with_the_left_button_only() {
    let mut field = board(&["*..", "...", "..."]);
    let before = tiles(&field);
    field.mouse_release(1, 1, Button::MouseRight);
    field.mouse_release(1, 1, Button::Other);
    assert_eq!(tiles(&field), before);
    field.mouse_release(1, 1, Button::MouseLeft);
    assert_eq!(shown(&field), vec!["...", ".1.", "..."]);
    field.mouse_release(0, 0, Button::MouseLeft);
    assert_eq!(field.game_state(), GameState::GameOver);
    assert_eq!(field.last_mine(), Some((0, 0)));
}

#[test]
fn mouse_press_flags_with_the_right_button_only() {
    let mut field = board(&["*..", "...", "..."]);
    let before = tiles(&field);
    field.mouse_press(1, 1, Button::MouseLeft);
    field.mouse_press(1, 1, Button::Other);
    assert_eq!(tiles(&field), before);
    field.mouse_press(1, 1, Button::MouseRight);
    assert_eq!(shown(&field), vec!["...", ".F.", "..."]);
    field.mouse_press(1, 1, Button::MouseRight);
    assert_eq!(tiles(&field), before);
}

#[test]
fn mouse_events_outside_the_grid_are_ignored() {
    let mut field = board(&["*..", "...", "..."]);
    let before = tiles(&field);
    for (x, y) in [(-1, 0), (0, -1), (3, 0), (0, 3), (3, 3), (-1, -1), (i32::MIN, 0), (0, i32::MAX), (65536, 0)] {
        field.mouse_release(x, y, Button::MouseLeft);
        field.mouse_press(x, y, Button::MouseRight);
    }
    assert_eq!(tiles(&field), before);
    assert_eq!(field.game_state(), GameState::Running);
}

#[test]
fn mouse_release_wins_like_a_reveal() {
    let mut field = board(&["."]);
    field.mouse_release(0, 0, Button::MouseLeft);
    assert_eq!(field.game_state(), GameState::Won);
}

struct Rules {
    tiles: Vec<Vec<Tile>>,
    game_state: GameState,
    last_mine: Option<(u16, u16)>,
}

impl Rules {
    fn of(field: &Field) -> Rules {
        Rules { tiles: tiles(field), game_state: field.game_state(), last_mine: field.last_mine() }
    }

    fn inside(&self, x: i64, y: i64) -> bool {
        x >= 0 && y >= 0 && (x as usize) < self.tiles.len() && (y as usize) < self.tiles[0].len()
    }

    fn reveal_tile(&mut self, x: i64, y: i64) {
        let tile = self.tiles[x as usize][y as usize];
        if tile.tile_state == TileState::Sweeped || tile.tile_state == TileState::Flag {
            return;
        }
        if tile.has_bomb {
            self.tiles[x as usize][y as usize].tile_state = TileState::Mine;
            if self.game_state == GameState::Running {
                self.game_state = GameState::GameOver;
                self.last_mine = Some((x as u16, y as u16));
                for a in 0..self.tiles.len() {
                    for b in 0..self.tiles[0].len() {
                        self.reveal_tile(a as i64, b as i64);
                    }
                }
            }
            return;
        }
        self.tiles[x as usize][y as usize].tile_state = TileState::Sweeped;
        if tile.bomb_value == 0 {
            for dx in -1..2 {
                for dy in -1..2 {
                    if (dx != 0 || dy != 0) && self.inside(x + dx, y + dy) {
                        self.reveal_tile(x + dx, y + dy);
                    }
                }
            }
        }
    }

    fn reveal_at(&mut self, x: u16, y: u16) {
        if self.game_state != GameState::Running {
            return;
        }
        let tile = self.tiles[x as usize][y as usize];
        self.reveal_tile(x as i64, y as i64);
        let cleared = self
            .tiles
            .iter()
            .all(|column| column.iter().all(|t| t.has_bomb || t.tile_state == TileState::Sweeped));
        if tile.tile_state == TileState::Default && !tile.has_bomb && cleared {
            self.game_state = GameState::Won;
        }
    }

    fn flag_at(&mut self, x: u16, y: u16) {
        if self.game_state != GameState::Running {
            return;
        }
        let tile = &mut self.tiles[x as usize][y as usize];
        if tile.tile_state == TileState::Default {
            tile.tile_state = TileState::Flag;
        } else if tile.tile_state == TileState::Flag {
            tile.tile_state = TileState::Default;
        }
    }
}

#[test]
fn random_games_follow_the_recursive_rules() {
    let mut lost = 0;
    let mut won = 0;
    for seed in 0..300u64 {
        let mut rng = StdRng::seed_from_u64(seed);
        let width = 1 + (seed % 9) as u16;
        let height = 1 + (seed / 9 % 8) as u16;
        let mut field = Field::new([520, 520], width, height, 1 + (seed % 2) as u32, 8, &mut rng);
        let mut rules = Rules::of(&field);
        let mut step = seed.wrapping_mul(6364136223846793005).wrapping_add(1442695040888963407);
        for _ in 0..40 {
            step = step.wrapping_mul(6364136223846793005).wrapping_add(1442695040888963407);
            let x = ((step >> 33) % width as u64) as u16;
            let y = ((step >> 17) % height as u64) as u16;
            if (step >> 50) % 4 == 0 {
                field.flag_at(x, y);
                rules.flag_at(x, y);
            } else {
                field.reveal_at(x, y);
                rules.reveal_at(x, y);
            }
            assert_eq!(tiles(&field), rules.tiles, "seed {}", seed);
            assert_eq!(field.game_state(), rules.game_state, "seed {}", seed);
            assert_eq!(field.last_mine(), rules.last_mine, "seed {}", seed);
        }
        match field.game_state() {
            GameState::GameOver => lost += 1,
            GameState::Won => won += 1,
            GameState::Running => {}
        }
    }
    assert!(lost > 20, "{} games lost", lost);
    assert!(won > 20, "{} games won", won);
}
