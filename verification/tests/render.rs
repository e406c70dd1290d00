use minesweeper::field::Field;
use minesweeper::render::{Cell, Sprite, SPRITE_SIZE, TILE_SIZE};
use minesweeper::tile::{GameState, TileState};

fn board(screen_size: [u32; 2], rows: &[&str]) -> Field {
    let height = rows.len();
    let width = rows[0].len();
    let mut mines = vec![vec![false; height]; width];
    for (y, row) in rows.iter().enumerate() {
        for (x, sign) in row.chars().enumerate() {
            mines[x][y] = sign == '*';
        }
    }
    Field::from_mines(screen_size, &mines).unwrap()
}

#[test]
fn sizes_of_tiles_and_sprites() {
    assert_eq!(TILE_SIZE, 32);
    assert_eq!(SPRITE_SIZE, 16);
}

#[test]
fn the_grid_is_centred_on_the_screen() {
    let field = Field::from_mines([520, 520], &vec![vec![false; 16]; 16]).unwrap();
    assert!(field.fits_screen());
    assert_eq!(field.translation(), [4, 4]);
    let field = Field::from_mines([640, 481], &vec![vec![false; 3]; 10]).unwrap();
    assert!(field.fits_screen());
    assert_eq!(field.translation(), [160, 192]);
    let field = Field::from_mines([32, 64], &vec![vec![false; 2]; 1]).unwrap();
    assert!(field.fits_screen());
    assert_eq!(field.translation(), [0, 0]);
}

#[test]
fn a_grid_larger_than_the_screen_does_not_fit() {
    let field = Field::from_mines([511, 520], &vec![vec![false; 16]; 16]).unwrap();
    assert!(!field.fits_screen());
    let field = Field::from_mines([520, 511], &vec![vec![false; 16]; 16]).unwrap();
    assert!(!field.fits_screen());
    let field = Field::from_mines([512, 512], &vec![vec![false; 16]; 16]).unwrap();
    assert!(field.fits_screen());
    let field = Field::from_mines([u32::MAX, u32::MAX], &vec![vec![false; 65535]]).unwrap();
    assert!(field.fits_screen());
}

#[test]
fn snapshot_of_a_new_game() {
    let field = board([520, 520], &["*..", "..."]);
    let shot = field.snapshot();
    assert_eq!(shot.game_state, GameState::Running);
    assert_eq!(shot.cells.len(), 3);
    for (x, column) in shot.cells.iter().enumerate() {
        assert_eq!(column.len(), 2);
        for (y, cell) in column.iter().enumerate() {
            assert_eq!(cell.tile_state, TileState::Default);
            assert!(!cell.is_detonated);
            assert_eq!(cell.bomb_value, field.tile(x as u16, y as u16).bomb_value);
        }
    }
    assert_eq!(shot.cells[1][1].bomb_value, 1);
    assert_eq!(shot.cells[2][0].bomb_value, 0);
}

#[test]
fn snapshot_marks_the_mine_that_ended_the_game() {
    let mut field = board([520, 520], &["*.*", "..."]);
    field.flag_at(1, 1);
    field.reveal_at(2, 0);
    let shot = field.snapshot();
    assert_eq!(shot.game_state, GameState::GameOver);
    assert_eq!(shot.cells[2][0], Cell { tile_state: TileState::Mine, bomb_value: 0, is_detonated: true });
    assert_eq!(shot.cells[0][0], Cell { tile_state: TileState::Mine, bomb_value: 0, is_detonated: false });
    assert_eq!(shot.cells[1][0], Cell { tile_state: TileState::Sweeped, bomb_value: 2, is_detonated: false });
    assert_eq!(shot.cells[1][1], Cell { tile_state: TileState::Flag, bomb_value: 2, is_detonated: false });
    assert_eq!(shot.cells[0][1], Cell { tile_state: TileState::Sweeped, bomb_value: 1, is_detonated: false });
    assert!(field.is_detonated(2, 0));
    assert!(!field.is_detonated(0, 0));
    assert!(!field.is_detonated(1, 1));
}

#[test]
fn no_tile_is_detonated_while_the_game_runs() {
    let mut field = board([520, 520], &["*.", ".."]);
    assert!(!field.is_detonated(0, 0));
    field.reveal_at(1, 1);
    assert!(!field.is_detonated(0, 0));
    assert!(!field.is_detonated(1, 1));
}

#[test]
fn snapshot_does_not_change_the_game() {
    let mut field = board([520, 520], &["*..", "..."]);
    field.reveal_at(2, 0);
    let first = field.snapshot();
    let second = field.snapshot();
    assert_eq!(first.cells, second.cells);
    assert_eq!(first.game_state, second.game_state);
    assert_eq!(field.tile(2, 0).tile_state, TileState::Sweeped);
}

#[test]
fn sprites_of_a_new_game_are_hidden_tiles_in_place() {
    let field = board([100, 200], &["*.", "..", ".."]);
    assert_eq!(field.translation(), [18, 52]);
    let sprites = field.render();
    assert_eq!(sprites.len(), 2);
    for x in 0..2u32 {
        assert_eq!(sprites[x as usize].len(), 3);
        for y in 0..3u32 {
            assert_eq!(
                sprites[x as usize][y as usize],
                Sprite { src_x: 0, src_y: 0, x: 18 + 32 * x, y: 52 + 32 * y },
            );
        }
    }
}

#[test]
fn sprites_of_every_kind_of_tile() {
    let mut field = board([520, 520], &["*...*", ".....", "*.*..", ".....", "*.*.."]);
    field.flag_at(0, 4);
    field.flag_at(1, 4);
    field.reveal_at(4, 4);
    field.reveal_at(1, 3);
    field.reveal_at(0, 0);
    assert_eq!(field.game_state(), GameState::GameOver);
    let corner = field.translation();
    assert_eq!(corner, [180, 180]);
    let at = |x: u16, y: u16| field.sprite(x, y);
    let place = |x: u32, y: u32, src_x: u32, src_y: u32| Sprite {
        src_x,
        src_y,
        x: 180 + 32 * x,
        y: 180 + 32 * y,
    };
    assert_eq!(at(0, 0), place(0, 0, 96, 0));
    assert_eq!(at(4, 0), place(4, 0, 80, 0));
    assert_eq!(at(0, 2), place(0, 2, 80, 0));
    assert_eq!(at(0, 4), place(0, 4, 32, 0));
    assert_eq!(at(1, 4), place(1, 4, 32, 0));
    assert_eq!(at(4, 4), place(4, 4, 16, 0));
    assert_eq!(at(1, 0), place(1, 0, 0, 16));
    assert_eq!(at(1, 1), place(1, 1, 32, 16));
    assert_eq!(at(1, 3), place(1, 3, 48, 16));
    assert_eq!(at(3, 1), place(3, 1, 16, 16));
    let sprites = field.render();
    for x in 0..5u16 {
        for y in 0..5u16 {
            assert_eq!(sprites[x as usize][y as usize], field.sprite(x, y));
        }
    }
}

#[test]
fn sprites_of_the_counts_one_to_eight() {
    let mut field = board([520, 520], &["***", "*.*", "***"]);
    field.flag_at(0, 0);
    field.reveal_at(0, 1);
    assert_eq!(field.game_state(), GameState::GameOver);
    assert_eq!(field.sprite(1, 1).src_x, 112);
    assert_eq!(field.sprite(1, 1).src_y, 16);
    assert_eq!(field.sprite(0, 1).src_x, 96);
    assert_eq!(field.sprite(0, 1).src_y, 0);
    assert_eq!(field.sprite(0, 0).src_x, 32);
    for (mines, src_x) in [(1usize, 0u32), (2, 16), (3, 32), (4, 48), (5, 64), (6, 80), (7, 96), (8, 112)] {
        let mut rows = vec![vec![false; 3]; 3];
        let around = [(0, 0), (1, 0), (2, 0), (0, 1), (2, 1), (0, 2), (1, 2), (2, 2)];
        for cell in 0..mines {
            rows[around[cell].0][around[cell].1] = true;
        }
        let mut field = Field::from_mines([96, 96], &rows).unwrap();
        field.reveal_at(1, 1);
        assert_eq!(field.sprite(1, 1), Sprite { src_x, src_y: 16, x: 32, y: 32 });
    }
}
