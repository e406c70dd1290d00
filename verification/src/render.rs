//! What a renderer needs: a snapshot of the tiles, and for every tile the
//! sprite to draw and the place on the screen to draw it at.

use vstd::prelude::*;
use crate::board::Board;
use crate::field::Field;
use crate::grid::{layout, lemma_mines_around_bounds};
use crate::tile::{GameState, TileState};

verus! {

/// The side of a tile on the screen, in pixels.
pub const TILE_SIZE: u32 = 32;

/// The side of a sprite on the sprite sheet, in pixels.
pub const SPRITE_SIZE: u32 = 16;

/// What a renderer may know of one tile.
#[derive(Clone, Copy, Debug, PartialEq, Eq, Structural)]
pub struct Cell {
    /// What the tile shows.
    pub tile_state: TileState,
    /// The number of mines around the tile; it means something only where
    /// the tile is revealed.
    pub bomb_value: u8,
    /// Whether this tile is the mine that ended the game.
    pub is_detonated: bool,
}

/// A read-only picture of a game.
#[derive(Debug)]
pub struct Snapshot {
    /// How far the game has come.
    pub game_state: GameState,
    /// One cell for every tile, indexed `[column][row]`.
    pub cells: Vec<Vec<Cell>>,
}

/// One tile to draw: a square of `SPRITE_SIZE` pixels of the sprite sheet,
/// drawn as a square of `TILE_SIZE` pixels on the screen.
#[derive(Clone, Copy, Debug, PartialEq, Eq, Structural)]
pub struct Sprite {
    /// Left edge of the sprite on the sheet.
    pub src_x: u32,
    /// Top edge of the sprite on the sheet.
    pub src_y: u32,
    /// Left edge of the tile on the screen.
    pub x: u32,
    /// Top edge of the tile on the screen.
    pub y: u32,
}

impl Board {
    /// Whether the tile at `(x, y)` is the mine that ended the game.
    pub open spec fn is_detonated(self, x: int, y: int) -> bool {
        self.game_state == GameState::GameOver && self.last_mine == Some((x, y))
    }

    /// What a renderer may know of the tile at `(x, y)`.
    pub open spec fn cell(self, x: int, y: int) -> Cell {
        Cell {
            tile_state: self.tiles[x][y].tile_state,
            bomb_value: self.tiles[x][y].bomb_value,
            is_detonated: self.is_detonated(x, y),
        }
    }

    /// Whether the grid, drawn at `TILE_SIZE` pixels a tile, fits the screen.
    pub open spec fn fits_screen(self) -> bool {
        &&& self.width * TILE_SIZE <= self.screen_size.0
        &&& self.height * TILE_SIZE <= self.screen_size.1
    }

    /// The top left corner of the grid when it is centred on the screen.
    pub open spec fn translation(self) -> (int, int) {
        (
            (self.screen_size.0 - self.width * TILE_SIZE) / 2,
            (self.screen_size.1 - self.height * TILE_SIZE) / 2,
        )
    }

    /// The top left corner on the sprite sheet of the sprite for the tile at
    /// `(x, y)`. The first row of the sheet holds the hidden tile, the empty
    /// revealed tile, the flag, two unused sprites, the mine and the mine
    /// that ended the game; the second row holds the counts one to eight.
    pub open spec fn sprite_origin(self, x: int, y: int) -> (int, int) {
        let tile = self.tiles[x][y];
        if self.is_detonated(x, y) {
            (6 * SPRITE_SIZE, 0)
        } else {
            match tile.tile_state {
                TileState::Default => (0, 0),
                TileState::Sweeped => if tile.bomb_value == 0 {
                    (SPRITE_SIZE as int, 0)
                } else {
                    ((tile.bomb_value - 1) * SPRITE_SIZE, SPRITE_SIZE as int)
                },
                TileState::Flag => (2 * SPRITE_SIZE, 0),
                TileState::Mine => (5 * SPRITE_SIZE, 0),
            }
        }
    }

    /// The sprite to draw for the tile at `(x, y)` and where to draw it.
    pub open spec fn sprite(self, x: int, y: int) -> Sprite {
        Sprite {
            src_x: self.sprite_origin(x, y).0 as u32,
            src_y: self.sprite_origin(x, y).1 as u32,
            x: (self.translation().0 + x * TILE_SIZE) as u32,
            y: (self.translation().1 + y * TILE_SIZE) as u32,
        }
    }
}

impl Field {
    /// Whether the tile at column `x`, row `y`, is the mine that ended the game.
    pub fn is_detonated(&self, x: u16, y: u16) -> (detonated: bool)
        ensures
            detonated == self@.is_detonated(x as int, y as int),
    {
        match self.last_mine() {
            Some(cell) => self.game_state() == GameState::GameOver && cell.0 == x && cell.1 == y,
            None => false,
        }
    }

    /// A read-only picture of the game: how far it has come and, for every
    /// tile, what it shows, its count, and whether it ended the game.
    pub fn snapshot(&self) -> (shot: Snapshot)
        requires
            self@.wf(),
        ensures
            shot.game_state == self@.game_state,
            shot.cells@.len() == self@.width,
            forall|x: int|
                0 <= x < self@.width ==> (#[trigger] shot.cells@[x])@.len() == self@.height,
            forall|x: int, y: int|
                self@.in_bounds(x, y) ==> (#[trigger] shot.cells@[x]@[y]) == self@.cell(x, y),
    {
        let width = self.width();
        let height = self.height();
        let mut cells: Vec<Vec<Cell>> = Vec::new();
        let mut x: u16 = 0;
        while x < width
            invariant
                x <= width,
                width == self@.width,
                height == self@.height,
                self@.wf(),
                cells@.len() == x,
                forall|a: int| 0 <= a < x ==> (#[trigger] cells@[a])@.len() == height,
                forall|a: int, b: int|
                    0 <= a < x && 0 <= b < height ==> (#[trigger] cells@[a]@[b]) == self@.cell(
                        a,
                        b,
                    ),
            decreases width - x,
        {
            let mut column: Vec<Cell> = Vec::new();
            let mut y: u16 = 0;
            while y < height
                invariant
                    x < width,
                    y <= height,
                    width == self@.width,
                    height == self@.height,
                    self@.wf(),
                    column@.len() == y,
                    forall|b: int|
                        0 <= b < y ==> (#[trigger] column@[b]) == self@.cell(x as int, b),
                decreases height - y,
            {
                let tile = self.tile(x, y);
                column.push(
                    Cell {
                        tile_state: tile.tile_state,
                        bomb_value: tile.bomb_value,
                        is_detonated: self.is_detonated(x, y),
                    },
                );
                y += 1;
            }
            cells.push(column);
            x += 1;
        }
        Snapshot { game_state: self.game_state(), cells }
    }

    /// Whether the grid, drawn at `TILE_SIZE` pixels a tile, fits the screen.
    pub fn fits_screen(&self) -> (fits: bool)
        ensures
            fits == self@.fits_screen(),
    {
        let size = self.screen_size();
        self.width() as u32 * TILE_SIZE <= size[0] && self.height() as u32 * TILE_SIZE <= size[1]
    }

    /// The top left corner of the grid when it is centred on the screen.
    pub fn translation(&self) -> (corner: [u32; 2])
        requires
            self@.fits_screen(),
        ensures
            corner[0] == self@.translation().0,
            corner[1] == self@.translation().1,
    {
        let size = self.screen_size();
        [
            (size[0] - self.width() as u32 * TILE_SIZE) / 2,
            (size[1] - self.height() as u32 * TILE_SIZE) / 2,
        ]
    }

    /// The sprite for the tile at column `x`, row `y`, and where to draw it.
    pub fn sprite(&self, x: u16, y: u16) -> (sprite: Sprite)
        requires
            self@.wf(),
            self@.fits_screen(),
            self@.in_bounds(x as int, y as int),
        ensures
            sprite == self@.sprite(x as int, y as int),
    {
        let corner = self.translation();
        let tile = self.tile(x, y);
        proof {
            lemma_mines_around_bounds(layout(self@.tiles), x as int, y as int);
        }
        let (src_x, src_y): (u32, u32) = if self.is_detonated(x, y) {
            (6 * SPRITE_SIZE, 0)
        } else {
            match tile.tile_state {
                TileState::Default => (0, 0),
                TileState::Sweeped => if tile.bomb_value == 0 {
                    (SPRITE_SIZE, 0)
                } else {
                    ((tile.bomb_value as u32 - 1) * SPRITE_SIZE, SPRITE_SIZE)
                },
                TileState::Flag => (2 * SPRITE_SIZE, 0),
                TileState::Mine => (5 * SPRITE_SIZE, 0),
            }
        };
        Sprite {
            src_x,
            src_y,
            x: corner[0] + x as u32 * TILE_SIZE,
            y: corner[1] + y as u32 * TILE_SIZE,
        }
    }

    /// The sprites to draw, one for every tile, column by column.
    pub fn render(&self) -> (sprites: Vec<Vec<Sprite>>)
        requires
            self@.wf(),
            self@.fits_screen(),
        ensures
            sprites@.len() == self@.width,
            forall|x: int| 0 <= x < self@.width ==> (#[trigger] sprites@[x])@.len() == self@.height,
            forall|x: int, y: int|
                self@.in_bounds(x, y) ==> (#[trigger] sprites@[x]@[y]) == self@.sprite(x, y),
    {
        let width = self.width();
        let height = self.height();
        let mut sprites: Vec<Vec<Sprite>> = Vec::new();
        let mut x_coord: u16 = 0;
        while x_coord < width
            invariant
                x_coord <= width,
                width == self@.width,
                height == self@.height,
                self@.wf(),
                self@.fits_screen(),
                sprites@.len() == x_coord,
                forall|a: int| 0 <= a < x_coord ==> (#[trigger] sprites@[a])@.len() == height,
                forall|a: int, b: int|
                    0 <= a < x_coord && 0 <= b < height ==> (#[trigger] sprites@[a]@[b])
                        == self@.sprite(a, b),
            decreases width - x_coord,
        {
            let mut column: Vec<Sprite> = Vec::new();
            let mut y_coord: u16 = 0;
            while y_coord < height
                invariant
                    x_coord < width,
                    y_coord <= height,
                    width == self@.width,
                    height == self@.height,
                    self@.wf(),
                    self@.fits_screen(),
                    column@.len() == y_coord,
                    forall|b: int|
                        0 <= b < y_coord ==> (#[trigger] column@[b]) == self@.sprite(
                            x_coord as int,
                            b,
                        ),
                decreases height - y_coord,
            {
                column.push(self.sprite(x_coord, y_coord));
                y_coord += 1;
            }
            sprites.push(column);
            x_coord += 1;
        }
        sprites
    }
}

} // verus!
