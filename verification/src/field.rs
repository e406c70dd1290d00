//! The game itself: the grid of tiles with the state of play.

use vstd::prelude::*;
use rand::rngs::StdRng;
use crate::board::{playable, Board};
use crate::generate::{generate_field, lay_field};
use crate::grid::{all_mines, columns, layout, lemma_fresh_tiles, mine_free, rectangular};
use crate::tile::{GameState, Tile, TileState};

verus! {

/// A game of Minesweeper.
pub struct Field {
    screen_size: [u32; 2],
    width: u16,
    height: u16,
    tiles: Vec<Vec<Tile>>,
    game_state: GameState,
    last_mine: Option<(u16, u16)>,
}

impl View for Field {
    type V = Board;

    closed spec fn view(&self) -> Board {
        Board {
            screen_size: (self.screen_size[0] as int, self.screen_size[1] as int),
            width: self.width as int,
            height: self.height as int,
            tiles: columns(self.tiles@),
            game_state: self.game_state,
            last_mine: match self.last_mine {
                Some(cell) => Some((cell.0 as int, cell.1 as int)),
                None => None,
            },
        }
    }
}

impl Field {
    /// Starts a game on a grid of `width` columns and `height` rows. Each
    /// tile is independently a mine with a chance of `numerator` in
    /// `denominator`, drawn from `rng`.
    pub fn new(
        screen_size: [u32; 2],
        width: u16,
        height: u16,
        numerator: u32,
        denominator: u32,
        rng: &mut StdRng,
    ) -> (field: Field)
        requires
            width >= 1,
            height >= 1,
            denominator > 0,
            numerator <= denominator,
        ensures
            field@.wf(),
            field@.width == width,
            field@.height == height,
            field@ == Board::fresh(
                (screen_size[0] as int, screen_size[1] as int),
                layout(field@.tiles),
            ),
            numerator == 0 ==> mine_free(layout(field@.tiles)),
            numerator == denominator ==> all_mines(layout(field@.tiles)),
    {
        let generated_field = generate_field(width, height, numerator, denominator, rng);
        let field = Field {
            screen_size,
            width,
            height,
            tiles: generated_field,
            game_state: GameState::Running,
            last_mine: None,
        };
        proof {
            let mines = layout(field@.tiles);
            lemma_fresh_tiles(mines, width as int, height as int);
            Board::lemma_fresh_wf((screen_size[0] as int, screen_size[1] as int), mines);
        }
        field
    }

    /// Starts a game on the given mine layout, indexed `[column][row]`.
    /// Gives `None` where the layout is no rectangle of at least one tile, or
    /// a side is longer than sixteen bits can count.
    pub fn from_mines(screen_size: [u32; 2], mines: &Vec<Vec<bool>>) -> (field: Option<Field>)
        ensures
            field is Some <==> playable(columns(mines@)),
            field matches Some(f) ==> f@.wf() && f@ == Board::fresh(
                (screen_size[0] as int, screen_size[1] as int),
                columns(mines@),
            ),
    {
        let ghost plan = columns(mines@);
        if mines.len() < 1 || mines.len() > 65535 {
            return None;
        }
        let height: usize = mines[0].len();
        if height < 1 || height > 65535 {
            return None;
        }
        let mut x: usize = 0;
        while x < mines.len()
            invariant
                x <= mines.len(),
                1 <= mines.len(),
                plan == columns(mines@),
                height == plan[0].len(),
                forall|i: int| 0 <= i < x ==> (#[trigger] plan[i]).len() == height,
            decreases mines.len() - x,
        {
            if mines[x].len() != height {
                assert(plan[x as int].len() != height);
                return None;
            }
            x += 1;
        }
        let tiles = lay_field(mines.len() as u16, height as u16, mines);
        proof {
            Board::lemma_fresh_wf((screen_size[0] as int, screen_size[1] as int), plan);
        }
        Some(
            Field {
                screen_size,
                width: mines.len() as u16,
                height: height as u16,
                tiles,
                game_state: GameState::Running,
                last_mine: None,
            },
        )
    }

    /// Width and height of the screen in pixels.
    pub fn screen_size(&self) -> (size: [u32; 2])
        ensures
            size[0] == self@.screen_size.0,
            size[1] == self@.screen_size.1,
    {
        self.screen_size
    }

    /// The number of columns.
    pub fn width(&self) -> (width: u16)
        ensures
            width == self@.width,
    {
        self.width
    }

    /// The number of rows.
    pub fn height(&self) -> (height: u16)
        ensures
            height == self@.height,
    {
        self.height
    }

    /// How far the game has come.
    pub fn game_state(&self) -> (state: GameState)
        ensures
            state == self@.game_state,
    {
        self.game_state
    }

    /// The mine that ended the game, once one has.
    pub fn last_mine(&self) -> (cell: Option<(u16, u16)>)
        ensures
            cell is Some <==> self@.last_mine is Some,
            cell matches Some(c) ==> self@.last_mine == Some((c.0 as int, c.1 as int)),
    {
        self.last_mine
    }

    /// The tile at column `x`, row `y`.
    pub fn tile(&self, x: u16, y: u16) -> (tile: Tile)
        requires
            rectangular(self@.tiles, self@.width, self@.height),
            self@.in_bounds(x as int, y as int),
        ensures
            tile == self@.tiles[x as int][y as int],
    {
        self.tiles[x as usize][y as usize]
    }

    /// Ends the game as lost on the mine at column `x`, row `y`.
    pub(crate) fn set_game_over(&mut self, x: u16, y: u16)
        ensures
            final(self)@ == (Board {
                game_state: GameState::GameOver,
                last_mine: Some((x as int, y as int)),
                ..old(self)@
            }),
    {
        self.game_state = GameState::GameOver;
        self.last_mine = Some((x, y));
    }

    /// Ends the game as won.
    pub(crate) fn set_won(&mut self)
        ensures
            final(self)@ == (Board { game_state: GameState::Won, ..old(self)@ }),
    {
        self.game_state = GameState::Won;
    }

    /// Makes the tile at column `x`, row `y`, show `state`.
    pub(crate) fn set_state(&mut self, x: u16, y: u16, state: TileState)
        requires
            rectangular(old(self)@.tiles, old(self)@.width, old(self)@.height),
            old(self)@.in_bounds(x as int, y as int),
        ensures
            final(self)@ == old(self)@.with_state(x as int, y as int, state),
    {
        self.tiles[x as usize][y as usize].tile_state = state;
        assert(self@.tiles =~~= old(self)@.with_state(x as int, y as int, state).tiles);
    }
}

} // verus!
