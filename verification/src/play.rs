//! The moves of the game: revealing and flagging tiles, by cell or from a
//! button event.

use vstd::prelude::*;
use crate::board::{uncovered, Board};
use crate::field::Field;
use crate::grid::{outof_bounds_check, rectangular};
use crate::tile::{Button, GameState, TileState};

verus! {

/// `cur` is `start`, after the game has ended, with some of its hidden tiles
/// uncovered.
spec fn uncovering(start: Board, cur: Board) -> bool {
    &&& cur.screen_size == start.screen_size
    &&& cur.width == start.width
    &&& cur.height == start.height
    &&& cur.game_state == start.game_state
    &&& cur.last_mine == start.last_mine
    &&& cur.game_state == GameState::GameOver
    &&& start.grid_wf()
    &&& cur.grid_wf()
    &&& forall|x: int, y: int|
        start.in_bounds(x, y) ==> #[trigger] cur.tiles[x][y] == start.tiles[x][y]
            || cur.tiles[x][y] == uncovered(start.tiles[x][y])
}

/// Uncovering one more tile after the end of the game goes on towards the
/// board with every hidden tile uncovered, and hides nothing again.
proof fn lemma_uncover_step(start: Board, cur: Board, x: int, y: int)
    requires
        uncovering(start, cur),
        cur.in_bounds(x, y),
    ensures
        uncovering(start, cur.reveal_tile(x, y)),
        cur.reveal_tile(x, y).tiles[x][y].tile_state != TileState::Default,
        forall|a: int, b: int|
            cur.in_bounds(a, b) && cur.tiles[a][b].tile_state != TileState::Default ==> (
            #[trigger] cur.reveal_tile(x, y).tiles[a][b]).tile_state != TileState::Default,
{
    let next = cur.reveal_tile(x, y);
    let tile = cur.tiles[x][y];
    cur.lemma_reveal_tile_grid_wf(x, y);
    if tile.tile_state == TileState::Sweeped || tile.tile_state == TileState::Flag {
    } else if tile.has_bomb {
        assert forall|a: int, b: int| start.in_bounds(a, b) implies #[trigger] next.tiles[a][b]
            == start.tiles[a][b] || next.tiles[a][b] == uncovered(start.tiles[a][b]) by {
            assert(cur.tiles[a][b] == start.tiles[a][b] || cur.tiles[a][b] == uncovered(
                start.tiles[a][b],
            ));
        }
    } else {
        cur.lemma_flood_start(x, y);
        assert forall|a: int, b: int| start.in_bounds(a, b) implies #[trigger] next.tiles[a][b]
            == start.tiles[a][b] || next.tiles[a][b] == uncovered(start.tiles[a][b]) by {
            assert(cur.tiles[a][b] == start.tiles[a][b] || cur.tiles[a][b] == uncovered(
                start.tiles[a][b],
            ));
            if cur.flood(x, y, a, b) {
                cur.lemma_flood_hidden(x, y, a, b);
                cur.lemma_flood_safe(x, y, a, b);
            }
        }
    }
}

impl Field {
    /// Uncovers the tile at column `x`, row `y`. Nothing happens once the
    /// game is won. A revealed or marked tile stays as it is. A mine is
    /// shown; if the game was running, it is over, and every hidden tile is
    /// uncovered. Any other tile is revealed, and a cascade starts from it.
    /// On a lost game this still uncovers a hidden tile: it is the step by
    /// which a loss shows the whole board.
    pub(crate) fn reveal_tile(&mut self, x: u16, y: u16)
        requires
            old(self)@.grid_wf(),
            old(self)@.in_bounds(x as int, y as int),
        ensures
            final(self)@ == old(self)@.reveal_tile(x as int, y as int),
            final(self)@.grid_wf(),
        decreases
                (if old(self)@.game_state == GameState::Running {
                    2int
                } else {
                    0int
                }),
    {
        proof {
            old(self)@.lemma_reveal_tile_grid_wf(x as int, y as int);
        }
        if self.game_state() == GameState::Won {
            return ;
        }
        let tile = self.tile(x, y);
        if tile.tile_state == TileState::Sweeped {
            return ;
        }
        if tile.tile_state == TileState::Flag {
            return ;
        }
        if tile.has_bomb {
            proof {
                old(self)@.lemma_with_state_grid_wf(x as int, y as int, TileState::Mine);
            }
            self.set_state(x, y, TileState::Mine);
            if self.game_state() == GameState::Running {
                self.set_game_over(x, y);
                self.reveal_all();
            }
            return ;
        }
        self.cascade(x, y);
    }

    /// Uncovers every tile that is still hidden, once the game is lost.
    pub(crate) fn reveal_all(&mut self)
        requires
            old(self)@.grid_wf(),
            old(self)@.game_state == GameState::GameOver,
        ensures
            final(self)@ == old(self)@.reveal_all(),
        decreases 1int,
    {
        let ghost start = self@;
        let width = self.width();
        let height = self.height();
        let mut x_coord: u16 = 0;
        while x_coord < width
            invariant
                x_coord <= width,
                width == start.width,
                height == start.height,
                uncovering(start, self@),
                forall|a: int, b: int|
                    0 <= a < x_coord && 0 <= b < height ==> (
                    #[trigger] self@.tiles[a][b]).tile_state != TileState::Default,
            decreases width - x_coord,
        {
            let mut y_coord: u16 = 0;
            while y_coord < height
                invariant
                    x_coord < width,
                    y_coord <= height,
                    width == start.width,
                    height == start.height,
                    uncovering(start, self@),
                    forall|a: int, b: int|
                        0 <= a < x_coord && 0 <= b < height ==> (
                        #[trigger] self@.tiles[a][b]).tile_state != TileState::Default,
                    forall|b: int|
                        0 <= b < y_coord ==> (#[trigger] self@.tiles[x_coord as int][b]).tile_state
                            != TileState::Default,
                decreases height - y_coord,
            {
                proof {
                    lemma_uncover_step(start, self@, x_coord as int, y_coord as int);
                }
                self.reveal_tile(x_coord, y_coord);
                y_coord += 1;
            }
            x_coord += 1;
        }
        proof {
            let cur = self@;
            let goal = start.reveal_all();
            assert forall|a: int| 0 <= a < start.width implies cur.tiles[a] =~= goal.tiles[a] by {}
            assert(cur.tiles =~= goal.tiles);
        }
    }

    /// Toggles the mark on the tile at column `x`, row `y`, while the game
    /// is running: a hidden tile is marked, a marked one is hidden again.
    /// A revealed tile stays as it is, and so does every tile of a game that
    /// has ended.
    pub(crate) fn flag_tile(&mut self, x: u16, y: u16)
        requires
            rectangular(old(self)@.tiles, old(self)@.width, old(self)@.height),
            old(self)@.in_bounds(x as int, y as int),
        ensures
            final(self)@ == old(self)@.flag_at(x as int, y as int),
    {
        if self.game_state() != GameState::Running {
            return ;
        }
        let tile = self.tile(x, y);
        if tile.tile_state == TileState::Default {
            self.set_state(x, y, TileState::Flag);
        } else if tile.tile_state == TileState::Flag {
            self.set_state(x, y, TileState::Default);
        }
    }

    /// Whether every tile without a mine is revealed.
    pub fn all_safe_swept(&self) -> (swept: bool)
        requires
            rectangular(self@.tiles, self@.width, self@.height),
        ensures
            swept == self@.all_safe_swept(),
    {
        let width = self.width();
        let height = self.height();
        let mut x: u16 = 0;
        while x < width
            invariant
                x <= width,
                width == self@.width,
                height == self@.height,
                rectangular(self@.tiles, self@.width, self@.height),
                forall|a: int, b: int|
                    0 <= a < x && 0 <= b < height && !(#[trigger] self@.tiles[a][b]).has_bomb
                        ==> self@.tiles[a][b].tile_state == TileState::Sweeped,
            decreases width - x,
        {
            let mut y: u16 = 0;
            while y < height
                invariant
                    x < width,
                    y <= height,
                    width == self@.width,
                    height == self@.height,
                    rectangular(self@.tiles, self@.width, self@.height),
                    forall|b: int|
                        0 <= b < y && !(#[trigger] self@.tiles[x as int][b]).has_bomb
                            ==> self@.tiles[x as int][b].tile_state == TileState::Sweeped,
                decreases height - y,
            {
                let tile = self.tile(x, y);
                if !tile.has_bomb && tile.tile_state != TileState::Sweeped {
                    return false;
                }
                y += 1;
            }
            x += 1;
        }
        true
    }

    /// The player reveals the tile at `column`, `row`. Nothing happens unless
    /// the game is running. A revealed or marked tile stays as it is. A mine
    /// ends the game: it is recorded and every hidden tile is uncovered. Any
    /// other tile is revealed with all that the cascade from it reaches, and
    /// the game is won if no tile without a mine is left unrevealed.
    pub fn reveal_at(&mut self, column: u16, row: u16)
        requires
            old(self)@.wf(),
            old(self)@.in_bounds(column as int, row as int),
        ensures
            final(self)@ == old(self)@.reveal_at(column as int, row as int),
            final(self)@.wf(),
            old(self)@.game_state == GameState::Running
                ==> final(self)@.tiles[column as int][row as int].tile_state
                != TileState::Default,
    {
        proof {
            old(self)@.lemma_reveal_at_wf(column as int, row as int);
            old(self)@.lemma_reveal_at_shows(column as int, row as int);
        }
        if self.game_state() != GameState::Running {
            return ;
        }
        let tile = self.tile(column, row);
        self.reveal_tile(column, row);
        if tile.tile_state == TileState::Default && !tile.has_bomb && self.all_safe_swept() {
            self.set_won();
        }
    }

    /// The player flags the tile at `column`, `row`. Nothing happens unless
    /// the game is running. A hidden tile is marked, a marked one is hidden
    /// again, a revealed one stays as it is.
    pub fn flag_at(&mut self, column: u16, row: u16)
        requires
            old(self)@.wf(),
            old(self)@.in_bounds(column as int, row as int),
        ensures
            final(self)@ == old(self)@.flag_at(column as int, row as int),
            final(self)@.wf(),
    {
        proof {
            old(self)@.lemma_flag_at_wf(column as int, row as int);
        }
        self.flag_tile(column, row);
    }

    /// A button was released over the cell `(x_pos, y_pos)`, which may lie
    /// outside the grid. The left mouse button reveals the tile there.
    pub fn mouse_release(&mut self, x_pos: i32, y_pos: i32, button: Button)
        requires
            old(self)@.wf(),
        ensures
            final(self)@ == (if button == Button::MouseLeft && old(self)@.in_bounds(
                x_pos as int,
                y_pos as int,
            ) {
                old(self)@.reveal_at(x_pos as int, y_pos as int)
            } else {
                old(self)@
            }),
            final(self)@.wf(),
    {
        if self.game_state() != GameState::Running {
            return ;
        }
        if outof_bounds_check(x_pos, y_pos, self.width() as i32, self.height() as i32) {
            return ;
        }
        if button == Button::MouseLeft {
            self.reveal_at(x_pos as u16, y_pos as u16);
        }
    }

    /// A button was pressed over the cell `(x_pos, y_pos)`, which may lie
    /// outside the grid. The right mouse button flags the tile there.
    pub fn mouse_press(&mut self, x_pos: i32, y_pos: i32, button: Button)
        requires
            old(self)@.wf(),
        ensures
            final(self)@ == (if button == Button::MouseRight && old(self)@.in_bounds(
                x_pos as int,
                y_pos as int,
            ) {
                old(self)@.flag_at(x_pos as int, y_pos as int)
            } else {
                old(self)@
            }),
            final(self)@.wf(),
    {
        if self.game_state() != GameState::Running {
            return ;
        }
        if outof_bounds_check(x_pos, y_pos, self.width() as i32, self.height() as i32) {
            return ;
        }
        if button == Button::MouseRight {
            self.flag_at(x_pos as u16, y_pos as u16);
        }
    }
}

} // verus!
