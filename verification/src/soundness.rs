//! The operations of the model keep the invariant of a game.

use vstd::prelude::*;
use crate::board::Board;
use crate::grid::{layout, lemma_counted_kept, lemma_no_mine_around, rectangular};
use crate::tile::{GameState, TileState};

verus! {

impl Board {
    /// The cascade starts at a hidden tile and reaches hidden tiles only.
    pub proof fn lemma_flood_hidden(self, sx: int, sy: int, x: int, y: int)
        requires
            self.flood(sx, sy, x, y),
        ensures
            self.hidden_at(sx, sy),
            self.hidden_at(x, y),
    {
        let path = choose|path: Seq<(int, int)>|
            #[trigger] self.cascade_path(path) && path[0] == (sx, sy) && path.last() == (x, y);
        assert(self.step(path, 0));
        assert(self.step(path, path.len() - 1));
    }

    /// On a sound layout the cascade from a tile without a mine reaches no mine.
    pub proof fn lemma_flood_safe(self, sx: int, sy: int, x: int, y: int)
        requires
            self.grid_wf(),
            !self.tiles[sx][sy].has_bomb,
            self.flood(sx, sy, x, y),
        ensures
            !self.tiles[x][y].has_bomb,
    {
        let path = choose|path: Seq<(int, int)>|
            #[trigger] self.cascade_path(path) && path[0] == (sx, sy) && path.last() == (x, y);
        if path.len() > 1 {
            let k = path.len() - 2;
            assert(self.link(path, k));
            assert(self.step(path, k));
            assert(self.step(path, k + 1));
            let (px, py) = path[k];
            lemma_no_mine_around(layout(self.tiles), px, py, x, y);
        }
    }

    /// A board whose tiles changed only in what they show, with no tile
    /// wrongly shown as revealed or as a mine, has a sound layout.
    pub proof fn lemma_grid_wf_kept(self, after: Board)
        requires
            self.grid_wf(),
            after.width == self.width,
            after.height == self.height,
            rectangular(after.tiles, after.width, after.height),
            forall|x: int, y: int|
                self.in_bounds(x, y) ==> {
                    let was = self.tiles[x][y];
                    let now = #[trigger] after.tiles[x][y];
                    &&& now.has_bomb == was.has_bomb
                    &&& now.bomb_value == was.bomb_value
                    &&& now.tile_state == TileState::Sweeped ==> !now.has_bomb
                    &&& now.tile_state == TileState::Mine ==> now.has_bomb
                },
        ensures
            after.grid_wf(),
    {
        lemma_counted_kept(self.tiles, after.tiles);
    }

    /// The cascade from a hidden tile without a mine keeps the layout sound.
    pub proof fn lemma_cascade_grid_wf(self, x: int, y: int)
        requires
            self.grid_wf(),
            self.in_bounds(x, y),
            !self.tiles[x][y].has_bomb,
        ensures
            self.cascade(x, y).grid_wf(),
    {
        let after = self.cascade(x, y);
        assert forall|a: int, b: int| self.in_bounds(a, b) implies {
            let was = self.tiles[a][b];
            let now = #[trigger] after.tiles[a][b];
            &&& now.has_bomb == was.has_bomb
            &&& now.bomb_value == was.bomb_value
            &&& now.tile_state == TileState::Sweeped ==> !now.has_bomb
            &&& now.tile_state == TileState::Mine ==> now.has_bomb
        } by {
            if self.flood(x, y, a, b) {
                self.lemma_flood_safe(x, y, a, b);
            }
        }
        self.lemma_grid_wf_kept(after);
    }

    /// Uncovering every hidden tile keeps the layout sound and leaves no
    /// tile hidden.
    pub proof fn lemma_reveal_all_grid_wf(self)
        requires
            self.grid_wf(),
        ensures
            self.reveal_all().grid_wf(),
            self.reveal_all().none_hidden(),
    {
        let after = self.reveal_all();
        self.lemma_grid_wf_kept(after);
    }

    /// Changing what one tile shows keeps the layout sound, unless it shows a
    /// mine as revealed or a tile without a mine as a mine.
    pub proof fn lemma_with_state_grid_wf(self, x: int, y: int, state: TileState)
        requires
            self.grid_wf(),
            self.in_bounds(x, y),
            state == TileState::Sweeped ==> !self.tiles[x][y].has_bomb,
            state == TileState::Mine ==> self.tiles[x][y].has_bomb,
        ensures
            self.with_state(x, y, state).grid_wf(),
    {
        let after = self.with_state(x, y, state);
        self.lemma_grid_wf_kept(after);
    }

    /// Uncovering a tile keeps the layout sound.
    pub proof fn lemma_reveal_tile_grid_wf(self, x: int, y: int)
        requires
            self.grid_wf(),
            self.in_bounds(x, y),
        ensures
            self.reveal_tile(x, y).grid_wf(),
    {
        let tile = self.tiles[x][y];
        if tile.tile_state == TileState::Sweeped || tile.tile_state == TileState::Flag {
        } else if tile.has_bomb {
            self.lemma_with_state_grid_wf(x, y, TileState::Mine);
            let shown = self.with_state(x, y, TileState::Mine);
            if self.game_state == GameState::Running {
                let over = Board {
                    game_state: GameState::GameOver,
                    last_mine: Some((x, y)),
                    ..shown
                };
                over.lemma_reveal_all_grid_wf();
            }
        } else {
            self.lemma_cascade_grid_wf(x, y);
        }
    }

    /// A reveal by the player keeps the invariant of the game.
    pub proof fn lemma_reveal_at_wf(self, x: int, y: int)
        requires
            self.wf(),
            self.in_bounds(x, y),
        ensures
            self.reveal_at(x, y).wf(),
    {
        if self.game_state == GameState::Running {
            let tile = self.tiles[x][y];
            self.lemma_reveal_tile_grid_wf(x, y);
            if tile.tile_state == TileState::Sweeped || tile.tile_state == TileState::Flag {
            } else if tile.has_bomb {
                let shown = self.with_state(x, y, TileState::Mine);
                let over = Board {
                    game_state: GameState::GameOver,
                    last_mine: Some((x, y)),
                    ..shown
                };
                self.lemma_with_state_grid_wf(x, y, TileState::Mine);
                over.lemma_reveal_all_grid_wf();
            }
        }
    }

    /// While the game runs, a reveal leaves its tile shown: revealed, shown
    /// as a mine, or still marked.
    pub proof fn lemma_reveal_at_shows(self, x: int, y: int)
        requires
            self.wf(),
            self.in_bounds(x, y),
        ensures
            self.game_state == GameState::Running ==> self.reveal_at(x, y).tiles[x][y].tile_state
                != TileState::Default,
            self.hidden_at(x, y) && !self.tiles[x][y].has_bomb ==> self.cascade(
                x,
                y,
            ).tiles[x][y].tile_state == TileState::Sweeped,
    {
        if self.hidden_at(x, y) {
            self.lemma_flood_start(x, y);
        }
    }

    /// A flag by the player keeps the invariant of the game.
    pub proof fn lemma_flag_at_wf(self, x: int, y: int)
        requires
            self.wf(),
            self.in_bounds(x, y),
        ensures
            self.flag_at(x, y).wf(),
    {
        if self.game_state == GameState::Running {
            let state = self.tiles[x][y].tile_state;
            if state == TileState::Default {
                self.lemma_with_state_grid_wf(x, y, TileState::Flag);
            } else if state == TileState::Flag {
                self.lemma_with_state_grid_wf(x, y, TileState::Default);
            }
        }
    }
}

} // verus!
