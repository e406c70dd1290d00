//! The mathematical model of a game and of its operations. The contracts of
//! the executable functions are stated over this model.

use vstd::prelude::*;
use crate::grid::{counted, fresh_tiles, layout_of, lemma_fresh_tiles, rectangular};
use crate::tile::{GameState, Tile, TileState};

verus! {

/// The state of a game as plain mathematics.
pub struct Board {
    /// Width and height of the screen in pixels.
    pub screen_size: (int, int),
    /// Number of columns.
    pub width: int,
    /// Number of rows.
    pub height: int,
    /// The tiles, indexed `[column][row]`.
    pub tiles: Seq<Seq<Tile>>,
    /// How far the game has come.
    pub game_state: GameState,
    /// The mine that ended the game, once one has.
    pub last_mine: Option<(int, int)>,
}

/// Two distinct cells that touch, by a side or by a corner.
pub open spec fn adjacent(ax: int, ay: int, bx: int, by: int) -> bool {
    &&& -1 <= bx - ax <= 1
    &&& -1 <= by - ay <= 1
    &&& !(ax == bx && ay == by)
}

/// What the end of the game makes of a tile: a hidden tile is uncovered, a
/// marked or uncovered one stays as it is.
pub open spec fn uncovered(tile: Tile) -> Tile {
    if tile.tile_state == TileState::Default {
        Tile {
            tile_state: if tile.has_bomb {
                TileState::Mine
            } else {
                TileState::Sweeped
            },
            ..tile
        }
    } else {
        tile
    }
}

/// A mine layout that a game can be played on: a rectangle of at least one
/// tile whose sides fit sixteen bits.
pub open spec fn playable(mines: Seq<Seq<bool>>) -> bool {
    &&& 1 <= mines.len() <= u16::MAX
    &&& 1 <= mines[0].len() <= u16::MAX
    &&& layout_of(mines, mines.len() as int, mines[0].len() as int)
}

impl Board {
    /// The board at the start of a game over the given mine layout: every
    /// tile hidden and counted, the game running, no mine recorded.
    pub open spec fn fresh(screen_size: (int, int), mines: Seq<Seq<bool>>) -> Board {
        Board {
            screen_size,
            width: mines.len() as int,
            height: mines[0].len() as int,
            tiles: fresh_tiles(mines),
            game_state: GameState::Running,
            last_mine: None,
        }
    }

    /// A fresh board over a playable layout meets the invariant.
    pub proof fn lemma_fresh_wf(screen_size: (int, int), mines: Seq<Seq<bool>>)
        requires
            playable(mines),
            0 <= screen_size.0 <= u32::MAX,
            0 <= screen_size.1 <= u32::MAX,
        ensures
            Board::fresh(screen_size, mines).wf(),
    {
        lemma_fresh_tiles(mines, mines.len() as int, mines[0].len() as int);
    }

    /// Whether `(x, y)` names a tile of the board.
    pub open spec fn in_bounds(self, x: int, y: int) -> bool {
        0 <= x < self.width && 0 <= y < self.height
    }

    /// Whether `(x, y)` names a tile that is hidden and unmarked.
    pub open spec fn hidden_at(self, x: int, y: int) -> bool {
        self.in_bounds(x, y) && self.tiles[x][y].tile_state == TileState::Default
    }

    /// The layout is sound: a rectangle of at least one tile whose sides fit
    /// sixteen bits, every count is the number of mines around its tile, only
    /// tiles without a mine are revealed, and only mines are shown as mines.
    pub open spec fn grid_wf(self) -> bool {
        &&& 1 <= self.width <= u16::MAX
        &&& 1 <= self.height <= u16::MAX
        &&& rectangular(self.tiles, self.width, self.height)
        &&& counted(self.tiles)
        &&& forall|x: int, y: int|
            self.in_bounds(x, y) && (#[trigger] self.tiles[x][y]).tile_state == TileState::Sweeped
                ==> !self.tiles[x][y].has_bomb
        &&& forall|x: int, y: int|
            self.in_bounds(x, y) && (#[trigger] self.tiles[x][y]).tile_state == TileState::Mine
                ==> self.tiles[x][y].has_bomb
    }

    /// Every tile without a mine is revealed.
    pub open spec fn all_safe_swept(self) -> bool {
        forall|x: int, y: int|
            self.in_bounds(x, y) && !(#[trigger] self.tiles[x][y]).has_bomb
                ==> self.tiles[x][y].tile_state == TileState::Sweeped
    }

    /// No tile is shown as a mine.
    pub open spec fn no_mine_shown(self) -> bool {
        forall|x: int, y: int|
            self.in_bounds(x, y) ==> (#[trigger] self.tiles[x][y]).tile_state != TileState::Mine
    }

    /// No tile is hidden and unmarked.
    pub open spec fn none_hidden(self) -> bool {
        forall|x: int, y: int|
            self.in_bounds(x, y) ==> (#[trigger] self.tiles[x][y]).tile_state
                != TileState::Default
    }

    /// The invariant of a game. The layout is sound and the sides of the
    /// screen fit thirty-two bits; while the game runs no mine is shown and no
    /// mine is recorded; a lost game records the mine that ended it, shows
    /// it, and has no hidden tile left; a won game shows no mine and has
    /// every tile without a mine revealed.
    pub open spec fn wf(self) -> bool {
        &&& self.grid_wf()
        &&& 0 <= self.screen_size.0 <= u32::MAX
        &&& 0 <= self.screen_size.1 <= u32::MAX
        &&& match self.game_state {
            GameState::Running => self.last_mine is None && self.no_mine_shown(),
            GameState::GameOver => {
                &&& self.last_mine matches Some(cell)
                &&& self.in_bounds(cell.0, cell.1)
                &&& self.tiles[cell.0][cell.1].tile_state == TileState::Mine
                &&& self.none_hidden()
            },
            GameState::Won => {
                &&& self.last_mine is None
                &&& self.no_mine_shown()
                &&& self.all_safe_swept()
            },
        }
    }

    /// The board with the tile at `(x, y)` showing `state`.
    pub open spec fn with_state(self, x: int, y: int, state: TileState) -> Board {
        Board {
            tiles: self.tiles.update(
                x,
                self.tiles[x].update(y, Tile { tile_state: state, ..self.tiles[x][y] }),
            ),
            ..self
        }
    }

    /// The `i`-th cell of the path has no mine around it and touches the next.
    pub open spec fn link(self, path: Seq<(int, int)>, i: int) -> bool {
        &&& self.tiles[path[i].0][path[i].1].bomb_value == 0
        &&& adjacent(path[i].0, path[i].1, path[i + 1].0, path[i + 1].1)
    }

    /// The `i`-th cell of the path is a hidden, unmarked tile.
    pub open spec fn step(self, path: Seq<(int, int)>, i: int) -> bool {
        self.hidden_at(path[i].0, path[i].1)
    }

    /// A path along which a reveal cascades: every cell is a hidden, unmarked
    /// tile, each touches the next, and every cell but the last has no mine
    /// around it. The last cell may have any count: there the cascade stops.
    pub open spec fn cascade_path(self, path: Seq<(int, int)>) -> bool {
        &&& path.len() >= 1
        &&& forall|i: int| 0 <= i < path.len() ==> #[trigger] self.step(path, i)
        &&& forall|i: int| 0 <= i < path.len() - 1 ==> #[trigger] self.link(path, i)
    }

    /// Whether the cascade of a reveal at `(sx, sy)` reaches `(x, y)`.
    pub open spec fn flood(self, sx: int, sy: int, x: int, y: int) -> bool {
        exists|path: Seq<(int, int)>|
            #[trigger] self.cascade_path(path) && path[0] == (sx, sy) && path.last() == (x, y)
    }

    /// The cascade of a reveal at a hidden tile reaches that tile.
    pub proof fn lemma_flood_start(self, x: int, y: int)
        requires
            self.hidden_at(x, y),
        ensures
            self.flood(x, y, x, y),
    {
        let path = seq![(x, y)];
        assert(self.cascade_path(path));
    }

    /// The cascade goes on from a tile with no mine around it to every
    /// hidden tile that touches it.
    pub proof fn lemma_flood_step(self, sx: int, sy: int, x: int, y: int, nx: int, ny: int)
        requires
            self.flood(sx, sy, x, y),
            self.tiles[x][y].bomb_value == 0,
            adjacent(x, y, nx, ny),
            self.hidden_at(nx, ny),
        ensures
            self.flood(sx, sy, nx, ny),
    {
        let path = choose|path: Seq<(int, int)>|
            #[trigger] self.cascade_path(path) && path[0] == (sx, sy) && path.last() == (x, y);
        let longer = path.push((nx, ny));
        assert forall|i: int| 0 <= i < longer.len() implies #[trigger] self.step(longer, i) by {
            if i < path.len() {
                assert(self.step(path, i));
            }
        }
        assert forall|i: int| 0 <= i < longer.len() - 1 implies #[trigger] self.link(longer, i) by {
            if i < path.len() - 1 {
                assert(self.link(path, i));
            }
        }
        assert(self.cascade_path(longer));
    }

    /// The board after the cascade of a reveal at `(sx, sy)`: exactly the
    /// tiles that the cascade reaches are revealed.
    pub open spec fn cascade(self, sx: int, sy: int) -> Board {
        Board {
            tiles: Seq::new(
                self.tiles.len(),
                |x: int|
                    Seq::new(
                        self.tiles[x].len(),
                        |y: int|
                            if self.flood(sx, sy, x, y) {
                                Tile { tile_state: TileState::Sweeped, ..self.tiles[x][y] }
                            } else {
                                self.tiles[x][y]
                            },
                    ),
            ),
            ..self
        }
    }

    /// The board with every hidden tile uncovered.
    pub open spec fn reveal_all(self) -> Board {
        Board {
            tiles: Seq::new(
                self.tiles.len(),
                |x: int| Seq::new(self.tiles[x].len(), |y: int| uncovered(self.tiles[x][y])),
            ),
            ..self
        }
    }

    /// The board after the tile at `(x, y)` is uncovered. Nothing changes
    /// once the game is won. A revealed or marked tile stays as it is. A mine
    /// is shown; if the game was running, it is over, this mine is recorded
    /// as the one that ended it, and every hidden tile is uncovered. Any
    /// other tile starts a cascade. A lost game is not left alone here: this
    /// is the step by which the end of a game uncovers what is still hidden,
    /// and a lost game that meets the invariant has no hidden tile left.
    pub open spec fn reveal_tile(self, x: int, y: int) -> Board {
        let tile = self.tiles[x][y];
        if self.game_state == GameState::Won || tile.tile_state == TileState::Sweeped
            || tile.tile_state == TileState::Flag {
            self
        } else if tile.has_bomb {
            let shown = self.with_state(x, y, TileState::Mine);
            if self.game_state == GameState::Running {
                (Board {
                    game_state: GameState::GameOver,
                    last_mine: Some((x, y)),
                    ..shown
                }).reveal_all()
            } else {
                shown
            }
        } else {
            self.cascade(x, y)
        }
    }

    /// The board after the player reveals the tile at `(x, y)`. Nothing
    /// changes unless the game is running. A reveal that opens a hidden tile
    /// without a mine wins the game if it leaves no such tile unrevealed.
    pub open spec fn reveal_at(self, x: int, y: int) -> Board {
        if self.game_state != GameState::Running {
            self
        } else {
            let next = self.reveal_tile(x, y);
            if self.tiles[x][y].tile_state == TileState::Default && !self.tiles[x][y].has_bomb
                && next.all_safe_swept() {
                Board { game_state: GameState::Won, ..next }
            } else {
                next
            }
        }
    }

    /// The board after the player flags the tile at `(x, y)`. Nothing changes
    /// unless the game is running. Then the mark is toggled: a hidden tile
    /// is marked, a marked one is hidden again, a revealed one stays as it is.
    pub open spec fn flag_at(self, x: int, y: int) -> Board {
        let state = self.tiles[x][y].tile_state;
        if self.game_state != GameState::Running {
            self
        } else if state == TileState::Default {
            self.with_state(x, y, TileState::Flag)
        } else if state == TileState::Flag {
            self.with_state(x, y, TileState::Default)
        } else {
            self
        }
    }
}

} // verus!
