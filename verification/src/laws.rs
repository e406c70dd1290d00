//! Laws of the game, proved of the model that the contracts are stated over.

use vstd::prelude::*;
use crate::board::{adjacent, uncovered, Board};
use crate::grid::{all_hidden, layout, mine_at, mine_free, mines_around};
use crate::tile::{GameState, Tile, TileState};

verus! {

/// Generation is determined by the mines drawn: two games that have just
/// been generated on the same screen and hold the same mines are the same
/// game. Whatever differs between two generations comes from the generator.
pub proof fn law_mines_determine_generation(a: Board, b: Board)
    requires
        a.wf(),
        b.wf(),
        a.game_state == GameState::Running,
        b.game_state == GameState::Running,
        all_hidden(a.tiles),
        all_hidden(b.tiles),
        a.screen_size == b.screen_size,
        layout(a.tiles) == layout(b.tiles),
    ensures
        a == b,
{
    let mines = layout(a.tiles);
    assert(a.width == b.width) by {
        assert(layout(b.tiles).len() == b.tiles.len());
    }
    assert(a.height == b.height) by {
        assert(layout(b.tiles)[0].len() == b.tiles[0].len());
    }
    assert forall|x: int| 0 <= x < a.width implies a.tiles[x] =~= b.tiles[x] by {
        assert forall|y: int| 0 <= y < a.height implies a.tiles[x][y] == b.tiles[x][y] by {
            assert(layout(b.tiles)[x][y] == b.tiles[x][y].has_bomb);
        }
    }
    assert(a.tiles =~= b.tiles);
}

/// In every state of a game, the count of every tile is the number of mines
/// among its neighbours inside the grid, the eight cells that touch it.
pub proof fn law_count_is_mines_around(board: Board, x: int, y: int)
    requires
        board.wf(),
        board.in_bounds(x, y),
    ensures
        board.tiles[x][y].bomb_value == mine_at(layout(board.tiles), x - 1, y - 1) + mine_at(
            layout(board.tiles),
            x - 1,
            y,
        ) + mine_at(layout(board.tiles), x - 1, y + 1) + mine_at(layout(board.tiles), x, y - 1)
            + mine_at(layout(board.tiles), x, y + 1) + mine_at(layout(board.tiles), x + 1, y - 1)
            + mine_at(layout(board.tiles), x + 1, y) + mine_at(layout(board.tiles), x + 1, y + 1),
        forall|a: int, b: int|
            mine_at(layout(board.tiles), a, b) == (if board.in_bounds(a, b)
                && board.tiles[a][b].has_bomb {
                1int
            } else {
                0int
            }),
{
    reveal(mines_around);
}

/// A reveal of a hidden tile without a mine reveals exactly the tiles that
/// its cascade reaches, and changes nothing else about any tile.
pub proof fn law_reveal_opens_the_flood(board: Board, sx: int, sy: int, x: int, y: int)
    requires
        board.wf(),
        board.game_state == GameState::Running,
        board.hidden_at(sx, sy),
        !board.tiles[sx][sy].has_bomb,
        board.in_bounds(x, y),
    ensures
        board.reveal_at(sx, sy).tiles[x][y] == (if board.flood(sx, sy, x, y) {
            Tile { tile_state: TileState::Sweeped, ..board.tiles[x][y] }
        } else {
            board.tiles[x][y]
        }),
        board.reveal_at(sx, sy).last_mine is None,
        board.reveal_at(sx, sy).game_state != GameState::GameOver,
{
}

/// The cascade covers the whole connected region: it reaches its own start,
/// and from every tile it reaches that has no mine around it, it reaches
/// every hidden tile that touches that tile.
pub proof fn law_flood_spreads(board: Board, sx: int, sy: int, x: int, y: int, nx: int, ny: int)
    requires
        board.hidden_at(sx, sy),
        board.flood(sx, sy, x, y),
        board.tiles[x][y].bomb_value == 0,
        adjacent(x, y, nx, ny),
        board.hidden_at(nx, ny),
    ensures
        board.flood(sx, sy, sx, sy),
        board.flood(sx, sy, nx, ny),
{
    board.lemma_flood_start(sx, sy);
    board.lemma_flood_step(sx, sy, x, y, nx, ny);
}

/// The cascade goes no further than the border of the region: every tile it
/// reaches is hidden, and is either the start or touches a tile that the
/// cascade reaches and that has no mine around it. A marked tile is never
/// reached.
pub proof fn law_flood_stops(board: Board, sx: int, sy: int, x: int, y: int)
    requires
        board.flood(sx, sy, x, y),
    ensures
        board.hidden_at(x, y),
        (x == sx && y == sy) || exists|px: int, py: int|
            #[trigger] board.flood(sx, sy, px, py) && board.tiles[px][py].bomb_value == 0
                && adjacent(px, py, x, y),
{
    board.lemma_flood_hidden(sx, sy, x, y);
    let path = choose|path: Seq<(int, int)>|
        #[trigger] board.cascade_path(path) && path[0] == (sx, sy) && path.last() == (x, y);
    if path.len() > 1 {
        let head = path.drop_last();
        let k = path.len() - 2;
        assert forall|i: int| 0 <= i < head.len() implies #[trigger] board.step(head, i) by {
            assert(board.step(path, i));
        }
        assert forall|i: int| 0 <= i < head.len() - 1 implies #[trigger] board.link(head, i) by {
            assert(board.link(path, i));
        }
        assert(board.cascade_path(head));
        assert(board.link(path, k));
        let (px, py) = path[k];
        assert(board.flood(sx, sy, px, py));
    }
}

/// A reveal of a tile with mines around it reveals that tile alone.
pub proof fn law_count_stops_the_flood(board: Board, sx: int, sy: int, x: int, y: int)
    requires
        board.tiles[sx][sy].bomb_value != 0,
        board.flood(sx, sy, x, y),
    ensures
        x == sx && y == sy,
{
    let path = choose|path: Seq<(int, int)>|
        #[trigger] board.cascade_path(path) && path[0] == (sx, sy) && path.last() == (x, y);
    if path.len() > 1 {
        assert(board.link(path, 0));
    }
}

/// Where every tile is hidden and has no mine around it, the cascade from
/// any tile reaches every tile.
proof fn lemma_open_ground_floods(board: Board, sx: int, sy: int, x: int, y: int)
    requires
        board.in_bounds(sx, sy),
        board.in_bounds(x, y),
        forall|a: int, b: int|
            board.in_bounds(a, b) ==> (#[trigger] board.tiles[a][b]).tile_state
                == TileState::Default && board.tiles[a][b].bomb_value == 0,
    ensures
        board.flood(sx, sy, x, y),
    decreases (if x > sx {
            x - sx
        } else {
            sx - x
        }) + (if y > sy {
            y - sy
        } else {
            sy - y
        }),
{
    if x == sx && y == sy {
        board.lemma_flood_start(sx, sy);
    } else {
        let px = if x > sx {
            x - 1
        } else if x < sx {
            x + 1
        } else {
            x
        };
        let py = if y > sy {
            y - 1
        } else if y < sy {
            y + 1
        } else {
            y
        };
        lemma_open_ground_floods(board, sx, sy, px, py);
        board.lemma_flood_step(sx, sy, px, py, x, y);
    }
}

/// On a fresh board without mines, one reveal anywhere opens every tile,
/// each with a count of zero, and wins the game. A grid of a single tile
/// without a mine is the smallest such board.
pub proof fn law_mine_free_board_opens_at_once(board: Board, x: int, y: int)
    requires
        board.wf(),
        board.game_state == GameState::Running,
        all_hidden(board.tiles),
        mine_free(layout(board.tiles)),
        board.in_bounds(x, y),
    ensures
        board.reveal_at(x, y).game_state == GameState::Won,
        forall|a: int, b: int|
            board.in_bounds(a, b) ==> #[trigger] board.reveal_at(x, y).tiles[a][b] == (Tile {
                bomb_value: 0,
                tile_state: TileState::Sweeped,
                has_bomb: false,
            }),
{
    let mines = layout(board.tiles);
    assert forall|a: int, b: int| board.in_bounds(a, b) implies (
    #[trigger] board.tiles[a][b]).tile_state == TileState::Default && board.tiles[a][b].bomb_value
        == 0 && !board.tiles[a][b].has_bomb by {
        assert(mines[a][b] == board.tiles[a][b].has_bomb);
        assert(mines_around(mines, a, b) == 0) by {
            reveal(mines_around);
        }
    }
    let next = board.cascade(x, y);
    assert forall|a: int, b: int| board.in_bounds(a, b) implies #[trigger] next.tiles[a][b]
        == (Tile { bomb_value: 0, tile_state: TileState::Sweeped, has_bomb: false }) by {
        lemma_open_ground_floods(board, x, y, a, b);
    }
}

/// No move changes the grid itself: its size, its mines and its counts stay
/// as generation made them. Only what the tiles show changes.
pub proof fn law_moves_keep_the_grid(board: Board, x: int, y: int, a: int, b: int)
    requires
        board.wf(),
        board.in_bounds(x, y),
        board.in_bounds(a, b),
    ensures
        board.reveal_at(x, y).width == board.width,
        board.reveal_at(x, y).height == board.height,
        board.reveal_at(x, y).screen_size == board.screen_size,
        board.reveal_at(x, y).tiles[a][b].has_bomb == board.tiles[a][b].has_bomb,
        board.reveal_at(x, y).tiles[a][b].bomb_value == board.tiles[a][b].bomb_value,
        board.flag_at(x, y).width == board.width,
        board.flag_at(x, y).height == board.height,
        board.flag_at(x, y).screen_size == board.screen_size,
        board.flag_at(x, y).tiles[a][b].has_bomb == board.tiles[a][b].has_bomb,
        board.flag_at(x, y).tiles[a][b].bomb_value == board.tiles[a][b].bomb_value,
{
}

/// A second reveal of the same tile changes nothing.
pub proof fn law_reveal_is_idempotent(board: Board, x: int, y: int)
    requires
        board.wf(),
        board.in_bounds(x, y),
    ensures
        board.reveal_at(x, y).reveal_at(x, y) == board.reveal_at(x, y),
{
    let next = board.reveal_at(x, y);
    if board.game_state == GameState::Running && next.game_state == GameState::Running {
        let tile = board.tiles[x][y];
        if tile.tile_state == TileState::Default && !tile.has_bomb {
            board.lemma_flood_start(x, y);
        }
    }
}

/// A reveal of a tile that is revealed or marked changes nothing.
pub proof fn law_reveal_of_shown_is_noop(board: Board, x: int, y: int)
    requires
        board.wf(),
        board.in_bounds(x, y),
        board.tiles[x][y].tile_state != TileState::Default,
    ensures
        board.reveal_at(x, y) == board,
{
}

/// A flag of a revealed tile changes nothing, and a second flag of any tile
/// takes back the first.
pub proof fn law_flag_twice_restores(board: Board, x: int, y: int)
    requires
        board.wf(),
        board.in_bounds(x, y),
    ensures
        board.tiles[x][y].tile_state == TileState::Sweeped || board.tiles[x][y].tile_state
            == TileState::Mine ==> board.flag_at(x, y) == board,
        board.flag_at(x, y).flag_at(x, y) == board,
{
    let once = board.flag_at(x, y);
    let twice = once.flag_at(x, y);
    assert(twice.tiles =~= board.tiles) by {
        assert(twice.tiles[x] =~= board.tiles[x]);
    }
}

/// A marked tile is protected: no reveal while the game runs, of that tile
/// or of any other, changes it. Only the player's flag takes the mark off.
pub proof fn law_flag_protects(board: Board, x: int, y: int, fx: int, fy: int)
    requires
        board.wf(),
        board.in_bounds(x, y),
        board.in_bounds(fx, fy),
        board.tiles[fx][fy].tile_state == TileState::Flag,
    ensures
        board.reveal_at(x, y).tiles[fx][fy] == board.tiles[fx][fy],
        x == fx && y == fy ==> board.reveal_at(x, y) == board,
{
    if board.flood(x, y, fx, fy) {
        board.lemma_flood_hidden(x, y, fx, fy);
    }
}

/// A reveal of a hidden mine loses the game: the game is over, the mine is
/// recorded as the one that ended it and is shown, and no tile stays hidden:
/// every hidden tile is uncovered, every other tile stays as it is.
pub proof fn law_mine_ends_game(board: Board, x: int, y: int)
    requires
        board.wf(),
        board.game_state == GameState::Running,
        board.in_bounds(x, y),
        board.tiles[x][y].tile_state == TileState::Default,
        board.tiles[x][y].has_bomb,
    ensures
        board.reveal_at(x, y).game_state == GameState::GameOver,
        board.reveal_at(x, y).last_mine == Some((x, y)),
        board.reveal_at(x, y).tiles[x][y].tile_state == TileState::Mine,
        board.reveal_at(x, y).none_hidden(),
        forall|a: int, b: int|
            board.in_bounds(a, b) ==> #[trigger] board.reveal_at(x, y).tiles[a][b] == uncovered(
                board.tiles[a][b],
            ),
{
}

/// Once a game has ended, lost or won, no reveal and no flag changes anything.
pub proof fn law_ended_game_is_frozen(board: Board, x: int, y: int)
    requires
        board.game_state != GameState::Running,
    ensures
        board.reveal_at(x, y) == board,
        board.flag_at(x, y) == board,
{
}

/// The step that uncovers one tile, which the end of a game takes for every
/// tile, changes nothing either once a game that meets the invariant has
/// ended: a lost game has no hidden tile left, and a won game is left alone.
pub proof fn law_ended_game_has_nothing_to_uncover(board: Board, x: int, y: int)
    requires
        board.wf(),
        board.in_bounds(x, y),
        board.game_state != GameState::Running,
    ensures
        board.reveal_tile(x, y) == board,
{
    if board.game_state == GameState::GameOver {
        let tile = board.tiles[x][y];
        assert(tile.tile_state != TileState::Default);
        if tile.tile_state == TileState::Mine {
            let shown = board.with_state(x, y, TileState::Mine);
            assert(shown.tiles[x] =~= board.tiles[x]);
            assert(shown.tiles =~= board.tiles);
        }
    }
}

/// A game does not start again: once it has ended, it stays as it ended.
/// It is lost by the reveal of a hidden mine and by nothing else.
pub proof fn law_game_state_moves_forward(board: Board, x: int, y: int)
    requires
        board.wf(),
        board.in_bounds(x, y),
    ensures
        board.game_state != GameState::Running ==> board.reveal_at(x, y).game_state
            == board.game_state,
        board.flag_at(x, y).game_state == board.game_state,
        board.reveal_at(x, y).game_state == GameState::GameOver <==> board.game_state
            == GameState::GameOver || (board.game_state == GameState::Running
            && board.tiles[x][y].has_bomb && board.tiles[x][y].tile_state == TileState::Default),
        board.reveal_at(x, y).game_state == GameState::Won ==> board.reveal_at(
            x,
            y,
        ).all_safe_swept(),
{
    board.lemma_reveal_at_wf(x, y);
}

} // verus!
