//! The cascade of a reveal: from a tile without a mine, over every hidden
//! tile that can be reached through tiles with no mine around them. It runs
//! on a work list, so its depth does not grow with the grid.

use vstd::prelude::*;
use crate::board::{adjacent, Board};
use crate::field::Field;
use crate::grid::{outof_bounds_check, rectangular};
use crate::tile::{Tile, TileState};

verus! {

/// The number of hidden, unmarked tiles in a column.
spec fn hidden_in_column(column: Seq<Tile>) -> nat
    decreases column.len(),
{
    if column.len() == 0 {
        0
    } else {
        hidden_in_column(column.drop_last()) + if column.last().tile_state == TileState::Default {
            1nat
        } else {
            0nat
        }
    }
}

/// The number of hidden, unmarked tiles in a grid.
spec fn hidden_in(tiles: Seq<Seq<Tile>>) -> nat
    decreases tiles.len(),
{
    if tiles.len() == 0 {
        0
    } else {
        hidden_in(tiles.drop_last()) + hidden_in_column(tiles.last())
    }
}

/// A column in which one hidden tile is opened holds one hidden tile less.
proof fn lemma_column_opened(column: Seq<Tile>, y: int, tile: Tile)
    requires
        0 <= y < column.len(),
        column[y].tile_state == TileState::Default,
        tile.tile_state != TileState::Default,
    ensures
        hidden_in_column(column.update(y, tile)) + 1 == hidden_in_column(column),
    decreases column.len(),
{
    let after = column.update(y, tile);
    if y == column.len() - 1 {
        assert(after.drop_last() =~= column.drop_last());
    } else {
        assert(after.drop_last() =~= column.drop_last().update(y, tile));
        lemma_column_opened(column.drop_last(), y, tile);
    }
}

/// A grid in which one column loses a hidden tile holds one hidden tile less.
proof fn lemma_tiles_opened(tiles: Seq<Seq<Tile>>, x: int, column: Seq<Tile>)
    requires
        0 <= x < tiles.len(),
        hidden_in_column(column) + 1 == hidden_in_column(tiles[x]),
    ensures
        hidden_in(tiles.update(x, column)) + 1 == hidden_in(tiles),
    decreases tiles.len(),
{
    let after = tiles.update(x, column);
    if x == tiles.len() - 1 {
        assert(after.drop_last() =~= tiles.drop_last());
    } else {
        assert(after.drop_last() =~= tiles.drop_last().update(x, column));
        lemma_tiles_opened(tiles.drop_last(), x, column);
    }
}

/// Opening one hidden tile leaves one hidden tile less.
proof fn lemma_opened(board: Board, x: int, y: int)
    requires
        rectangular(board.tiles, board.width, board.height),
        board.hidden_at(x, y),
    ensures
        hidden_in(board.with_state(x, y, TileState::Sweeped).tiles) + 1 == hidden_in(board.tiles),
{
    let tile = Tile { tile_state: TileState::Sweeped, ..board.tiles[x][y] };
    lemma_column_opened(board.tiles[x], y, tile);
    lemma_tiles_opened(board.tiles, x, board.tiles[x].update(y, tile));
}

/// `cur` is `start` with some hidden tiles revealed and nothing else changed.
spec fn advanced(start: Board, cur: Board) -> bool {
    &&& cur.screen_size == start.screen_size
    &&& cur.width == start.width
    &&& cur.height == start.height
    &&& cur.game_state == start.game_state
    &&& cur.last_mine == start.last_mine
    &&& rectangular(cur.tiles, cur.width, cur.height)
    &&& forall|x: int, y: int|
        start.in_bounds(x, y) ==> {
            let was = start.tiles[x][y];
            let now = #[trigger] cur.tiles[x][y];
            &&& now.has_bomb == was.has_bomb
            &&& now.bomb_value == was.bomb_value
            &&& now.tile_state == was.tile_state || (was.tile_state == TileState::Default
                && now.tile_state == TileState::Sweeped)
        }
}

/// The tile at `(x, y)` was hidden in `start` and is revealed in `cur`.
spec fn opened(start: Board, cur: Board, x: int, y: int) -> bool {
    start.hidden_at(x, y) && cur.tiles[x][y].tile_state == TileState::Sweeped
}

/// If `(x, y)` names a tile that was hidden in `start`, it is revealed in `cur`.
spec fn settled(start: Board, cur: Board, x: int, y: int) -> bool {
    start.hidden_at(x, y) ==> cur.tiles[x][y].tile_state == TileState::Sweeped
}

/// The cascade has passed `(x, y)`: the cell and all around it are settled.
spec fn closed(start: Board, cur: Board, x: int, y: int) -> bool {
    forall|nx: int, ny: int|
        x - 1 <= nx <= x + 1 && y - 1 <= ny <= y + 1 ==> #[trigger] settled(start, cur, nx, ny)
}

/// The cell `(x, y)` waits on the work list.
spec fn queued(pending: Seq<(u16, u16)>, x: int, y: int) -> bool {
    exists|i: int| 0 <= i < pending.len() && (#[trigger] pending[i]).0 == x && pending[i].1 == y
}

/// What holds while the cascade from `(sx, sy)` runs, with the cell
/// `(hx, hy)` in hand: only hidden tiles were revealed, each of them is one
/// that the cascade reaches, the work list holds revealed tiles only, and
/// the cascade has passed every revealed tile with no mine around it that is
/// neither in hand nor on the work list.
spec fn cascading(
    start: Board,
    cur: Board,
    pending: Seq<(u16, u16)>,
    sx: int,
    sy: int,
    hx: int,
    hy: int,
) -> bool {
    &&& rectangular(start.tiles, start.width, start.height)
    &&& advanced(start, cur)
    &&& opened(start, cur, sx, sy)
    &&& forall|x: int, y: int| #[trigger] opened(start, cur, x, y) ==> start.flood(sx, sy, x, y)
    &&& forall|i: int|
        0 <= i < pending.len() ==> opened(
            start,
            cur,
            (#[trigger] pending[i]).0 as int,
            pending[i].1 as int,
        )
    &&& forall|x: int, y: int|
        opened(start, cur, x, y) && start.tiles[x][y].bomb_value == 0 && !queued(pending, x, y)
            && !(x == hx && y == hy) ==> #[trigger] closed(start, cur, x, y)
}

/// What is settled stays settled as further tiles are revealed.
proof fn lemma_settled_stays(start: Board, cur: Board, next: Board, x: int, y: int)
    requires
        advanced(start, cur),
        advanced(cur, next),
        settled(start, cur, x, y),
    ensures
        settled(start, next, x, y),
{
}

/// Once the work list is empty, every tile that the cascade reaches is revealed.
proof fn lemma_reached(start: Board, cur: Board, sx: int, sy: int, path: Seq<(int, int)>)
    requires
        cascading(start, cur, Seq::empty(), sx, sy, -1, -1),
        start.cascade_path(path),
        path[0] == (sx, sy),
    ensures
        opened(start, cur, path.last().0, path.last().1),
    decreases path.len(),
{
    if path.len() > 1 {
        let head = path.drop_last();
        assert forall|i: int| 0 <= i < head.len() implies #[trigger] start.step(head, i) by {
            assert(start.step(path, i));
        }
        assert forall|i: int| 0 <= i < head.len() - 1 implies #[trigger] start.link(head, i) by {
            assert(start.link(path, i));
        }
        lemma_reached(start, cur, sx, sy, head);
        let k = path.len() - 2;
        assert(start.link(path, k));
        assert(start.step(path, k + 1));
        let (px, py) = path[k];
        let (nx, ny) = path[k + 1];
        assert(closed(start, cur, px, py));
        assert(settled(start, cur, nx, ny));
    }
}

impl Field {
    /// Visits the tile at `(nx, ny)` from the tile in hand, which touches it
    /// and has no mine around it: a hidden tile is revealed and put on the
    /// work list, any other tile is left alone.
    fn spread(
        &mut self,
        pending: &mut Vec<(u16, u16)>,
        nx: u16,
        ny: u16,
        Ghost(start): Ghost<Board>,
        Ghost(origin): Ghost<(int, int)>,
        Ghost(hand): Ghost<(int, int)>,
    )
        requires
            cascading(start, old(self)@, old(pending)@, origin.0, origin.1, hand.0, hand.1),
            opened(start, old(self)@, hand.0, hand.1),
            start.tiles[hand.0][hand.1].bomb_value == 0,
            adjacent(hand.0, hand.1, nx as int, ny as int),
            start.in_bounds(nx as int, ny as int),
        ensures
            cascading(start, final(self)@, final(pending)@, origin.0, origin.1, hand.0, hand.1),
            advanced(old(self)@, final(self)@),
            settled(start, final(self)@, nx as int, ny as int),
            hidden_in(final(self)@.tiles) + final(pending)@.len() == hidden_in(old(self)@.tiles)
                + old(pending)@.len(),
    {
        let ghost cur = self@;
        let ghost waiting = pending@;
        if self.tile(nx, ny).tile_state == TileState::Default {
            self.set_state(nx, ny, TileState::Sweeped);
            pending.push((nx, ny));
            proof {
                let next = self@;
                let (sx, sy) = origin;
                lemma_opened(cur, nx as int, ny as int);
                assert forall|x: int, y: int| #[trigger]
                    opened(start, next, x, y) implies start.flood(sx, sy, x, y) by {
                    if x == nx && y == ny {
                        start.lemma_flood_step(sx, sy, hand.0, hand.1, x, y);
                    } else {
                        assert(opened(start, cur, x, y));
                    }
                }
                assert forall|x: int, y: int|
                    opened(start, next, x, y) && start.tiles[x][y].bomb_value == 0 && !queued(
                        pending@,
                        x,
                        y,
                    ) && !(x == hand.0 && y == hand.1) implies #[trigger] closed(
                    start,
                    next,
                    x,
                    y,
                ) by {
                    if x == nx && y == ny {
                        assert(pending@[waiting.len() as int] == (nx, ny));
                    } else {
                        if queued(waiting, x, y) {
                            let i = choose|i: int|
                                0 <= i < waiting.len() && (#[trigger] waiting[i]).0 == x
                                    && waiting[i].1 == y;
                            assert(pending@[i] == waiting[i]);
                        }
                        assert(closed(start, cur, x, y));
                        assert forall|ax: int, ay: int|
                            x - 1 <= ax <= x + 1 && y - 1 <= ay <= y + 1 implies #[trigger] settled(
                            start,
                            next,
                            ax,
                            ay,
                        ) by {
                            lemma_settled_stays(start, cur, next, ax, ay);
                        }
                    }
                }
            }
        }
    }

    /// Reveals the hidden tile without a mine at `(x, y)` and every tile that
    /// the cascade from it reaches.
    pub(crate) fn cascade(&mut self, x: u16, y: u16)
        requires
            rectangular(old(self)@.tiles, old(self)@.width, old(self)@.height),
            old(self)@.hidden_at(x as int, y as int),
        ensures
            final(self)@ == old(self)@.cascade(x as int, y as int),
    {
        let ghost start = self@;
        let ghost origin = (x as int, y as int);
        let width = self.width();
        let height = self.height();
        self.set_state(x, y, TileState::Sweeped);
        let mut pending: Vec<(u16, u16)> = Vec::new();
        pending.push((x, y));
        proof {
            let cur = self@;
            start.lemma_flood_start(x as int, y as int);
            assert forall|a: int, b: int|
                opened(start, cur, a, b) && start.tiles[a][b].bomb_value == 0 && !queued(
                    pending@,
                    a,
                    b,
                ) && !(a == -1 && b == -1) implies #[trigger] closed(start, cur, a, b) by {
                assert(pending@[0] == (x, y));
            }
        }
        while pending.len() > 0
            invariant
                cascading(start, self@, pending@, origin.0, origin.1, -1, -1),
                width == start.width,
                height == start.height,
            decreases hidden_in(self@.tiles) + pending@.len(),
        {
            let ghost budget = hidden_in(self@.tiles) + pending@.len();
            let ghost waiting = pending@;
            let ghost entered = self@;
            let cell = pending.pop().unwrap();
            let cx = cell.0;
            let cy = cell.1;
            let ghost hand = (cx as int, cy as int);
            proof {
                assert forall|a: int, b: int|
                    opened(start, entered, a, b) && start.tiles[a][b].bomb_value == 0 && !queued(
                        pending@,
                        a,
                        b,
                    ) && !(a == hand.0 && b == hand.1) implies #[trigger] closed(
                    start,
                    entered,
                    a,
                    b,
                ) by {
                    if queued(waiting, a, b) {
                        let i = choose|i: int|
                            0 <= i < waiting.len() && (#[trigger] waiting[i]).0 == a
                                && waiting[i].1 == b;
                        assert(pending@[i] == waiting[i]);
                    }
                }
            }
            if self.tile(cx, cy).bomb_value == 0 {
                let mut x_offset: i32 = -1;
                while x_offset < 2
                    invariant
                        -1 <= x_offset <= 2,
                        width == start.width,
                        height == start.height,
                        cascading(start, self@, pending@, origin.0, origin.1, hand.0, hand.1),
                        opened(start, self@, hand.0, hand.1),
                        hand == (cx as int, cy as int),
                        start.tiles[hand.0][hand.1].bomb_value == 0,
                        hidden_in(self@.tiles) + pending@.len() == budget - 1,
                        forall|nx: int, ny: int|
                            cx - 1 <= nx < cx + x_offset && cy - 1 <= ny <= cy + 1
                                ==> #[trigger] settled(start, self@, nx, ny),
                    decreases 2 - x_offset,
                {
                    let mut y_offset: i32 = -1;
                    while y_offset < 2
                        invariant
                            -1 <= x_offset < 2,
                            -1 <= y_offset <= 2,
                            width == start.width,
                            height == start.height,
                            cascading(start, self@, pending@, origin.0, origin.1, hand.0, hand.1),
                            opened(start, self@, hand.0, hand.1),
                            hand == (cx as int, cy as int),
                            start.tiles[hand.0][hand.1].bomb_value == 0,
                            hidden_in(self@.tiles) + pending@.len() == budget - 1,
                            forall|nx: int, ny: int|
                                cx - 1 <= nx < cx + x_offset && cy - 1 <= ny <= cy + 1
                                    ==> #[trigger] settled(start, self@, nx, ny),
                            forall|ny: int|
                                cy - 1 <= ny < cy + y_offset ==> #[trigger] settled(
                                    start,
                                    self@,
                                    cx + x_offset,
                                    ny,
                                ),
                        decreases 2 - y_offset,
                    {
                        let ghost before = self@;
                        if !(x_offset == 0 && y_offset == 0) && !outof_bounds_check(
                            cx as i32 + x_offset,
                            cy as i32 + y_offset,
                            width as i32,
                            height as i32,
                        ) {
                            self.spread(
                                &mut pending,
                                (cx as i32 + x_offset) as u16,
                                (cy as i32 + y_offset) as u16,
                                Ghost(start),
                                Ghost(origin),
                                Ghost(hand),
                            );
                        }
                        proof {
                            let after = self@;
                            assert forall|nx: int, ny: int|
                                cx - 1 <= nx < cx + x_offset && cy - 1 <= ny <= cy + 1 implies
                                #[trigger] settled(start, after, nx, ny) by {
                                lemma_settled_stays(start, before, after, nx, ny);
                            }
                            assert forall|ny: int|
                                cy - 1 <= ny < cy + y_offset + 1 implies
                                #[trigger] settled(start, after, cx + x_offset, ny) by {
                                if ny < cy + y_offset {
                                    lemma_settled_stays(start, before, after, cx + x_offset, ny);
                                }
                            }
                        }
                        y_offset += 1;
                    }
                    x_offset += 1;
                }
            }
        }
        proof {
            let cur = self@;
            let goal = start.cascade(x as int, y as int);
            assert forall|a: int, b: int| start.in_bounds(a, b) implies cur.tiles[a][b]
                == goal.tiles[a][b] by {
                if start.flood(x as int, y as int, a, b) {
                    let path = choose|path: Seq<(int, int)>|
                        #[trigger] start.cascade_path(path) && path[0] == (x as int, y as int)
                            && path.last() == (a, b);
                    lemma_reached(start, cur, x as int, y as int, path);
                } else {
                    if cur.tiles[a][b].tile_state != start.tiles[a][b].tile_state {
                        assert(opened(start, cur, a, b));
                    }
                }
            }
            assert forall|a: int| 0 <= a < start.width implies cur.tiles[a] =~= goal.tiles[a] by {
                assert forall|b: int| 0 <= b < start.height implies cur.tiles[a][b]
                    == goal.tiles[a][b] by {
                    assert(start.in_bounds(a, b));
                }
            }
            assert(cur.tiles =~= goal.tiles);
        }
    }
}

} // verus!
