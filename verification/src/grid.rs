//! The mathematical model of a grid: a mine layout is a sequence of columns
//! of booleans, a tile grid a sequence of columns of tiles, both indexed
//! `[column][row]`. Cells are named by signed coordinates, so that the
//! neighbours of a tile at the edge can be named and found to lie outside.

use vstd::prelude::*;
use crate::tile::{Tile, TileState};

verus! {

/// Whether `(x, y)` lies outside a grid of the given size.
pub fn outof_bounds_check(x: i32, y: i32, width: i32, height: i32) -> (outside: bool)
    ensures
        outside == !(0 <= x < width && 0 <= y < height),
{
    if x < 0 || x >= width {
        return true;
    }
    if y < 0 || y >= height {
        return true;
    }
    return false;
}

/// The view of a vector of columns as a sequence of sequences.
pub open spec fn columns<T>(v: Seq<Vec<T>>) -> Seq<Seq<T>> {
    Seq::new(v.len(), |x: int| v[x]@)
}

/// A mine layout of `width` columns and `height` rows.
pub open spec fn layout_of(mines: Seq<Seq<bool>>, width: int, height: int) -> bool {
    &&& mines.len() == width
    &&& forall|x: int| 0 <= x < width ==> (#[trigger] mines[x]).len() == height
}

/// 1 if `(x, y)` lies inside the layout and holds a mine, else 0. Cells
/// outside the layout count as free: neighbourhoods are clipped at the edges
/// and never wrap around.
pub open spec fn mine_at(mines: Seq<Seq<bool>>, x: int, y: int) -> int {
    if 0 <= x < mines.len() && 0 <= y < mines[x].len() && mines[x][y] {
        1
    } else {
        0
    }
}

/// The number of mines among the up to eight neighbours of `(x, y)`.
#[verifier::opaque]
pub open spec fn mines_around(mines: Seq<Seq<bool>>, x: int, y: int) -> int {
    mine_at(mines, x - 1, y - 1) + mine_at(mines, x - 1, y) + mine_at(mines, x - 1, y + 1)
        + mine_at(mines, x, y - 1) + mine_at(mines, x, y + 1)
        + mine_at(mines, x + 1, y - 1) + mine_at(mines, x + 1, y) + mine_at(mines, x + 1, y + 1)
}

/// The tile grid that generation builds over a mine layout: every tile
/// hidden, with the layout's mine and the count of the mines around it.
pub open spec fn fresh_tiles(mines: Seq<Seq<bool>>) -> Seq<Seq<Tile>> {
    Seq::new(
        mines.len(),
        |x: int|
            Seq::new(
                mines[x].len(),
                |y: int|
                    Tile {
                        bomb_value: mines_around(mines, x, y) as u8,
                        tile_state: TileState::Default,
                        has_bomb: mines[x][y],
                    },
            ),
    )
}

/// Whether `(x, y)` names a tile of the grid.
pub open spec fn has_tile(tiles: Seq<Seq<Tile>>, x: int, y: int) -> bool {
    0 <= x < tiles.len() && 0 <= y < tiles[x].len()
}

/// The mine layout that a tile grid holds.
pub open spec fn layout(tiles: Seq<Seq<Tile>>) -> Seq<Seq<bool>> {
    Seq::new(tiles.len(), |x: int| Seq::new(tiles[x].len(), |y: int| tiles[x][y].has_bomb))
}

/// The grid has `width` columns of `height` tiles each.
pub open spec fn rectangular(tiles: Seq<Seq<Tile>>, width: int, height: int) -> bool {
    &&& tiles.len() == width
    &&& forall|x: int| 0 <= x < width ==> (#[trigger] tiles[x]).len() == height
}

/// Every tile's count is the number of mines around it.
pub open spec fn counted(tiles: Seq<Seq<Tile>>) -> bool {
    forall|x: int, y: int|
        has_tile(tiles, x, y) ==> (#[trigger] tiles[x][y]).bomb_value == mines_around(
            layout(tiles),
            x,
            y,
        )
}

/// Every tile is hidden and unmarked.
pub open spec fn all_hidden(tiles: Seq<Seq<Tile>>) -> bool {
    forall|x: int, y: int|
        has_tile(tiles, x, y) ==> (#[trigger] tiles[x][y]).tile_state == TileState::Default
}

/// No tile holds a mine.
pub open spec fn mine_free(mines: Seq<Seq<bool>>) -> bool {
    forall|x: int, y: int|
        0 <= x < mines.len() && 0 <= y < mines[x].len() ==> !(#[trigger] mines[x][y])
}

/// Every tile holds a mine.
pub open spec fn all_mines(mines: Seq<Seq<bool>>) -> bool {
    forall|x: int, y: int|
        0 <= x < mines.len() && 0 <= y < mines[x].len() ==> #[trigger] mines[x][y]
}

/// At most eight mines surround a cell.
pub proof fn lemma_mines_around_bounds(mines: Seq<Seq<bool>>, x: int, y: int)
    ensures
        0 <= mines_around(mines, x, y) <= 8,
{
    reveal(mines_around);
}

/// A cell with no mine around it touches no mine.
pub proof fn lemma_no_mine_around(mines: Seq<Seq<bool>>, x: int, y: int, nx: int, ny: int)
    requires
        mines_around(mines, x, y) == 0,
        -1 <= nx - x <= 1,
        -1 <= ny - y <= 1,
        !(nx == x && ny == y),
    ensures
        mine_at(mines, nx, ny) == 0,
{
    reveal(mines_around);
}

/// Tiles that keep their shape, mines and counts stay counted, whatever
/// they show.
pub proof fn lemma_counted_kept(before: Seq<Seq<Tile>>, after: Seq<Seq<Tile>>)
    requires
        counted(before),
        after.len() == before.len(),
        forall|x: int| 0 <= x < before.len() ==> (#[trigger] after[x]).len() == before[x].len(),
        forall|x: int, y: int|
            has_tile(before, x, y) ==> (#[trigger] after[x][y]).has_bomb == before[x][y].has_bomb
                && after[x][y].bomb_value == before[x][y].bomb_value,
    ensures
        counted(after),
        layout(after) == layout(before),
{
    assert(layout(after) =~~= layout(before));
}

/// The grid built over a layout holds that layout, is counted and hidden.
pub proof fn lemma_fresh_tiles(mines: Seq<Seq<bool>>, width: int, height: int)
    requires
        layout_of(mines, width, height),
    ensures
        rectangular(fresh_tiles(mines), width, height),
        layout(fresh_tiles(mines)) == mines,
        counted(fresh_tiles(mines)),
        all_hidden(fresh_tiles(mines)),
{
    let tiles = fresh_tiles(mines);
    assert(layout(tiles) =~~= mines);
    assert forall|x: int, y: int| has_tile(tiles, x, y) implies (#[trigger] tiles[x][y]).bomb_value
        == mines_around(layout(tiles), x, y) by {
        lemma_mines_around_bounds(mines, x, y);
    }
}

} // verus!
