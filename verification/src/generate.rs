//! Generation of a grid: mines are drawn tile by tile from a random number
//! generator, and every tile gets the count of the mines around it.

use vstd::prelude::*;
use rand::rngs::StdRng;
use rand::Rng;
use crate::grid::{
    all_hidden, all_mines, columns, counted, fresh_tiles, layout, layout_of, lemma_fresh_tiles,
    lemma_mines_around_bounds, mine_at, mine_free, mines_around, outof_bounds_check, rectangular,
};
use crate::tile::Tile;

verus! {

/// The standard generator of the `rand` crate. Verus sees nothing inside it.
#[verifier::external_type_specification]
#[verifier::external_body]
pub struct ExStdRng(StdRng);

/// One Bernoulli trial: `Rng::gen_ratio` on the given generator. Not proved;
/// the contract repeats what the method documents: it panics where the
/// denominator is zero or the numerator exceeds it, a chance of zero never
/// gives `true`, and a chance of one always does. Nothing else is claimed of
/// the outcome.
#[verifier::external_body]
fn sample_mine(rng: &mut StdRng, numerator: u32, denominator: u32) -> (mine: bool)
    requires
        denominator > 0,
        numerator <= denominator,
    ensures
        numerator == 0 ==> !mine,
        numerator == denominator ==> mine,
{
    rng.gen_ratio(numerator, denominator)
}

/// Draws a mine layout of `width` columns and `height` rows, each tile
/// independently a mine with a chance of `numerator` in `denominator`.
pub fn sample_mines(
    width: u16,
    height: u16,
    numerator: u32,
    denominator: u32,
    rng: &mut StdRng,
) -> (mines: Vec<Vec<bool>>)
    requires
        denominator > 0,
        numerator <= denominator,
    ensures
        layout_of(columns(mines@), width as int, height as int),
        numerator == 0 ==> mine_free(columns(mines@)),
        numerator == denominator ==> all_mines(columns(mines@)),
{
    let mut mines: Vec<Vec<bool>> = Vec::with_capacity(width as usize);
    let mut x: u16 = 0;
    while x < width
        invariant
            x <= width,
            denominator > 0,
            numerator <= denominator,
            layout_of(columns(mines@), x as int, height as int),
            numerator == 0 ==> mine_free(columns(mines@)),
            numerator == denominator ==> all_mines(columns(mines@)),
        decreases width - x,
    {
        let mut column: Vec<bool> = Vec::with_capacity(height as usize);
        let mut y: u16 = 0;
        while y < height
            invariant
                y <= height,
                denominator > 0,
                numerator <= denominator,
                column@.len() == y,
                numerator == 0 ==> forall|j: int| 0 <= j < y ==> !column@[j],
                numerator == denominator ==> forall|j: int| 0 <= j < y ==> column@[j],
            decreases height - y,
        {
            column.push(sample_mine(rng, numerator, denominator));
            y += 1;
        }
        let ghost before = columns(mines@);
        mines.push(column);
        x += 1;
        proof {
            let after = columns(mines@);
            assert forall|i: int| 0 <= i < x implies (#[trigger] after[i]).len() == height by {
                if i < x - 1 {
                    assert(after[i] == before[i]);
                }
            }
            assert forall|i: int, j: int| 0 <= i < after.len() && 0 <= j < after[i].len() implies (
            numerator == 0 ==> !(#[trigger] after[i][j])) && (numerator == denominator
                ==> after[i][j]) by {
                if i < x - 1 {
                    assert(before[i][j] == after[i][j]);
                }
            }
        }
    }
    mines
}

/// The contribution of the neighbour at the given offset: the centre itself
/// is no neighbour.
spec fn probe(mines: Seq<Seq<bool>>, x: int, y: int, dx: int, dy: int) -> int {
    if dx == 0 && dy == 0 {
        0
    } else {
        mine_at(mines, x + dx, y + dy)
    }
}

/// The mines in the column at offset `dx`, among the rows at offsets below `dy`.
spec fn column_upto(mines: Seq<Seq<bool>>, x: int, y: int, dx: int, dy: int) -> int {
    (if dy > -1 {
        probe(mines, x, y, dx, -1)
    } else {
        0
    }) + (if dy > 0 {
        probe(mines, x, y, dx, 0)
    } else {
        0
    }) + (if dy > 1 {
        probe(mines, x, y, dx, 1)
    } else {
        0
    })
}

/// The mines among the neighbours that a column-by-column scan has passed
/// when it stands at offset `(dx, dy)`.
spec fn around_upto(mines: Seq<Seq<bool>>, x: int, y: int, dx: int, dy: int) -> int {
    (if dx > -1 {
        column_upto(mines, x, y, -1, 2)
    } else {
        0
    }) + (if dx > 0 {
        column_upto(mines, x, y, 0, 2)
    } else {
        0
    }) + (if dx > 1 {
        column_upto(mines, x, y, 1, 2)
    } else {
        0
    }) + column_upto(mines, x, y, dx, dy)
}

/// Counts the mines around `(x, y)` in a layout.
pub fn count_around(mines: &Vec<Vec<bool>>, width: u16, height: u16, x: u16, y: u16) -> (count: u8)
    requires
        layout_of(columns(mines@), width as int, height as int),
        x < width,
        y < height,
    ensures
        count == mines_around(columns(mines@), x as int, y as int),
{
    let ghost layout = columns(mines@);
    let mut count: u8 = 0;
    let mut x_offset: i32 = -1;
    while x_offset < 2
        invariant
            -1 <= x_offset <= 2,
            layout == columns(mines@),
            layout_of(layout, width as int, height as int),
            x < width,
            y < height,
            count == around_upto(layout, x as int, y as int, x_offset as int, -1),
            count <= 3 * (x_offset + 1),
        decreases 2 - x_offset,
    {
        let mut y_offset: i32 = -1;
        while y_offset < 2
            invariant
                -1 <= x_offset < 2,
                -1 <= y_offset <= 2,
                layout == columns(mines@),
                layout_of(layout, width as int, height as int),
                x < width,
                y < height,
                count == around_upto(layout, x as int, y as int, x_offset as int, y_offset as int),
                count <= 3 * (x_offset + 1) + (y_offset + 1),
            decreases 2 - y_offset,
        {
            assert(forall|i: int| 0 <= i < width ==> (#[trigger] layout[i]).len() == height);
            if !(x_offset == 0 && y_offset == 0) && !outof_bounds_check(
                x as i32 + x_offset,
                y as i32 + y_offset,
                width as i32,
                height as i32,
            ) {
                if mines[(x as i32 + x_offset) as usize][(y as i32 + y_offset) as usize] {
                    count += 1;
                }
            }
            y_offset += 1;
        }
        x_offset += 1;
    }
    proof {
        reveal(mines_around);
    }
    count
}

/// Builds the tile grid over a mine layout: every tile hidden, with its mine
/// and the count of the mines around it.
pub fn lay_field(width: u16, height: u16, mines: &Vec<Vec<bool>>) -> (tiles: Vec<Vec<Tile>>)
    requires
        layout_of(columns(mines@), width as int, height as int),
    ensures
        columns(tiles@) == fresh_tiles(columns(mines@)),
{
    let ghost layout = columns(mines@);
    let mut tiles: Vec<Vec<Tile>> = Vec::with_capacity(width as usize);
    let mut x: u16 = 0;
    while x < width
        invariant
            x <= width,
            layout == columns(mines@),
            layout_of(layout, width as int, height as int),
            tiles@.len() == x,
            forall|i: int| 0 <= i < x ==> (#[trigger] tiles@[i])@ == fresh_tiles(layout)[i],
        decreases width - x,
    {
        let mut column: Vec<Tile> = Vec::with_capacity(height as usize);
        let mut y: u16 = 0;
        while y < height
            invariant
                x < width,
                y <= height,
                layout == columns(mines@),
                layout_of(layout, width as int, height as int),
                column@.len() == y,
                forall|j: int| 0 <= j < y ==> column@[j] == fresh_tiles(layout)[x as int][j],
            decreases height - y,
        {
            assert(layout[x as int].len() == height);
            let mut tile = Tile::hidden(mines[x as usize][y as usize]);
            tile.bomb_value = count_around(mines, width, height, x, y);
            proof {
                lemma_mines_around_bounds(layout, x as int, y as int);
            }
            column.push(tile);
            y += 1;
        }
        tiles.push(column);
        x += 1;
    }
    tiles
}

/// Generates a grid of `width` columns and `height` rows: each tile is
/// independently a mine with a chance of `numerator` in `denominator`, drawn
/// from `rng`, and gets the count of the mines around it.
pub fn generate_field(
    width: u16,
    height: u16,
    numerator: u32,
    denominator: u32,
    rng: &mut StdRng,
) -> (tiles: Vec<Vec<Tile>>)
    requires
        denominator > 0,
        numerator <= denominator,
    ensures
        rectangular(columns(tiles@), width as int, height as int),
        columns(tiles@) == fresh_tiles(layout(columns(tiles@))),
        counted(columns(tiles@)),
        all_hidden(columns(tiles@)),
        numerator == 0 ==> mine_free(layout(columns(tiles@))),
        numerator == denominator ==> all_mines(layout(columns(tiles@))),
{
    let mines = sample_mines(width, height, numerator, denominator, rng);
    let tiles = lay_field(width, height, &mines);
    proof {
        lemma_fresh_tiles(columns(mines@), width as int, height as int);
    }
    tiles
}

} // verus!
