//! The value types of the game: what a tile shows, what a tile is, how far
//! the game has come, and which button the player used.

use vstd::prelude::*;

verus! {

/// What a tile shows to the player.
#[derive(Clone, Copy, Debug, PartialEq, Eq, Structural)]
pub enum TileState {
    /// Hidden: nothing is known about the tile yet.
    Default,
    /// Revealed: the tile is shown with its count of neighbouring mines.
    Sweeped,
    /// Hidden and marked by the player; a marked tile cannot be revealed.
    Flag,
    /// A mine that has been uncovered.
    Mine,
}

/// How far a game has come.
#[derive(Clone, Copy, Debug, PartialEq, Eq, Structural)]
pub enum GameState {
    /// The player may reveal and flag tiles.
    Running,
    /// A mine was revealed; the board is frozen.
    GameOver,
    /// Every tile without a mine is revealed; the board is frozen.
    Won,
}

/// The button of an input event, as far as the game tells buttons apart.
#[derive(Clone, Copy, Debug, PartialEq, Eq, Structural)]
pub enum Button {
    /// The primary mouse button: reveals on release.
    MouseLeft,
    /// The secondary mouse button: flags on press.
    MouseRight,
    /// Any other button or key.
    Other,
}

/// One cell of the grid.
#[derive(Clone, Copy, Debug, PartialEq, Eq, Structural)]
pub struct Tile {
    /// Number of mines among the up to eight neighbours, fixed at generation.
    pub bomb_value: u8,
    /// What the tile currently shows.
    pub tile_state: TileState,
    /// Whether the tile holds a mine, fixed at generation.
    pub has_bomb: bool,
}

impl Tile {
    /// A hidden tile with the given mine and a count of zero.
    pub fn hidden(has_bomb: bool) -> (tile: Tile)
        ensures
            tile == (Tile { bomb_value: 0, tile_state: TileState::Default, has_bomb }),
    {
        Tile { bomb_value: 0, tile_state: TileState::Default, has_bomb }
    }
}

} // verus!
