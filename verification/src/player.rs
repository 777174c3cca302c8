//! The two disc colours, and the transposition-table entry shape shared by
//! the search engine and its callers.

use vstd::prelude::*;

verus! {

/// A side of the game: the black discs or the white discs.
#[derive(Copy, Clone, Eq, PartialEq, Structural, Debug, Hash)]
pub enum Player {
    Black,
    White,
}

impl Player {
    /// The other side.
    pub open spec fn spec_opponent(self) -> Player {
        match self {
            Player::Black => Player::White,
            Player::White => Player::Black,
        }
    }

    /// Returns the other side.
    pub fn opponent(&self) -> (r: Player)
        ensures
            r == self.spec_opponent(),
    {
        match self {
            Player::Black => Player::White,
            Player::White => Player::Black,
        }
    }

    /// Index of the side in two-entry tables: black first.
    pub open spec fn spec_index(self) -> int {
        match self {
            Player::Black => 0,
            Player::White => 1,
        }
    }

    /// Returns the side's index in two-entry tables.
    pub fn index(&self) -> (r: u8)
        ensures
            r as int == self.spec_index(),
            r < 2,
    {
        match self {
            Player::Black => 0,
            Player::White => 1,
        }
    }

    /// Returns the side's display name.
    pub fn to_string(&self) -> (r: &'static str)
        ensures
            r@ == (if self is Black { "black"@ } else { "white"@ }),
    {
        match self {
            Player::Black => "black",
            Player::White => "white",
        }
    }

    /// Returns the side's one-character board mark.
    pub fn to_char(&self) -> (r: char)
        ensures
            r == (if self is Black { 'X' } else { 'O' }),
    {
        match self {
            Player::Black => 'X',
            Player::White => 'O',
        }
    }
}

/// How a stored search score relates to the true score of its position.
#[derive(Clone, Copy)]
pub enum NodeType {
    Exact,
    LowerBound,
    UpperBound,
}

/// One transposition-table record: the score found for a position, how many
/// plies deep the search that produced it looked, how the score bounds the
/// true value, and the best move if one was identified.
#[derive(Clone, Copy)]
pub struct Entry {
    pub score: i32,
    pub depth: u8,
    pub flag: NodeType,
    pub best_move: Option<u8>,
}

} // verus!
