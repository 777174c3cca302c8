//! The 8x8 board as two disjoint 64-bit occupancy masks, with move legality,
//! flip computation and terminal detection, each pinned to a bit-level model.
//!
//! Square `p` sits at row `p / 8`, column `p % 8`. The model of a flip is the
//! ray model of the game: a direction contributes its contiguous run of
//! opponent discs only when that run ends on an own disc.

use vstd::prelude::*;

use crate::bits::lemma_and_comm;
use crate::bits::lemma_bit_test;
use crate::bits::lemma_disjoint_bit;
use crate::bits::lemma_or_assoc;
use crate::bits::lemma_or_bit;
use crate::bits::lemma_or_ident;
use crate::bits::lemma_or_zero;
use crate::bits::lemma_pop_bound;
use crate::bits::lemma_pop_disjoint;
use crate::bits::lemma_shl_bit;
use crate::bits::lemma_zero_bit;
use crate::bits::nth_bit;
use crate::bits::pop64;
use crate::bits::popcount;
use crate::player::Player;

verus! {

/// Initial black discs: the two central anti-diagonal squares.
pub const DEFAULT_BLACK: u64 = 0x0000000810000000;

/// Initial white discs: the two central diagonal squares.
pub const DEFAULT_WHITE: u64 = 0x0000001008000000;

/// A row/column pair lies on the board.
pub open spec fn in_board(r: int, c: int) -> bool {
    0 <= r < 8 && 0 <= c < 8
}

/// The square index of a row/column pair.
pub open spec fn sq(r: int, c: int) -> u64 {
    (8 * r + c) as u64
}

/// A unit step in one of the eight ray directions.
pub open spec fn valid_dir(dr: int, dc: int) -> bool {
    -1 <= dr <= 1 && -1 <= dc <= 1 && !(dr == 0 && dc == 0)
}

/// Upper bound on the squares a ray can still visit; drives termination of
/// the ray recursions below.
pub open spec fn ray_measure(r: int, c: int, dr: int, dc: int) -> int {
    let mr = if dr > 0 {
        8 - r
    } else if dr < 0 {
        r + 1
    } else {
        16
    };
    let mc = if dc > 0 {
        8 - c
    } else if dc < 0 {
        c + 1
    } else {
        16
    };
    if mr < mc {
        mr
    } else {
        mc
    }
}

/// The ray starting at `(r, c)` runs over opponent discs and ends on an own
/// disc before leaving the board or meeting an empty square.
pub open spec fn run_ends_own(my: u64, opp: u64, r: int, c: int, dr: int, dc: int) -> bool
    decreases ray_measure(r, c, dr, dc)
        when valid_dir(dr, dc)
{
    if !in_board(r, c) {
        false
    } else if nth_bit(my, sq(r, c)) {
        true
    } else if nth_bit(opp, sq(r, c)) {
        run_ends_own(my, opp, r + dr, c + dc, dr, dc)
    } else {
        false
    }
}

/// The contiguous run of opponent discs starting at `(r, c)`, as a mask.
pub open spec fn opp_run(opp: u64, r: int, c: int, dr: int, dc: int) -> u64
    decreases ray_measure(r, c, dr, dc)
        when valid_dir(dr, dc)
{
    if !in_board(r, c) || !nth_bit(opp, sq(r, c)) {
        0u64
    } else {
        (1u64 << sq(r, c)) | opp_run(opp, r + dr, c + dc, dr, dc)
    }
}

/// The discs flipped along direction `(dr, dc)` by placing on `(r, c)`.
pub open spec fn dir_flips(my: u64, opp: u64, r: int, c: int, dr: int, dc: int) -> u64 {
    if run_ends_own(my, opp, r + dr, c + dc, dr, dc) {
        opp_run(opp, r + dr, c + dc, dr, dc)
    } else {
        0u64
    }
}

/// All discs flipped by placing on square `pos`, over the eight directions.
pub open spec fn flips_for(my: u64, opp: u64, pos: int) -> u64 {
    let r = pos / 8;
    let c = pos % 8;
    dir_flips(my, opp, r, c, -1, -1) | dir_flips(my, opp, r, c, -1, 0) | dir_flips(
        my,
        opp,
        r,
        c,
        -1,
        1,
    ) | dir_flips(my, opp, r, c, 0, -1) | dir_flips(my, opp, r, c, 0, 1) | dir_flips(
        my,
        opp,
        r,
        c,
        1,
        -1,
    ) | dir_flips(my, opp, r, c, 1, 0) | dir_flips(my, opp, r, c, 1, 1)
}

/// The board: one mask per colour. Well-formed boards keep them disjoint.
#[derive(Copy, Clone, Debug)]
pub struct BitBoard {
    pub black: u64,
    pub white: u64,
}

impl BitBoard {
    /// The board invariant: no square holds two discs.
    pub open spec fn wf(self) -> bool {
        self.black & self.white == 0
    }

    /// The mask of `p`'s discs.
    pub open spec fn mask_of(self, p: Player) -> u64 {
        match p {
            Player::Black => self.black,
            Player::White => self.white,
        }
    }

    /// The mask of all occupied squares.
    pub open spec fn spec_occupied(self) -> u64 {
        self.black | self.white
    }

    /// The discs `p` flips by placing on `pos`.
    pub open spec fn spec_flips(self, pos: int, p: Player) -> u64 {
        flips_for(self.mask_of(p), self.mask_of(p.spec_opponent()), pos)
    }

    /// `pos` is a playable square for `p`: empty, and it flips something.
    pub open spec fn spec_legal(self, pos: int, p: Player) -> bool {
        &&& 0 <= pos < 64
        &&& !nth_bit(self.spec_occupied(), pos as u64)
        &&& self.spec_flips(pos, p) != 0
    }

    /// The legal squares among `0 .. n`, as a mask.
    pub open spec fn legal_upto(self, p: Player, n: int) -> u64
        decreases n,
    {
        if n <= 0 {
            0u64
        } else {
            self.legal_upto(p, n - 1) | if self.spec_legal(n - 1, p) {
                1u64 << ((n - 1) as u64)
            } else {
                0u64
            }
        }
    }

    /// The mask of all legal squares for `p`.
    pub open spec fn spec_legal_mask(self, p: Player) -> u64 {
        self.legal_upto(p, 64)
    }

    /// The board after `p` plays `pos`: the placed disc and the flipped discs
    /// join `p`'s mask and leave the opponent's.
    pub open spec fn spec_apply(self, pos: int, p: Player) -> BitBoard {
        let bit = 1u64 << (pos as u64);
        let f = self.spec_flips(pos, p);
        match p {
            Player::Black => BitBoard { black: self.black | (bit | f), white: self.white & !f },
            Player::White => BitBoard { black: self.black & !f, white: self.white | (bit | f) },
        }
    }

    /// The game is over: the board is full, or neither side can play.
    pub open spec fn spec_game_over(self) -> bool {
        ||| self.spec_occupied() == !0u64
        ||| (self.spec_legal_mask(Player::Black) == 0 && self.spec_legal_mask(Player::White) == 0)
    }

    /// The disc on `pos`, if any.
    pub open spec fn spec_disc(self, pos: int) -> Option<Player> {
        if nth_bit(self.black, pos as u64) {
            Some(Player::Black)
        } else if nth_bit(self.white, pos as u64) {
            Some(Player::White)
        } else {
            None
        }
    }

    /// The side with strictly more discs, if any.
    pub open spec fn spec_winner(self) -> Option<Player> {
        if pop64(self.black) == pop64(self.white) {
            None
        } else if pop64(self.black) > pop64(self.white) {
            Some(Player::Black)
        } else {
            Some(Player::White)
        }
    }

    /// Creates the board in the standard initial position.
    pub fn new() -> (b: BitBoard)
        ensures
            b.black == DEFAULT_BLACK,
            b.white == DEFAULT_WHITE,
            b.wf(),
    {
        proof {
            assert(0x0000000810000000u64 & 0x0000001008000000u64 == 0) by (bit_vector);
        }
        BitBoard { black: DEFAULT_BLACK, white: DEFAULT_WHITE }
    }

    /// Places a disc of `player` on `pos`, removing any opposing disc there.
    fn set_bit(&mut self, pos: usize, player: Player)
        requires
            pos < 64,
        ensures
            final(self).mask_of(player) == old(self).mask_of(player) | (1u64 << (pos as u64)),
            final(self).mask_of(player.spec_opponent()) == old(self).mask_of(
                player.spec_opponent(),
            ) & !(1u64 << (pos as u64)),
            old(self).wf() ==> final(self).wf(),
    {
        let bit = 1u64 << (pos as u64);
        proof {
            lemma_set_bit_wf(old(self).black, old(self).white, bit);
        }
        match player {
            Player::Black => {
                self.black = self.black | bit;
                self.white = self.white & !bit;
            },
            Player::White => {
                self.white = self.white | bit;
                self.black = self.black & !bit;
            },
        }
    }

    /// Turns every disc in `bits` over to `player`.
    fn flip_bits(&mut self, bits: u64, player: Player)
        ensures
            final(self).mask_of(player) == old(self).mask_of(player) | bits,
            final(self).mask_of(player.spec_opponent()) == old(self).mask_of(
                player.spec_opponent(),
            ) & !bits,
            old(self).wf() ==> final(self).wf(),
    {
        proof {
            lemma_set_bit_wf(old(self).black, old(self).white, bits);
        }
        match player {
            Player::Black => {
                self.black = self.black | bits;
                self.white = self.white & !bits;
            },
            Player::White => {
                self.white = self.white | bits;
                self.black = self.black & !bits;
            },
        }
    }
}

impl BitBoard {
    /// Computes the discs `player` would flip by placing on `pos`.
    pub fn compute_flips(&self, pos: usize, player: Player) -> (f: u64)
        requires
            self.wf(),
            pos < 64,
        ensures
            f == self.spec_flips(pos as int, player),
    {
        proof {
            lemma_and_comm(self.black, self.white);
        }
        let (my, opp) = match player {
            Player::Black => (self.black, self.white),
            Player::White => (self.white, self.black),
        };
        let row = pos / 8;
        let col = pos % 8;
        let mut flips: u64 = flips_in_direction(my, opp, row, col, -1, -1);
        flips = flips | flips_in_direction(my, opp, row, col, -1, 0);
        flips = flips | flips_in_direction(my, opp, row, col, -1, 1);
        flips = flips | flips_in_direction(my, opp, row, col, 0, -1);
        flips = flips | flips_in_direction(my, opp, row, col, 0, 1);
        flips = flips | flips_in_direction(my, opp, row, col, 1, -1);
        flips = flips | flips_in_direction(my, opp, row, col, 1, 0);
        flips = flips | flips_in_direction(my, opp, row, col, 1, 1);
        flips
    }

    /// Plays `pos` for `player` when it is legal; an occupied square or a
    /// flipless square is refused and leaves the board unchanged.
    pub fn make_move(&mut self, pos: usize, player: Player) -> (ok: bool)
        requires
            old(self).wf(),
            pos < 64,
        ensures
            ok == old(self).spec_legal(pos as int, player),
            !ok ==> *final(self) == *old(self),
            ok ==> *final(self) == old(self).spec_apply(pos as int, player),
            final(self).wf(),
    {
        let pos_bit = 1u64 << (pos as u64);
        proof {
            lemma_bit_test(self.black | self.white, pos as u64);
        }
        if (self.black | self.white) & pos_bit != 0 {
            return false;
        }
        let flips = self.compute_flips(pos, player);
        if flips == 0 {
            return false;
        }
        proof {
            lemma_set_bit_wf(old(self).black, old(self).white, pos_bit | flips);
            lemma_andnot_extra(old(self).black, old(self).white, pos_bit, flips);
        }
        match player {
            Player::Black => {
                self.black = self.black | (pos_bit | flips);
                self.white = self.white & !flips;
            },
            Player::White => {
                self.white = self.white | (pos_bit | flips);
                self.black = self.black & !flips;
            },
        }
        true
    }
}

/// Clearing only the flipped discs (not the placed square) still keeps the
/// masks disjoint, because the placed square was empty.
proof fn lemma_andnot_extra(a: u64, b: u64, bit: u64, f: u64)
    requires
        a & b == 0,
    ensures
        (a | (bit | f)) & (b & !f) == 0 || !((a | b) & bit == 0),
        (a & !f) & (b | (bit | f)) == 0 || !((a | b) & bit == 0),
{
    assert((a & b == 0 && (a | b) & bit == 0) ==> ((a | (bit | f)) & (b & !f) == 0 && (a & !f) & (b
        | (bit | f)) == 0)) by (bit_vector);
}

/// Scans one ray and returns the discs it flips: the run of `opp` discs
/// from the square adjacent to `(row, col)` in direction `(dr, dc)`, when
/// that run ends on a `my` disc.
fn flips_in_direction(my: u64, opp: u64, row: usize, col: usize, dr: i64, dc: i64) -> (f: u64)
    requires
        row < 8,
        col < 8,
        valid_dir(dr as int, dc as int),
        my & opp == 0,
    ensures
        f == dir_flips(my, opp, row as int, col as int, dr as int, dc as int),
{
    let ghost target = dir_flips(my, opp, row as int, col as int, dr as int, dc as int);
    let mut r: i64 = row as i64 + dr;
    let mut c: i64 = col as i64 + dc;
    let mut acc: u64 = 0;
    proof {
        lemma_or_ident(opp_run(opp, r as int, c as int, dr as int, dc as int));
    }
    while 0 <= r && r < 8 && 0 <= c && c < 8
        invariant
            valid_dir(dr as int, dc as int),
            my & opp == 0,
            row < 8,
            col < 8,
            -1 <= r <= 8,
            -1 <= c <= 8,
            target == dir_flips(my, opp, row as int, col as int, dr as int, dc as int),
            target == if run_ends_own(my, opp, r as int, c as int, dr as int, dc as int) {
                acc | opp_run(opp, r as int, c as int, dr as int, dc as int)
            } else {
                0u64
            },
        decreases ray_measure(r as int, c as int, dr as int, dc as int),
    {
        let pos = (r * 8 + c) as u64;
        assert(pos == sq(r as int, c as int));
        let bit = 1u64 << pos;
        proof {
            lemma_bit_test(opp, pos);
            lemma_bit_test(my, pos);
            lemma_disjoint_bit(my, opp, pos);
        }
        if (opp & bit) != 0 {
            proof {
                lemma_or_assoc(acc, bit, opp_run(opp, r as int + dr as int, c as int + dc as int, dr as int, dc as int));
            }
            acc = acc | bit;
            r = r + dr;
            c = c + dc;
        } else if (my & bit) != 0 {
            proof {
                lemma_or_ident(acc);
            }
            return acc;
        } else {
            return 0;
        }
    }
    0
}

impl BitBoard {
    /// Computes a mask that covers every square from which a flip run
    /// through `pos` could start: all neighbours of `pos` that have at
    /// least one further square behind them in the same direction.
    fn get_adjacent_mask(&self, pos: usize) -> (mask: u64)
        requires
            pos < 64,
        ensures
            pos % 8 >= 2 ==> nth_bit(mask, (pos - 1) as u64),
            pos % 8 <= 5 ==> nth_bit(mask, (pos + 1) as u64),
            pos >= 16 ==> nth_bit(mask, (pos - 8) as u64),
            pos < 48 ==> nth_bit(mask, (pos + 8) as u64),
            pos >= 16 && pos % 8 >= 2 ==> nth_bit(mask, (pos - 9) as u64),
            pos >= 16 && pos % 8 <= 5 ==> nth_bit(mask, (pos - 7) as u64),
            pos < 48 && pos % 8 >= 2 ==> nth_bit(mask, (pos + 7) as u64),
            pos < 48 && pos % 8 <= 5 ==> nth_bit(mask, (pos + 9) as u64),
    {
        let pos_bit = 1u64 << (pos as u64);
        let mask = ((pos_bit >> 1) & 0x7f7f7f7f7f7f7f7f) | ((pos_bit << 1) & 0xfefefefefefefefe)
            | ((pos_bit >> 8) & 0xffffffffffffff00) | ((pos_bit << 8) & 0x00ffffffffffffff) | ((
        pos_bit >> 9) & 0x7f7f7f7f7f7f7f00) | ((pos_bit >> 7) & 0xfefefefefefefe00) | ((pos_bit
            << 7) & 0x007f7f7f7f7f7f7f) | ((pos_bit << 9) & 0x00fefefefefefefe);
        proof {
            lemma_adjacent_mask_bits(pos as u64);
        }
        mask
    }
}

impl BitBoard {
    /// Decides whether `pos` is a playable square for `player`, using the
    /// adjacency mask to dismiss squares with no reachable opponent disc
    /// before running the full eight-ray scan.
    pub fn is_legal_move(&self, pos: usize, player: Player) -> (r: bool)
        requires
            self.wf(),
            pos < 64,
        ensures
            r == self.spec_legal(pos as int, player),
    {
        let pos_bit = 1u64 << (pos as u64);
        proof {
            lemma_bit_test(self.black | self.white, pos as u64);
        }
        if (self.black | self.white) & pos_bit != 0 {
            return false;
        }
        proof {
            lemma_and_comm(self.black, self.white);
        }
        let opp = match player {
            Player::Black => self.white,
            Player::White => self.black,
        };
        let adjacent_mask = self.get_adjacent_mask(pos);
        if adjacent_mask & opp == 0 {
            proof {
                let my = self.mask_of(player);
                assert(opp == self.mask_of(player.spec_opponent()));
                let r0 = pos as int / 8;
                let c0 = pos as int % 8;
                vstd::arithmetic::div_mod::lemma_fundamental_div_mod(pos as int, 8);
                assert forall|dr: int, dc: int| valid_dir(dr, dc) implies (#[trigger] dir_flips(
                    my,
                    opp,
                    r0,
                    c0,
                    dr,
                    dc,
                )) == 0 by {
                    if dir_flips(my, opp, r0, c0, dr, dc) != 0 {
                        lemma_dir_flips_needs_adjacent(my, opp, r0, c0, dr, dc);
                        let k = sq(r0 + dr, c0 + dc);
                        assert(nth_bit(adjacent_mask, k));
                        lemma_disjoint_bit(adjacent_mask, opp, k);
                    }
                }
                assert(dir_flips(my, opp, r0, c0, -1, -1) == 0);
                assert(dir_flips(my, opp, r0, c0, -1, 0) == 0);
                assert(dir_flips(my, opp, r0, c0, -1, 1) == 0);
                assert(dir_flips(my, opp, r0, c0, 0, -1) == 0);
                assert(dir_flips(my, opp, r0, c0, 0, 1) == 0);
                assert(dir_flips(my, opp, r0, c0, 1, -1) == 0);
                assert(dir_flips(my, opp, r0, c0, 1, 0) == 0);
                assert(dir_flips(my, opp, r0, c0, 1, 1) == 0);
                lemma_or_ident(0u64);
                assert(flips_for(my, opp, pos as int) == 0);
                assert(self.spec_flips(pos as int, player) == 0);
            }
            return false;
        }
        self.compute_flips(pos, player) != 0
    }

    /// Computes the mask of all playable squares for `player`.
    pub fn get_legal_moves(&self, player: Player) -> (moves: u64)
        requires
            self.wf(),
        ensures
            moves == self.spec_legal_mask(player),
    {
        let mut legal_moves: u64 = 0;
        let occupied = self.black | self.white;
        let mut pos: usize = 0;
        while pos < 64
            invariant
                self.wf(),
                occupied == self.spec_occupied(),
                pos <= 64,
                legal_moves == self.legal_upto(player, pos as int),
            decreases 64 - pos,
        {
            let pos_bit = 1u64 << (pos as u64);
            proof {
                lemma_bit_test(occupied, pos as u64);
                lemma_or_ident(legal_moves);
            }
            if (occupied & pos_bit) == 0 {
                let f = self.compute_flips(pos, player);
                if f != 0 {
                    legal_moves = legal_moves | pos_bit;
                }
            }
            pos = pos + 1;
        }
        legal_moves
    }

    /// The playable squares among `0 .. n`, in ascending order.
    pub open spec fn legal_positions_upto(self, p: Player, n: int) -> Seq<usize>
        decreases n,
    {
        if n <= 0 {
            Seq::empty()
        } else {
            let rest = self.legal_positions_upto(p, n - 1);
            if self.spec_legal(n - 1, p) {
                rest.push((n - 1) as usize)
            } else {
                rest
            }
        }
    }

    /// Lists the playable squares for `player` in ascending order.
    pub fn get_legal_move_positions(&self, player: Player) -> (positions: Vec<usize>)
        requires
            self.wf(),
        ensures
            positions@ == self.legal_positions_upto(player, 64),
    {
        let legal_moves = self.get_legal_moves(player);
        let mut positions: Vec<usize> = Vec::new();
        let mut pos: usize = 0;
        while pos < 64
            invariant
                self.wf(),
                pos <= 64,
                legal_moves == self.spec_legal_mask(player),
                positions@ == self.legal_positions_upto(player, pos as int),
            decreases 64 - pos,
        {
            let bit = 1u64 << (pos as u64);
            proof {
                lemma_bit_test(legal_moves, pos as u64);
                lemma_legal_mask_bit(*self, player, pos as u64);
            }
            if (legal_moves & bit) != 0 {
                positions.push(pos);
            }
            pos = pos + 1;
        }
        positions
    }

    /// Returns the disc on `pos`, or nothing for an empty or off-board square.
    pub fn get_disc(&self, pos: usize) -> (r: Option<Player>)
        ensures
            r == if pos < 64 {
                self.spec_disc(pos as int)
            } else {
                None::<Player>
            },
    {
        if pos >= 64 {
            return None;
        }
        let bit = 1u64 << (pos as u64);
        proof {
            lemma_bit_test(self.black, pos as u64);
            lemma_bit_test(self.white, pos as u64);
        }
        if (self.black & bit) != 0 {
            Some(Player::Black)
        } else if (self.white & bit) != 0 {
            Some(Player::White)
        } else {
            None
        }
    }

    /// Returns the disc on row `row`, column `col`.
    pub fn get_disc_at(&self, row: usize, col: usize) -> (r: Option<Player>)
        ensures
            r == if in_board(row as int, col as int) {
                self.spec_disc(8 * row + col)
            } else {
                None::<Player>
            },
    {
        if row >= 8 || col >= 8 {
            return None;
        }
        self.get_disc(row * 8 + col)
    }

    /// Counts `player`'s discs.
    pub fn count_discs(&self, player: Player) -> (r: u32)
        ensures
            r as int == pop64(self.mask_of(player)),
            r <= 64,
    {
        match player {
            Player::Black => popcount(self.black),
            Player::White => popcount(self.white),
        }
    }

    /// Counts the discs of both sides: black first.
    pub fn count_all_discs(&self) -> (r: (u32, u32))
        ensures
            r.0 as int == pop64(self.black),
            r.1 as int == pop64(self.white),
    {
        (popcount(self.black), popcount(self.white))
    }

    /// `player` has no playable square and must pass.
    pub fn is_pass_required(&self, player: Player) -> (r: bool)
        requires
            self.wf(),
        ensures
            r == (self.spec_legal_mask(player) == 0),
    {
        self.get_legal_moves(player) == 0
    }

    /// The game is over: the board is full, or neither side can play.
    pub fn is_game_over(&self) -> (r: bool)
        requires
            self.wf(),
        ensures
            r == self.spec_game_over(),
    {
        if self.black | self.white == !0u64 {
            return true;
        }
        self.get_legal_moves(Player::Black) == 0 && self.get_legal_moves(Player::White) == 0
    }

    /// Returns the side with strictly more discs, or nothing on a tie.
    pub fn get_winner(&self) -> (r: Option<Player>)
        ensures
            r == self.spec_winner(),
    {
        let black_count = self.count_discs(Player::Black);
        let white_count = self.count_discs(Player::White);
        if black_count == white_count {
            None
        } else if black_count > white_count {
            Some(Player::Black)
        } else {
            Some(Player::White)
        }
    }
}

impl Default for BitBoard {
    /// The default board is the standard initial position.
    fn default() -> (b: BitBoard)
        ensures
            b.black == DEFAULT_BLACK,
            b.white == DEFAULT_WHITE,
            b.wf(),
    {
        BitBoard::new()
    }
}

/// Bit `k` of the legal-move mask is set exactly when square `k` is playable:
/// every move the mask advertises is accepted by `make_move`, whose contract
/// then applies the move, and no playable square is missing from the mask.
pub proof fn lemma_legal_mask_bit(b: BitBoard, p: Player, k: u64)
    requires
        k < 64,
    ensures
        nth_bit(b.spec_legal_mask(p), k) <==> b.spec_legal(k as int, p),
{
    lemma_legal_upto_bit(b, p, 64, k);
}

proof fn lemma_legal_upto_bit(b: BitBoard, p: Player, n: int, k: u64)
    requires
        n <= 64,
        k < 64,
    ensures
        nth_bit(b.legal_upto(p, n), k) <==> (k < n && b.spec_legal(k as int, p)),
    decreases n,
{
    if n <= 0 {
        lemma_zero_bit(k);
    } else {
        lemma_legal_upto_bit(b, p, n - 1, k);
        let term = if b.spec_legal(n - 1, p) {
            1u64 << ((n - 1) as u64)
        } else {
            0u64
        };
        lemma_or_bit(b.legal_upto(p, n - 1), term, k);
        if b.spec_legal(n - 1, p) {
            lemma_shl_bit((n - 1) as u64, k);
        } else {
            lemma_zero_bit(k);
        }
    }
}

/// A non-empty legal-move mask names at least one playable square.
pub proof fn lemma_legal_mask_nonzero(b: BitBoard, p: Player)
    requires
        b.spec_legal_mask(p) != 0,
    ensures
        exists|k: int| 0 <= k < 64 && b.spec_legal(k, p),
{
    lemma_legal_upto_nonzero(b, p, 64);
}

proof fn lemma_legal_upto_nonzero(b: BitBoard, p: Player, n: int)
    requires
        b.legal_upto(p, n) != 0,
        n <= 64,
    ensures
        exists|k: int| 0 <= k < n && b.spec_legal(k, p),
    decreases n,
{
    if n > 0 {
        let term = if b.spec_legal(n - 1, p) {
            1u64 << ((n - 1) as u64)
        } else {
            0u64
        };
        lemma_or_zero(b.legal_upto(p, n - 1), term);
        if b.spec_legal(n - 1, p) {
            assert(0 <= n - 1 < n && b.spec_legal(n - 1, p));
        } else {
            lemma_legal_upto_nonzero(b, p, n - 1);
        }
    }
}

/// Discs never overlap, and discs plus empty squares account for all 64
/// squares of a well-formed board.
pub proof fn lemma_disc_conservation(b: BitBoard)
    requires
        b.wf(),
    ensures
        pop64(b.spec_occupied()) == pop64(b.black) + pop64(b.white),
        pop64(b.black) + pop64(b.white) + (64 - pop64(b.spec_occupied())) == 64,
        0 <= pop64(b.spec_occupied()) <= 64,
{
    lemma_pop_disjoint(b.black, b.white);
    lemma_pop_bound(b.spec_occupied());
}

/// The empty mask lies inside any mask.
proof fn lemma_zero_in_mask(m: u64)
    ensures
        0u64 & !m == 0,
{
    assert(0u64 & !m == 0) by (bit_vector);
}

/// A union of submasks of `m` is a submask of `m`, and a set bit of `m`
/// forms one.
proof fn lemma_union_in_mask(a: u64, b: u64, m: u64, k: u64)
    requires
        k < 64,
    ensures
        a & !m == 0 && b & !m == 0 ==> (a | b) & !m == 0,
        nth_bit(m, k) ==> (1u64 << k) & !m == 0,
{
    assert((a & !m == 0 && b & !m == 0 ==> (a | b) & !m == 0) && ((m >> k) & 1 == 1 ==> (1u64 << k)
        & !m == 0)) by (bit_vector)
        requires
            k < 64,
    ;
}

/// The run of opponent discs along a ray lies inside the opponent's mask.
proof fn lemma_opp_run_in_opp(opp: u64, r: int, c: int, dr: int, dc: int)
    requires
        valid_dir(dr, dc),
    ensures
        opp_run(opp, r, c, dr, dc) & !opp == 0,
    decreases ray_measure(r, c, dr, dc),
{
    if !in_board(r, c) || !nth_bit(opp, sq(r, c)) {
        lemma_zero_in_mask(opp);
    } else {
        lemma_opp_run_in_opp(opp, r + dr, c + dc, dr, dc);
        lemma_union_in_mask(1u64 << sq(r, c), opp_run(opp, r + dr, c + dc, dr, dc), opp, sq(r, c));
    }
}

/// What a player flips lies inside the opponent's discs.
pub proof fn lemma_flips_in_opponent(b: BitBoard, pos: int, p: Player)
    requires
        0 <= pos < 64,
    ensures
        b.spec_flips(pos, p) & !b.mask_of(p.spec_opponent()) == 0,
{
    let my = b.mask_of(p);
    let opp = b.mask_of(p.spec_opponent());
    let r = pos / 8;
    let c = pos % 8;
    lemma_zero_in_mask(opp);
    assert forall|dr: int, dc: int| valid_dir(dr, dc) implies (#[trigger] dir_flips(
        my,
        opp,
        r,
        c,
        dr,
        dc,
    )) & !opp == 0 by {
        lemma_opp_run_in_opp(opp, r + dr, c + dc, dr, dc);
    }
    let d1 = dir_flips(my, opp, r, c, -1, -1);
    let d2 = dir_flips(my, opp, r, c, -1, 0);
    let d3 = dir_flips(my, opp, r, c, -1, 1);
    let d4 = dir_flips(my, opp, r, c, 0, -1);
    let d5 = dir_flips(my, opp, r, c, 0, 1);
    let d6 = dir_flips(my, opp, r, c, 1, -1);
    let d7 = dir_flips(my, opp, r, c, 1, 0);
    let d8 = dir_flips(my, opp, r, c, 1, 1);
    lemma_union_in_mask(d1, d2, opp, 0);
    lemma_union_in_mask(d1 | d2, d3, opp, 0);
    lemma_union_in_mask(d1 | d2 | d3, d4, opp, 0);
    lemma_union_in_mask(d1 | d2 | d3 | d4, d5, opp, 0);
    lemma_union_in_mask(d1 | d2 | d3 | d4 | d5, d6, opp, 0);
    lemma_union_in_mask(d1 | d2 | d3 | d4 | d5 | d6, d7, opp, 0);
    lemma_union_in_mask(d1 | d2 | d3 | d4 | d5 | d6 | d7, d8, opp, 0);
}

/// The disjointness facts a move application rests on: the placed bit is
/// fresh, the flips lie inside the opponent's mask, and the updated masks
/// stay disjoint.
proof fn lemma_apply_pieces(my: u64, opp: u64, bit: u64, f: u64)
    requires
        my & opp == 0,
        (my | opp) & bit == 0,
        f & !opp == 0,
    ensures
        my & (bit | f) == 0,
        bit & f == 0,
        opp & f == f,
        (my | (bit | f)) & (opp & !f) == 0,
        (opp & !f) & (my | (bit | f)) == 0,
{
    assert((my & opp == 0 && (my | opp) & bit == 0 && f & !opp == 0) ==> (my & (bit | f) == 0 && bit
        & f == 0 && opp & f == f && (my | (bit | f)) & (opp & !f) == 0 && (opp & !f) & (my | (bit
        | f)) == 0)) by (bit_vector);
}

/// A legal move adds exactly one disc: the mover gains the placed disc and
/// the flipped discs, the opponent loses exactly the flipped discs, and the
/// total disc count grows by one.
pub proof fn lemma_move_adds_one_disc(b: BitBoard, pos: int, p: Player)
    requires
        b.wf(),
        b.spec_legal(pos, p),
    ensures
        b.spec_apply(pos, p).wf(),
        pop64(b.spec_apply(pos, p).mask_of(p)) == pop64(b.mask_of(p)) + 1 + pop64(
            b.spec_flips(pos, p),
        ),
        pop64(b.spec_apply(pos, p).mask_of(p.spec_opponent())) == pop64(
            b.mask_of(p.spec_opponent()),
        ) - pop64(b.spec_flips(pos, p)),
        pop64(b.spec_apply(pos, p).black) + pop64(b.spec_apply(pos, p).white) == pop64(b.black)
            + pop64(b.white) + 1,
{
    let my = b.mask_of(p);
    let opp = b.mask_of(p.spec_opponent());
    let bit = 1u64 << (pos as u64);
    let f = b.spec_flips(pos, p);
    lemma_flips_in_opponent(b, pos, p);
    lemma_bit_test(b.black | b.white, pos as u64);
    lemma_and_comm(b.black, b.white);
    let bb = b.black;
    let ww = b.white;
    assert((bb | ww) & bit == 0);
    assert((bb | ww) & bit == 0 ==> (ww | bb) & bit == 0) by (bit_vector);
    assert((my | opp) & bit == 0);
    lemma_apply_pieces(my, opp, bit, f);
    lemma_pop_disjoint(my, bit | f);
    lemma_pop_disjoint(bit, f);
    crate::bits::lemma_pop_single(pos as u64);
    crate::bits::lemma_pop_split(opp, f);
    assert(opp & f == f);
}

/// Swapping the colour of every disc turns the flips of one player into the
/// flips of the other at the same square.
pub proof fn lemma_flips_color_swap(b: BitBoard, pos: int, p: Player)
    ensures
        b.spec_flips(pos, p) == (BitBoard { black: b.white, white: b.black }).spec_flips(
            pos,
            p.spec_opponent(),
        ),
{
}

/// The eight neighbour bits covered by the adjacency mask expression.
proof fn lemma_adjacent_mask_bits(p: u64)
    by (bit_vector)
    requires
        p < 64,
    ensures
        ({
            let b = 1u64 << p;
            let m = ((b >> 1) & 0x7f7f7f7f7f7f7f7f) | ((b << 1) & 0xfefefefefefefefe) | ((b >> 8)
                & 0xffffffffffffff00) | ((b << 8) & 0x00ffffffffffffff) | ((b >> 9)
                & 0x7f7f7f7f7f7f7f00) | ((b >> 7) & 0xfefefefefefefe00) | ((b << 7)
                & 0x007f7f7f7f7f7f7f) | ((b << 9) & 0x00fefefefefefefe);
            &&& p % 8 >= 2 ==> nth_bit(m, (p - 1) as u64)
            &&& p % 8 <= 5 ==> nth_bit(m, (p + 1) as u64)
            &&& p >= 16 ==> nth_bit(m, (p - 8) as u64)
            &&& p < 48 ==> nth_bit(m, (p + 8) as u64)
            &&& p >= 16 && p % 8 >= 2 ==> nth_bit(m, (p - 9) as u64)
            &&& p >= 16 && p % 8 <= 5 ==> nth_bit(m, (p - 7) as u64)
            &&& p < 48 && p % 8 >= 2 ==> nth_bit(m, (p + 7) as u64)
            &&& p < 48 && p % 8 <= 5 ==> nth_bit(m, (p + 9) as u64)
        }),
{
}

/// A direction can only flip discs when the adjacent square holds an
/// opponent disc and has a square behind it.
proof fn lemma_dir_flips_needs_adjacent(my: u64, opp: u64, r: int, c: int, dr: int, dc: int)
    requires
        valid_dir(dr, dc),
        my & opp == 0,
        dir_flips(my, opp, r, c, dr, dc) != 0,
    ensures
        in_board(r + dr, c + dc),
        nth_bit(opp, sq(r + dr, c + dc)),
        in_board(r + 2 * dr, c + 2 * dc),
{
    let nr = r + dr;
    let nc = c + dc;
    assert(run_ends_own(my, opp, nr, nc, dr, dc));
    assert(opp_run(opp, nr, nc, dr, dc) != 0);
    assert(in_board(nr, nc) && nth_bit(opp, sq(nr, nc)));
    lemma_disjoint_bit(my, opp, sq(nr, nc));
    assert(run_ends_own(my, opp, nr + dr, nc + dc, dr, dc));
}

/// Adding `bits` to one mask while clearing them from the other preserves
/// disjointness.
proof fn lemma_set_bit_wf(a: u64, b: u64, bits: u64)
    ensures
        a & b == 0 ==> (a | bits) & (b & !bits) == 0,
        a & b == 0 ==> (a & !bits) & (b | bits) == 0,
{
    assert(a & b == 0 ==> ((a | bits) & (b & !bits) == 0 && (a & !bits) & (b | bits) == 0))
        by (bit_vector);
}

} // verus!
