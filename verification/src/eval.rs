//! Phase-aware static evaluation of a board snapshot, from the viewpoint of
//! one side: positional table, mobility, corner ownership, stable discs,
//! disc differential and move parity, blended by game phase. Terminal boards
//! score as a win/loss offset plus the disc differential.

use vstd::prelude::*;

use crate::bits::lemma_bit_test;
use crate::bits::lemma_disjoint_bit;
use crate::bits::nth_bit;
use crate::bits::pop64;
use crate::bits::popcount;
use crate::board::in_board;
use crate::board::BitBoard;
use crate::player::Player;

verus! {

/// Empty-square count above which the game counts as early.
pub const EARLY_GAME_THRESHOLD: u32 = 25;

/// Occupied-square count above which the game counts as late.
pub const MID_GAME_THRESHOLD: u32 = 50;

/// Bonus for forcing the opponent to pass (and penalty for passing).
pub const PASS_BONUS: i32 = 30;

/// Weight of an owned corner.
pub const CORNER_WEIGHT: i32 = 300;

/// The three phases of a game, derived from the number of empty squares.
#[derive(Debug, Clone, Copy, PartialEq, Eq, Structural)]
pub enum GamePhase {
    Early,
    Mid,
    End,
}

/// The phase a board with `empty` empty squares is in.
pub open spec fn phase_of(empty: int) -> GamePhase {
    if empty > EARLY_GAME_THRESHOLD as int {
        GamePhase::Early
    } else if empty > 64 - MID_GAME_THRESHOLD as int {
        GamePhase::Mid
    } else {
        GamePhase::End
    }
}

impl GamePhase {
    /// Derives the phase from the number of empty squares.
    pub fn from_empty_count(empty_count: u32) -> (r: GamePhase)
        ensures
            r == phase_of(empty_count as int),
    {
        if empty_count > EARLY_GAME_THRESHOLD {
            GamePhase::Early
        } else if empty_count > 64 - MID_GAME_THRESHOLD {
            GamePhase::Mid
        } else {
            GamePhase::End
        }
    }

    /// Index into two-entry heuristic tables: the endgame is kept apart.
    pub open spec fn spec_index(self) -> int {
        match self {
            GamePhase::Early => 0,
            GamePhase::Mid => 0,
            GamePhase::End => 1,
        }
    }

    /// Returns the table index of the phase.
    pub fn index(&self) -> (r: usize)
        ensures
            r as int == self.spec_index(),
            r < 2,
    {
        match self {
            GamePhase::Early => 0,
            GamePhase::Mid => 0,
            GamePhase::End => 1,
        }
    }
}

/// The static worth of holding a square: corners high, the squares beside
/// an open corner strongly negative, interiors near zero. The table is
/// symmetric under the board's reflections, so it is written over folded
/// coordinates `min(r, 7 - r)` and `min(c, 7 - c)`.
pub open spec fn position_score_spec(r: int, c: int) -> int {
    let a = if r < 4 {
        r
    } else {
        7 - r
    };
    let b = if c < 4 {
        c
    } else {
        7 - c
    };
    let x = if a < b {
        a
    } else {
        b
    };
    let y = if a < b {
        b
    } else {
        a
    };
    if x == 0 && y == 0 {
        100
    } else if x == 0 && y == 1 {
        -20
    } else if x == 0 && y == 2 {
        10
    } else if x == 0 {
        5
    } else if x == 1 && y == 1 {
        -50
    } else if x == 1 {
        -2
    } else {
        -1
    }
}

/// Returns the positional worth of square `(row, col)`.
pub fn position_score(row: usize, col: usize) -> (v: i32)
    requires
        row < 8,
        col < 8,
    ensures
        v as int == position_score_spec(row as int, col as int),
        -50 <= v <= 100,
{
    let a = if row < 4 {
        row
    } else {
        7 - row
    };
    let b = if col < 4 {
        col
    } else {
        7 - col
    };
    let x = if a < b {
        a
    } else {
        b
    };
    let y = if a < b {
        b
    } else {
        a
    };
    if x == 0 && y == 0 {
        100
    } else if x == 0 && y == 1 {
        -20
    } else if x == 0 && y == 2 {
        10
    } else if x == 0 {
        5
    } else if x == 1 && y == 1 {
        -50
    } else if x == 1 {
        -2
    } else {
        -1
    }
}

/// The positional sum over squares `0 .. n`: own discs add their square's
/// worth, opponent discs subtract it.
pub open spec fn pos_value_sum(my: u64, opp: u64, n: int) -> int
    decreases n,
{
    if n <= 0 {
        0
    } else {
        let v = position_score_spec((n - 1) / 8, (n - 1) % 8);
        pos_value_sum(my, opp, n - 1) + if nth_bit(my, (n - 1) as u64) {
            v
        } else if nth_bit(opp, (n - 1) as u64) {
            -v
        } else {
            0int
        }
    }
}

proof fn lemma_pos_value_sum_bound(my: u64, opp: u64, n: int)
    requires
        0 <= n <= 64,
    ensures
        -100 * n <= pos_value_sum(my, opp, n) <= 100 * n,
    decreases n,
{
    if n > 0 {
        lemma_pos_value_sum_bound(my, opp, n - 1);
    }
}

/// The positional sum flips sign when the two sides swap discs.
proof fn lemma_pos_value_sum_antisym(my: u64, opp: u64, n: int)
    requires
        my & opp == 0,
        n <= 64,
    ensures
        pos_value_sum(my, opp, n) == -pos_value_sum(opp, my, n),
    decreases n,
{
    if n > 0 {
        lemma_pos_value_sum_antisym(my, opp, n - 1);
        lemma_disjoint_bit(my, opp, (n - 1) as u64);
    }
}

impl BitBoard {
    /// The positional component of the evaluation for `p`.
    pub open spec fn position_value_spec(self, p: Player) -> int {
        pos_value_sum(self.mask_of(p), self.mask_of(p.spec_opponent()), 64)
    }

    /// Sums the positional worth of `player`'s discs minus the opponent's.
    pub fn evaluate_position_value(&self, player: Player) -> (score: i32)
        ensures
            score as int == self.position_value_spec(player),
            -6400 <= score <= 6400,
    {
        let (my_board, opp_board) = match player {
            Player::Black => (self.black, self.white),
            Player::White => (self.white, self.black),
        };
        let mut score: i32 = 0;
        let mut pos: usize = 0;
        while pos < 64
            invariant
                pos <= 64,
                score as int == pos_value_sum(my_board, opp_board, pos as int),
                -100 * pos <= score as int <= 100 * pos,
            decreases 64 - pos,
        {
            let bit = 1u64 << (pos as u64);
            let row = pos / 8;
            let col = pos % 8;
            let value = position_score(row, col);
            proof {
                lemma_bit_test(my_board, pos as u64);
                lemma_bit_test(opp_board, pos as u64);
            }
            if (my_board & bit) != 0 {
                score = score + value;
            } else if (opp_board & bit) != 0 {
                score = score - value;
            }
            pos = pos + 1;
        }
        score
    }

    /// The mobility component: the legal-move differential, with a bonus
    /// when the opponent must pass and a penalty when `p` must pass.
    pub open spec fn mobility_spec(self, p: Player) -> int {
        let m = pop64(self.spec_legal_mask(p));
        let o = pop64(self.spec_legal_mask(p.spec_opponent()));
        let diff = m - o;
        if o == 0 && m > 0 {
            diff + PASS_BONUS as int
        } else if m == 0 && o > 0 {
            diff - PASS_BONUS as int
        } else {
            diff
        }
    }

    /// Computes the mobility differential for `player`.
    pub fn evaluate_mobility(&self, player: Player) -> (score: i32)
        requires
            self.wf(),
        ensures
            score as int == self.mobility_spec(player),
            -94 <= score <= 94,
    {
        let my_moves = popcount(self.get_legal_moves(player)) as i32;
        let opp_moves = popcount(self.get_legal_moves(player.opponent())) as i32;
        let mobility_diff = my_moves - opp_moves;
        if opp_moves == 0 && my_moves > 0 {
            mobility_diff + PASS_BONUS
        } else if my_moves == 0 && opp_moves > 0 {
            mobility_diff - PASS_BONUS
        } else {
            mobility_diff
        }
    }

    /// The disc-count differential from `p`'s view.
    pub open spec fn disc_count_spec(self, p: Player) -> int {
        pop64(self.mask_of(p)) - pop64(self.mask_of(p.spec_opponent()))
    }

    /// Computes the disc-count differential for `player`.
    pub fn evaluate_disc_count(&self, player: Player) -> (score: i32)
        ensures
            score as int == self.disc_count_spec(player),
            -64 <= score <= 64,
    {
        let my_count = self.count_discs(player) as i32;
        let opp_count = self.count_discs(player.opponent()) as i32;
        my_count - opp_count
    }

    /// The worth of one corner square to `p`.
    pub open spec fn corner_term(self, p: Player, corner: u64) -> int {
        if nth_bit(self.black, corner) {
            if p is Black {
                CORNER_WEIGHT as int
            } else {
                -CORNER_WEIGHT as int
            }
        } else if nth_bit(self.white, corner) {
            if p is White {
                CORNER_WEIGHT as int
            } else {
                -CORNER_WEIGHT as int
            }
        } else {
            0
        }
    }

    /// The corner-ownership component for `p`.
    pub open spec fn corners_spec(self, p: Player) -> int {
        self.corner_term(p, 0) + self.corner_term(p, 7) + self.corner_term(p, 56)
            + self.corner_term(p, 63)
    }

    /// Scores one corner for `player`.
    fn corner_score(&self, player: Player, corner: usize) -> (score: i32)
        requires
            corner < 64,
        ensures
            score as int == self.corner_term(player, corner as u64),
            -300 <= score <= 300,
    {
        let bit = 1u64 << (corner as u64);
        proof {
            lemma_bit_test(self.black, corner as u64);
            lemma_bit_test(self.white, corner as u64);
        }
        if (self.black & bit) != 0 {
            if matches!(player, Player::Black) {
                CORNER_WEIGHT
            } else {
                -CORNER_WEIGHT
            }
        } else if (self.white & bit) != 0 {
            if matches!(player, Player::White) {
                CORNER_WEIGHT
            } else {
                -CORNER_WEIGHT
            }
        } else {
            0
        }
    }

    /// Computes the heavily weighted corner-ownership score for `player`.
    pub fn evaluate_corners_optimized(&self, player: Player) -> (score: i32)
        ensures
            score as int == self.corners_spec(player),
            -1200 <= score <= 1200,
    {
        let mut score: i32 = self.corner_score(player, 0);
        score = score + self.corner_score(player, 7);
        score = score + self.corner_score(player, 56);
        score = score + self.corner_score(player, 63);
        score
    }

    /// The parity component: the side to place the game's last disc gets a
    /// small bonus. With an even number of empties that is white, with an
    /// odd number black.
    pub open spec fn parity_spec(self, p: Player) -> int {
        let empty = 64 - pop64(self.spec_occupied());
        if empty % 2 == 0 {
            if p is White {
                10
            } else {
                -10
            }
        } else {
            if p is Black {
                10
            } else {
                -10
            }
        }
    }

    /// Computes the move-parity bonus for `player`.
    pub fn evaluate_parity(&self, player: Player) -> (score: i32)
        ensures
            score as int == self.parity_spec(player),
            -10 <= score <= 10,
    {
        let empty_count = 64 - popcount(self.black | self.white);
        if empty_count % 2 == 0 {
            if matches!(player, Player::White) {
                10
            } else {
                -10
            }
        } else {
            if matches!(player, Player::Black) {
                10
            } else {
                -10
            }
        }
    }

    /// The terminal score from `p`'s view: a win is worth 10000 plus the
    /// disc differential, a loss -10000 plus the (negative) differential,
    /// and an exact tie 0.
    pub open spec fn game_end_spec(self, p: Player) -> int {
        let diff = self.disc_count_spec(p);
        if diff > 0 {
            10000 + diff
        } else if diff < 0 {
            -10000 + diff
        } else {
            0
        }
    }

    /// Scores a finished game for `player`.
    pub fn evaluate_game_end(&self, player: Player) -> (score: i32)
        ensures
            score as int == self.game_end_spec(player),
            -10064 <= score <= 10064,
    {
        let black_count = self.count_discs(Player::Black) as i32;
        let white_count = self.count_discs(Player::White) as i32;
        let diff = match player {
            Player::Black => black_count - white_count,
            Player::White => white_count - black_count,
        };
        if diff > 0 {
            10000 + diff
        } else if diff < 0 {
            -10000 + diff
        } else {
            0
        }
    }
}

/// The ray from `(r, c)` onward supports stability: it reaches the board
/// edge or an already-stable disc without crossing a square that is not an
/// own disc.
pub open spec fn ray_stable(my: u64, stable: u64, r: int, c: int, dr: int, dc: int) -> bool
    decreases crate::board::ray_measure(r, c, dr, dc)
        when crate::board::valid_dir(dr, dc)
{
    if !in_board(r, c) {
        true
    } else if nth_bit(stable, crate::board::sq(r, c)) {
        true
    } else if !nth_bit(my, crate::board::sq(r, c)) {
        false
    } else {
        ray_stable(my, stable, r + dr, c + dc, dr, dc)
    }
}

/// The ray leaving `(r, c)` in direction `(dr, dc)` supports stability.
pub open spec fn dir_stable(my: u64, stable: u64, r: int, c: int, dr: int, dc: int) -> bool {
    ray_stable(my, stable, r + dr, c + dc, dr, dc)
}

/// A disc on `(r, c)` is supported on every axis: for each of the four
/// axis pairs, at least one of the two opposite rays supports it.
pub open spec fn axis_stable(my: u64, stable: u64, r: int, c: int) -> bool {
    &&& (dir_stable(my, stable, r, c, 0, 1) || dir_stable(my, stable, r, c, 0, -1))
    &&& (dir_stable(my, stable, r, c, 1, 0) || dir_stable(my, stable, r, c, -1, 0))
    &&& (dir_stable(my, stable, r, c, 1, 1) || dir_stable(my, stable, r, c, -1, -1))
    &&& (dir_stable(my, stable, r, c, 1, -1) || dir_stable(my, stable, r, c, -1, 1))
}

/// One step of a stability sweep: square `pos` joins the stable set when it
/// holds an own disc, is not yet stable, and is supported on every axis.
pub open spec fn sweep_step(my: u64, stable: u64, pos: int) -> u64 {
    if nth_bit(my, pos as u64) && !nth_bit(stable, pos as u64) && axis_stable(
        my,
        stable,
        pos / 8,
        pos % 8,
    ) {
        stable | (1u64 << (pos as u64))
    } else {
        stable
    }
}

/// One sweep over squares `n .. 64`, threading the growing stable set.
pub open spec fn sweep_from(my: u64, stable: u64, n: int) -> u64
    decreases 64 - n,
{
    if n < 0 || n >= 64 {
        stable
    } else {
        sweep_from(my, sweep_step(my, stable, n), n + 1)
    }
}

/// The fixed point of repeated sweeps, reached within `fuel` rounds. With
/// fuel 65 every run from a 64-bit seed reaches its fixed point, since each
/// productive sweep adds at least one of the 64 bits.
pub open spec fn expand_spec(my: u64, stable: u64, fuel: nat) -> u64
    decreases fuel,
{
    if fuel == 0 {
        stable
    } else {
        let next = sweep_from(my, stable, 0);
        if next == stable {
            stable
        } else {
            expand_spec(my, next, (fuel - 1) as nat)
        }
    }
}

/// The stable discs of the side holding `my`: every owned corner is seeded
/// and expanded to its fixed point in turn.
pub open spec fn stable_discs_spec(my: u64) -> u64 {
    let s0 = 0u64;
    let s1 = if nth_bit(my, 0) {
        expand_spec(my, s0 | (1u64 << 0u64), 65)
    } else {
        s0
    };
    let s2 = if nth_bit(my, 7) {
        expand_spec(my, s1 | (1u64 << 7u64), 65)
    } else {
        s1
    };
    let s3 = if nth_bit(my, 56) {
        expand_spec(my, s2 | (1u64 << 56u64), 65)
    } else {
        s2
    };
    if nth_bit(my, 63) {
        expand_spec(my, s3 | (1u64 << 63u64), 65)
    } else {
        s3
    }
}

/// Adding a fresh bit to a superset keeps it a proper superset.
proof fn lemma_grow_keeps_superset(s: u64, cur: u64, k: u64)
    requires
        k < 64,
        (s | cur) == cur,
        !nth_bit(cur, k),
    ensures
        (s | (cur | (1u64 << k))) == (cur | (1u64 << k)),
        (cur | (1u64 << k)) != s,
        (cur | (1u64 << k)) != cur,
{
    assert(((s | cur) == cur && !((cur >> k) & 1 == 1)) ==> ((s | (cur | (1u64 << k))) == (cur | (
    1u64 << k)) && (cur | (1u64 << k)) != s && (cur | (1u64 << k)) != cur)) by (bit_vector)
        requires
            k < 64,
    ;
}

impl BitBoard {
    /// Decides whether the ray leaving `(row, col)` in direction `(dr, dc)`
    /// supports the stability of a disc on `(row, col)`.
    fn check_direction_stability(
        &self,
        row: i64,
        col: i64,
        dr: i64,
        dc: i64,
        my_board: u64,
        stable: u64,
        _occupied: u64,
    ) -> (r: bool)
        requires
            0 <= row < 8,
            0 <= col < 8,
            crate::board::valid_dir(dr as int, dc as int),
        ensures
            r == dir_stable(my_board, stable, row as int, col as int, dr as int, dc as int),
    {
        let ghost target = dir_stable(
            my_board,
            stable,
            row as int,
            col as int,
            dr as int,
            dc as int,
        );
        let mut r: i64 = row + dr;
        let mut c: i64 = col + dc;
        while 0 <= r && r < 8 && 0 <= c && c < 8
            invariant
                crate::board::valid_dir(dr as int, dc as int),
                0 <= row < 8,
                0 <= col < 8,
                -1 <= r <= 8,
                -1 <= c <= 8,
                target == dir_stable(my_board, stable, row as int, col as int, dr as int, dc as int),
                target == ray_stable(my_board, stable, r as int, c as int, dr as int, dc as int),
            decreases crate::board::ray_measure(r as int, c as int, dr as int, dc as int),
        {
            let pos = (r * 8 + c) as u64;
            assert(pos == crate::board::sq(r as int, c as int));
            let bit = 1u64 << pos;
            proof {
                lemma_bit_test(stable, pos);
                lemma_bit_test(my_board, pos);
            }
            if (stable & bit) != 0 {
                return true;
            }
            if (my_board & bit) == 0 {
                return false;
            }
            r = r + dr;
            c = c + dc;
        }
        true
    }

    /// Grows `stable` to the fixed point of the stability sweep: discs are
    /// added while some disc of `my_board` is supported on all four axes by
    /// the board edge or already-stable discs.
    fn expand_stability(&self, stable: u64, my_board: u64, occupied: u64) -> (r: u64)
        ensures
            r == expand_spec(my_board, stable, 65),
    {
        let ghost target = expand_spec(my_board, stable, 65);
        let mut cur: u64 = stable;
        let mut changed: bool = true;
        let mut sweeps: usize = 0;
        while changed && sweeps < 65
            invariant
                sweeps <= 65,
                target == if changed {
                    expand_spec(my_board, cur, (65 - sweeps) as nat)
                } else {
                    cur
                },
            decreases 65 - sweeps,
        {
            let ghost entered = cur;
            changed = false;
            let mut pos: usize = 0;
            proof {
                crate::bits::lemma_or_ident(cur);
            }
            while pos < 64
                invariant
                    pos <= 64,
                    (entered | cur) == cur,
                    changed == (cur != entered),
                    sweep_from(my_board, entered, 0) == sweep_from(my_board, cur, pos as int),
                decreases 64 - pos,
            {
                let bit = 1u64 << (pos as u64);
                proof {
                    lemma_bit_test(my_board, pos as u64);
                    lemma_bit_test(cur, pos as u64);
                }
                if (my_board & bit) != 0 && (cur & bit) == 0 {
                    // The sweep threads the partly grown set through the
                    // axis checks, exactly as the model does.
                    let row = (pos / 8) as i64;
                    let col = (pos % 8) as i64;
                    let horizontal = self.check_direction_stability(
                        row,
                        col,
                        0,
                        1,
                        my_board,
                        cur,
                        occupied,
                    ) || self.check_direction_stability(row, col, 0, -1, my_board, cur, occupied);
                    let vertical = horizontal && (self.check_direction_stability(
                        row,
                        col,
                        1,
                        0,
                        my_board,
                        cur,
                        occupied,
                    ) || self.check_direction_stability(row, col, -1, 0, my_board, cur, occupied));
                    let diagonal = vertical && (self.check_direction_stability(
                        row,
                        col,
                        1,
                        1,
                        my_board,
                        cur,
                        occupied,
                    ) || self.check_direction_stability(row, col, -1, -1, my_board, cur, occupied));
                    let is_stable = diagonal && (self.check_direction_stability(
                        row,
                        col,
                        1,
                        -1,
                        my_board,
                        cur,
                        occupied,
                    ) || self.check_direction_stability(row, col, -1, 1, my_board, cur, occupied));
                    if is_stable {
                        proof {
                            lemma_grow_keeps_superset(entered, cur, pos as u64);
                        }
                        cur = cur | bit;
                        changed = true;
                    }
                }
                pos = pos + 1;
            }
            sweeps = sweeps + 1;
        }
        cur
    }

    /// The stable-disc differential from `p`'s view.
    pub open spec fn stability_spec(self, p: Player) -> int {
        pop64(stable_discs_spec(self.mask_of(p))) - pop64(
            stable_discs_spec(self.mask_of(p.spec_opponent())),
        )
    }

    /// Computes the stable discs of `player` by seeding each owned corner
    /// and propagating stability to its fixed point.
    fn compute_stable_discs(&self, player: Player) -> (r: u64)
        ensures
            r == stable_discs_spec(self.mask_of(player)),
    {
        let my_board = match player {
            Player::Black => self.black,
            Player::White => self.white,
        };
        let occupied = self.black | self.white;
        let mut stable: u64 = 0;
        proof {
            lemma_bit_test(my_board, 0);
            lemma_bit_test(my_board, 7);
            lemma_bit_test(my_board, 56);
            lemma_bit_test(my_board, 63);
        }
        if (my_board & (1u64 << 0u64)) != 0 {
            stable = stable | (1u64 << 0u64);
            stable = self.expand_stability(stable, my_board, occupied);
        }
        if (my_board & (1u64 << 7u64)) != 0 {
            stable = stable | (1u64 << 7u64);
            stable = self.expand_stability(stable, my_board, occupied);
        }
        if (my_board & (1u64 << 56u64)) != 0 {
            stable = stable | (1u64 << 56u64);
            stable = self.expand_stability(stable, my_board, occupied);
        }
        if (my_board & (1u64 << 63u64)) != 0 {
            stable = stable | (1u64 << 63u64);
            stable = self.expand_stability(stable, my_board, occupied);
        }
        stable
    }

    /// Computes the stable-disc differential for `player`.
    pub fn evaluate_stability(&self, player: Player) -> (score: i32)
        ensures
            score as int == self.stability_spec(player),
            -64 <= score <= 64,
    {
        let my_stable = self.compute_stable_discs(player);
        let opp_stable = self.compute_stable_discs(player.opponent());
        (popcount(my_stable) as i32) - (popcount(opp_stable) as i32)
    }

    /// The board has entered the final stretch of the game.
    pub open spec fn spec_endgame(self) -> bool {
        pop64(self.spec_occupied()) >= 55
    }

    /// The board is nearly full.
    pub fn is_endgame(&self) -> (r: bool)
        ensures
            r == self.spec_endgame(),
    {
        popcount(self.black | self.white) >= 55
    }

    /// The full static evaluation of the board from `p`'s view. A board
    /// where neither side can play scores as a finished game; otherwise the
    /// components are blended by phase: mobility and position early, discs
    /// and stability late.
    pub open spec fn eval_spec(self, p: Player) -> int {
        if self.spec_legal_mask(Player::Black) == 0 && self.spec_legal_mask(Player::White) == 0 {
            self.game_end_spec(p)
        } else {
            match phase_of(64 - pop64(self.spec_occupied())) {
                GamePhase::Early => self.mobility_spec(p) * 25 + self.position_value_spec(p)
                    + self.disc_count_spec(p) * 5,
                GamePhase::Mid => self.mobility_spec(p) * 15 + self.position_value_spec(p)
                    + self.corners_spec(p) + self.stability_spec(p) + self.disc_count_spec(p) * 20,
                GamePhase::End => self.disc_count_spec(p) * 1000 + self.corners_spec(p)
                    + self.stability_spec(p) * 2 + self.parity_spec(p) + self.mobility_spec(p) * 8,
            }
        }
    }

    /// Evaluates the board for `player`.
    pub fn evaluate_board_optimized(&self, player: Player) -> (score: i32)
        requires
            self.wf(),
        ensures
            score as int == self.eval_spec(player),
            -100000 <= score <= 100000,
    {
        let empty_count = 64 - popcount(self.black | self.white);
        let phase = GamePhase::from_empty_count(empty_count);
        let black_legal = self.get_legal_moves(Player::Black);
        let white_legal = self.get_legal_moves(Player::White);
        if black_legal == 0 && white_legal == 0 {
            return self.evaluate_game_end(player);
        }
        let mut score: i32 = 0;
        match phase {
            GamePhase::Early => {
                score = score + self.evaluate_mobility(player) * 25;
                score = score + self.evaluate_position_value(player);
                score = score + self.evaluate_disc_count(player) * 5;
            },
            GamePhase::Mid => {
                score = score + self.evaluate_mobility(player) * 15;
                score = score + self.evaluate_position_value(player);
                score = score + self.evaluate_corners_optimized(player);
                score = score + self.evaluate_stability(player);
                score = score + self.evaluate_disc_count(player) * 20;
            },
            GamePhase::End => {
                score = score + self.evaluate_disc_count(player) * 1000;
                score = score + self.evaluate_corners_optimized(player);
                score = score + self.evaluate_stability(player) * 2;
                score = score + self.evaluate_parity(player);
                score = score + self.evaluate_mobility(player) * 8;
            },
        }
        score
    }
}

/// A finished game scores as exact opposites for the two sides.
pub proof fn lemma_game_end_zero_sum(b: BitBoard, p: Player)
    ensures
        b.game_end_spec(p) == -b.game_end_spec(p.spec_opponent()),
{
}

/// The static evaluation is zero-sum: at the same board the two sides see
/// exactly opposite scores. This is the score the search returns at depth
/// zero, where no move is examined.
pub proof fn lemma_eval_zero_sum(b: BitBoard, p: Player)
    requires
        b.wf(),
    ensures
        b.eval_spec(p) == -b.eval_spec(p.spec_opponent()),
{
    let o = p.spec_opponent();
    crate::bits::lemma_and_comm(b.black, b.white);
    lemma_pos_value_sum_antisym(b.mask_of(p), b.mask_of(o), 64);
    assert(b.position_value_spec(p) == -b.position_value_spec(o));
    assert(b.mobility_spec(p) == -b.mobility_spec(o));
    assert(b.disc_count_spec(p) == -b.disc_count_spec(o));
    assert(b.corners_spec(p) == -b.corners_spec(o));
    assert(b.stability_spec(p) == -b.stability_spec(o));
    assert(b.parity_spec(p) == -b.parity_spec(o));
    lemma_game_end_zero_sum(b, p);
}

} // verus!
