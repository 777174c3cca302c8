//! Per-search heuristic state: the principal-variation table, the killer
//! moves of each ply, and the phase/side/square history table. Each is an
//! explicit object owned by one top-level search call.

use vstd::prelude::*;

verus! {

/// Negation that maps the minimum sentinel to the maximum instead of
/// overflowing.
pub fn safe_neg(value: i32) -> (r: i32)
    ensures
        r as int == if value == i32::MIN {
            i32::MAX as int
        } else {
            -(value as int)
        },
        r > i32::MIN,
{
    if value == i32::MIN {
        i32::MAX
    } else {
        -value
    }
}

/// A candidate move at one node: its square and its transient ordering
/// score, which steers pruning but never the returned evaluation.
#[derive(Debug, Clone, Copy, PartialEq, Eq, Structural)]
pub struct Move {
    pub position: u8,
    pub score: i32,
}

impl Move {
    /// Builds a candidate from its square and ordering score.
    pub fn new(position: u8, score: i32) -> (r: Move)
        ensures
            r.position == position,
            r.score == score,
    {
        Move { position, score }
    }
}

/// The best continuation found below each ply, updated as the search
/// improves its choice at a node.
pub struct PVTable {
    length: Vec<usize>,
    moves: Vec<Vec<u8>>,
}

impl PVTable {
    /// The table shape: 64 rows of 64 squares, each row's recorded length
    /// short enough that one more move always fits above it.
    pub closed spec fn wf(self) -> bool {
        &&& self.length@.len() == 64
        &&& self.moves@.len() == 64
        &&& forall|p: int| 0 <= p < 64 ==> (#[trigger] self.moves@[p])@.len() == 64
        &&& forall|p: int| 0 <= p < 64 ==> (#[trigger] self.length@[p]) as int <= 64 - p
    }

    /// The recorded continuation length at `ply`.
    pub closed spec fn len_at(self, ply: int) -> int {
        self.length@[ply] as int
    }

    /// The recorded row of moves at `ply`.
    pub closed spec fn row_at(self, ply: int) -> Seq<u8> {
        self.moves@[ply]@
    }

    /// The first move of the continuation at `ply`.
    pub open spec fn move_at(self, ply: int) -> u8 {
        self.row_at(ply)[0]
    }

    /// The continuation `ply` would report: its first move when one is
    /// recorded.
    pub open spec fn spec_pv_move(self, ply: int) -> Option<u8> {
        if self.len_at(ply) > 0 {
            Some(self.move_at(ply))
        } else {
            None
        }
    }

    /// Creates an empty table.
    pub fn new() -> (r: PVTable)
        ensures
            r.wf(),
            forall|p: int| 0 <= p < 64 ==> r.len_at(p) == 0,
    {
        let mut length: Vec<usize> = Vec::new();
        let mut moves: Vec<Vec<u8>> = Vec::new();
        let mut i: usize = 0;
        while i < 64
            invariant
                i <= 64,
                length@.len() == i,
                moves@.len() == i,
                forall|p: int| 0 <= p < i ==> (#[trigger] length@[p]) == 0,
                forall|p: int| 0 <= p < i ==> (#[trigger] moves@[p])@.len() == 64,
            decreases 64 - i,
        {
            length.push(0);
            let mut row: Vec<u8> = Vec::new();
            let mut j: usize = 0;
            while j < 64
                invariant
                    j <= 64,
                    row@.len() == j,
                decreases 64 - j,
            {
                row.push(0);
                j = j + 1;
            }
            moves.push(row);
            i = i + 1;
        }
        PVTable { length, moves }
    }

    /// Forgets the continuation recorded at `ply`.
    pub fn clear_ply(&mut self, ply: usize)
        requires
            old(self).wf(),
            ply < 64,
        ensures
            final(self).wf(),
            final(self).len_at(ply as int) == 0,
            forall|p: int| 0 <= p < 64 ==> final(self).row_at(p) == old(self).row_at(p),
            forall|p: int|
                0 <= p < 64 && p != ply ==> final(self).len_at(p) == old(self).len_at(p),
    {
        self.length.set(ply, 0);
    }

    /// Records `best_move` as the continuation at `ply`: the move itself,
    /// followed by a copy of the continuation previously found at
    /// `from_ply`, so the child's line is prepended with the move.
    pub fn update(&mut self, ply: usize, best_move: u8, from_ply: usize)
        requires
            old(self).wf(),
            ply < 64,
            from_ply == ply + 1,
            from_ply < 64,
        ensures
            final(self).wf(),
            final(self).len_at(ply as int) == old(self).len_at(from_ply as int) + 1,
            final(self).len_at(ply as int) > 0,
            final(self).move_at(ply as int) == best_move,
            forall|i: int|
                0 <= i < old(self).len_at(from_ply as int) ==> final(self).row_at(ply as int)[i
                    + 1] == old(self).row_at(from_ply as int)[i],
            forall|p: int| 0 <= p < 64 && p != ply ==> final(self).row_at(p) == old(self).row_at(p),
            forall|p: int|
                0 <= p < 64 && p != ply ==> final(self).len_at(p) == old(self).len_at(p),
    {
        let from_len: usize = self.length[from_ply];
        let mut row: Vec<u8> = Vec::new();
        row.push(best_move);
        let mut i: usize = 0;
        while i < from_len
            invariant
                old(self).wf(),
                from_ply < 64,
                from_len == old(self).length@[from_ply as int],
                from_len <= 64 - from_ply,
                i <= from_len,
                row@.len() == i + 1,
                row@[0] == best_move,
                forall|i2: int|
                    0 <= i2 < i ==> row@[i2 + 1] == old(self).moves@[from_ply as int]@[i2],
                *self == *old(self),
            decreases from_len - i,
        {
            let m: u8 = self.moves[from_ply][i];
            row.push(m);
            i = i + 1;
        }
        while i + 1 < 64
            invariant
                from_len <= i,
                i + 1 <= 64,
                row@.len() == i + 1,
                row@[0] == best_move,
                forall|i2: int|
                    0 <= i2 < from_len ==> row@[i2 + 1] == old(self).moves@[from_ply as int]@[i2],
                *self == *old(self),
            decreases 64 - i,
        {
            row.push(0);
            i = i + 1;
        }
        self.moves.set(ply, row);
        self.length.set(ply, from_len + 1);
    }

    /// Returns the first move of the continuation at `ply`, if any.
    pub fn get_pv_move(&self, ply: usize) -> (r: Option<u8>)
        requires
            self.wf(),
            ply < 64,
        ensures
            r == self.spec_pv_move(ply as int),
    {
        if self.length[ply] > 0 {
            Some(self.moves[ply][0])
        } else {
            None
        }
    }
}

/// Up to two non-PV moves per ply that caused a cutoff there before.
pub struct KillerMoves {
    moves: Vec<(Option<u8>, Option<u8>)>,
}

impl KillerMoves {
    /// The table shape: one slot pair per ply.
    pub closed spec fn wf(self) -> bool {
        self.moves@.len() == 64
    }

    /// The slot pair of `ply`.
    pub closed spec fn at(self, ply: int) -> (Option<u8>, Option<u8>) {
        self.moves@[ply]
    }

    /// `mv` is one of the recorded killers of `ply`.
    pub open spec fn spec_is_killer(self, ply: int, mv: u8) -> bool {
        0 <= ply < 64 && (self.at(ply).0 == Some(mv) || self.at(ply).1 == Some(mv))
    }

    /// Creates an empty table.
    pub fn new() -> (r: KillerMoves)
        ensures
            r.wf(),
            forall|p: int| 0 <= p < 64 ==> !r.at(p).0.is_some() && !r.at(p).1.is_some(),
    {
        let mut moves: Vec<(Option<u8>, Option<u8>)> = Vec::new();
        let mut i: usize = 0;
        while i < 64
            invariant
                i <= 64,
                moves@.len() == i,
                forall|p: int|
                    0 <= p < i ==> !(#[trigger] moves@[p]).0.is_some() && !moves@[p].1.is_some(),
            decreases 64 - i,
        {
            moves.push((None, None));
            i = i + 1;
        }
        KillerMoves { moves }
    }

    /// Records `mv` as the newest killer of `ply`, demoting the previous
    /// one, unless it already is the newest.
    pub fn add_killer(&mut self, ply: usize, mv: u8)
        requires
            old(self).wf(),
        ensures
            final(self).wf(),
            ply < 64 ==> final(self).at(ply as int) == if old(self).at(ply as int).0 == Some(mv) {
                old(self).at(ply as int)
            } else {
                (Some(mv), old(self).at(ply as int).0)
            },
            forall|p: int| 0 <= p < 64 && p != ply ==> final(self).at(p) == old(self).at(p),
    {
        if ply >= 64 {
            return ;
        }
        let (first, _second) = self.moves[ply];
        let same = match first {
            Some(m) => m == mv,
            None => false,
        };
        if !same {
            self.moves.set(ply, (Some(mv), first));
        }
    }

    /// Decides whether `mv` is a recorded killer of `ply`.
    pub fn is_killer(&self, ply: usize, mv: u8) -> (r: bool)
        requires
            self.wf(),
        ensures
            r == self.spec_is_killer(ply as int, mv),
    {
        if ply >= 64 {
            return false;
        }
        let (first, second) = self.moves[ply];
        let hit_first = match first {
            Some(m) => m == mv,
            None => false,
        };
        let hit_second = match second {
            Some(m) => m == mv,
            None => false,
        };
        hit_first || hit_second
    }
}

/// Cumulative heuristic weight of playing a square, kept per game phase and
/// side; rewarded when a move improves alpha, decayed geometrically once
/// per top-level search call.
pub struct HistoryTable {
    scores: Vec<i32>,
}

/// Clamping of a history score to its fixed range.
pub open spec fn clamp_history(x: int) -> int {
    if x > 10000 {
        10000
    } else if x < -10000 {
        -10000
    } else {
        x
    }
}

/// Truncating division by eight of a possibly negative value, as the
/// machine's signed division rounds: toward zero.
pub open spec fn div8_trunc(x: int) -> int {
    if x >= 0 {
        x / 8
    } else {
        -((-x) / 8)
    }
}

impl HistoryTable {
    /// The recorded weight at flat index `i`.
    pub closed spec fn weight_at(self, i: int) -> int {
        self.scores@[i] as int
    }

    /// The table shape: phase, side and square flattened, every weight in
    /// the clamp range.
    pub closed spec fn wf(self) -> bool {
        &&& self.scores@.len() == 256
        &&& forall|i: int| 0 <= i < 256 ==> -10000 <= (#[trigger] self.scores@[i]) <= 10000
    }

    /// The flat index of a phase/side/square triple.
    pub open spec fn idx(phase: int, player: int, mv: int) -> int {
        phase * 128 + player * 64 + mv
    }

    /// The recorded weight of a triple.
    pub open spec fn at(self, phase: int, player: int, mv: int) -> int {
        self.weight_at(Self::idx(phase, player, mv))
    }

    /// The weight `get_score` reports: zero outside the table.
    pub open spec fn spec_score(self, phase: int, player: int, mv: int) -> int {
        if 0 <= phase < 2 && 0 <= player < 2 && 0 <= mv < 64 {
            self.at(phase, player, mv)
        } else {
            0
        }
    }

    /// Creates an empty table.
    pub fn new() -> (r: HistoryTable)
        ensures
            r.wf(),
            forall|i: int| 0 <= i < 256 ==> (#[trigger] r.weight_at(i)) == 0,
    {
        let mut scores: Vec<i32> = Vec::new();
        let mut i: usize = 0;
        while i < 256
            invariant
                i <= 256,
                scores@.len() == i,
                forall|j: int| 0 <= j < i ==> (#[trigger] scores@[j]) == 0,
            decreases 256 - i,
        {
            scores.push(0);
            i = i + 1;
        }
        HistoryTable { scores }
    }

    /// Rewards a good move with the square of the remaining depth, or
    /// penalises an untried sibling with half of it, clamped to the fixed
    /// range. Out-of-range triples are ignored.
    pub fn update(&mut self, phase: usize, player: usize, mv: u8, depth: u8, is_good: bool)
        requires
            old(self).wf(),
        ensures
            final(self).wf(),
            phase < 2 && player < 2 && mv < 64 ==> final(self).at(
                phase as int,
                player as int,
                mv as int,
            ) == clamp_history(
                old(self).at(phase as int, player as int, mv as int) + if is_good {
                    (depth as int) * (depth as int)
                } else {
                    -(((depth as int) * (depth as int)) / 2)
                },
            ),
            forall|i: int|
                0 <= i < 256 && i != Self::idx(phase as int, player as int, mv as int)
                    ==> final(self).weight_at(i) == old(self).weight_at(i),
            !(phase < 2 && player < 2 && mv < 64) ==> *final(self) == *old(self),
    {
        if mv >= 64 || phase >= 2 || player >= 2 {
            return ;
        }
        proof {
            assert((depth as int) * (depth as int) <= 65025) by (nonlinear_arith)
                requires
                    depth <= 255,
            ;
        }
        let bonus = (depth as i32) * (depth as i32);
        let i: usize = phase * 128 + player * 64 + (mv as usize);
        let cur = self.scores[i];
        let raw = if is_good {
            cur + bonus
        } else {
            cur - bonus / 2
        };
        let clamped = if raw > 10000 {
            10000
        } else if raw < -10000 {
            -10000
        } else {
            raw
        };
        self.scores.set(i, clamped);
    }

    /// Returns the recorded weight of a triple, zero outside the table.
    pub fn get_score(&self, phase: usize, player: usize, mv: u8) -> (r: i32)
        requires
            self.wf(),
        ensures
            r as int == self.spec_score(phase as int, player as int, mv as int),
            -10000 <= r <= 10000,
    {
        if mv >= 64 || phase >= 2 || player >= 2 {
            return 0;
        }
        self.scores[phase * 128 + player * 64 + (mv as usize)]
    }

    /// Decays every weight to seven eighths of its value.
    pub fn age(&mut self)
        requires
            old(self).wf(),
        ensures
            final(self).wf(),
            forall|i: int|
                0 <= i < 256 ==> (#[trigger] final(self).weight_at(i)) == div8_trunc(
                    old(self).weight_at(i) * 7,
                ),
    {
        let mut i: usize = 0;
        while i < 256
            invariant
                old(self).wf(),
                self.scores@.len() == 256,
                i <= 256,
                forall|j: int|
                    0 <= j < i ==> (#[trigger] self.scores@[j]) as int == div8_trunc(
                        (old(self).scores@[j] as int) * 7,
                    ) && -10000 <= self.scores@[j] <= 10000,
                forall|j: int| i <= j < 256 ==> self.scores@[j] == old(self).scores@[j],
            decreases 256 - i,
        {
            let v = self.scores[i];
            let aged = if v >= 0 {
                (v * 7) / 8
            } else {
                -(((-v) * 7) / 8)
            };
            self.scores.set(i, aged);
            i = i + 1;
        }
    }
}

} // verus!
