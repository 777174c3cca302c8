//! The search engine: iterative-deepening negamax with alpha-beta windows,
//! a caller-held transposition table, principal-variation search, late-move
//! reduction, futility pruning and aspiration windows. A shallow mode picks
//! the greedy best move without searching.

use vstd::prelude::*;

use crate::bits::lemma_bit_test;
use crate::bits::pop64;
use crate::bits::popcount;
use crate::board::BitBoard;
use crate::eval::phase_of;
use crate::eval::position_score;
use crate::eval::position_score_spec;
use crate::eval::GamePhase;
use crate::eval::CORNER_WEIGHT;
use crate::heuristics::safe_neg;
use crate::heuristics::HistoryTable;
use crate::heuristics::KillerMoves;
use crate::heuristics::Move;
use crate::heuristics::PVTable;
use crate::player::Entry;
use crate::player::NodeType;
use crate::player::Player;
use crate::ttable::tt_entries;
use crate::ttable::tt_probe;
use crate::ttable::tt_remove;
use crate::ttable::tt_store;
use crate::ttable::tt_wf;
use crate::ttable::TransTable;
use crate::ttable::SCORE_CAP;

verus! {

/// Entry count the transposition table is trimmed back towards.
pub const MAX_TT_SIZE: usize = 2000000;

/// Entry count above which a search first trims the table.
pub const TT_CLEANUP_THRESHOLD: usize = 1500000;

/// Remaining depth from which late-move reduction applies.
pub const LMR_DEPTH_THRESHOLD: u8 = 3;

/// Candidate rank from which late-move reduction applies.
pub const LMR_MOVE_THRESHOLD: usize = 3;

/// Half-width of the first aspiration window around the previous score.
pub const ASPIRATION_WINDOW: i32 = 50;

/// Futility margin for each small remaining depth.
fn futility_margin(depth: u8) -> (r: i32)
    requires
        depth < 5,
    ensures
        0 <= r <= 900,
{
    match depth {
        0 => 0,
        1 => 200,
        2 => 300,
        3 => 500,
        _ => 900,
    }
}

impl BitBoard {
    /// The transposition key of this board with `p` to move.
    pub open spec fn spec_tt_key(self, p: Player) -> crate::ttable::TtKey {
        (self.black, self.white, p.spec_index() as u8)
    }

    /// The greedy worth of playing `pos`: the square's positional value, a
    /// corner bonus, and ten points per flipped disc.
    pub open spec fn fast_move_spec(self, pos: int, p: Player) -> int {
        position_score_spec(pos / 8, pos % 8) + (if pos == 0 || pos == 7 || pos == 56 || pos == 63 {
            CORNER_WEIGHT as int
        } else {
            0int
        }) + pop64(self.spec_flips(pos, p)) * 10
    }

    /// Scores `pos` for the shallow mode.
    pub fn evaluate_move_fast(&self, pos: usize, player: Player) -> (score: i32)
        requires
            self.wf(),
            pos < 64,
        ensures
            score as int == self.fast_move_spec(pos as int, player),
            -1040 <= score <= 1040,
    {
        let row = pos / 8;
        let col = pos % 8;
        let mut score: i32 = position_score(row, col);
        if pos == 0 || pos == 7 || pos == 56 || pos == 63 {
            score = score + CORNER_WEIGHT;
        }
        let flips = self.compute_flips(pos, player);
        proof {
            crate::bits::lemma_pop_bound(flips);
        }
        score = score + (popcount(flips) as i32) * 10;
        score
    }

    /// `pos` is the square the shallow mode must pick for `p`: playable,
    /// of maximal greedy worth among the playable squares, and the lowest
    /// square of that worth.
    pub open spec fn spec_greedy_choice(self, p: Player, pos: int) -> bool {
        &&& self.spec_legal(pos, p)
        &&& forall|k: int|
            0 <= k < 64 && self.spec_legal(k, p) ==> self.fast_move_spec(k, p)
                <= self.fast_move_spec(pos, p)
        &&& forall|k: int|
            0 <= k < pos && self.spec_legal(k, p) ==> self.fast_move_spec(k, p)
                < self.fast_move_spec(pos, p)
    }

    /// Picks the legal move with the greatest greedy worth, the lowest
    /// square index breaking ties; nothing when no move exists.
    fn level1_best_move(&self, player: Player) -> (r: Option<usize>)
        requires
            self.wf(),
        ensures
            r.is_some() == (self.spec_legal_mask(player) != 0),
            r matches Some(p) ==> p < 64 && self.spec_greedy_choice(player, p as int),
    {
        let legal_moves = self.get_legal_moves(player);
        if legal_moves == 0 {
            return None;
        }
        let mut best_move: Option<usize> = None;
        let mut best_score: i32 = i32::MIN;
        let mut pos: usize = 0;
        while pos < 64
            invariant
                self.wf(),
                pos <= 64,
                legal_moves == self.spec_legal_mask(player),
                best_move.is_none() ==> best_score == i32::MIN && (forall|k: int|
                    0 <= k < pos ==> !self.spec_legal(k, player)),
                best_move matches Some(b) ==> b < pos && self.spec_legal(b as int, player)
                    && best_score as int == self.fast_move_spec(b as int, player) && (forall|
                    k: int,
                |
                    0 <= k < pos && self.spec_legal(k, player) ==> self.fast_move_spec(k, player)
                        <= self.fast_move_spec(b as int, player)) && (forall|k: int|
                    0 <= k < b && self.spec_legal(k, player) ==> self.fast_move_spec(k, player)
                        < self.fast_move_spec(b as int, player)),
            decreases 64 - pos,
        {
            let bit = 1u64 << (pos as u64);
            proof {
                lemma_bit_test(legal_moves, pos as u64);
                crate::board::lemma_legal_mask_bit(*self, player, pos as u64);
            }
            if (legal_moves & bit) != 0 {
                let score = self.evaluate_move_fast(pos, player);
                if score > best_score {
                    best_score = score;
                    best_move = Some(pos);
                }
            }
            pos = pos + 1;
        }
        proof {
            if best_move.is_none() {
                crate::board::lemma_legal_mask_nonzero(*self, player);
            }
        }
        best_move
    }

    /// Trims the transposition table once it is oversized: shallow entries
    /// (depth at most two) are evicted until the table is close to its
    /// target size. A table at or under its cap is left untouched; an
    /// oversized one either shrinks to the target fraction or keeps only
    /// entries deeper than two. What stays is exactly what was stored, and
    /// everything evicted was shallow.
    #[verifier::rlimit(100)]
    pub fn cleanup_tt(&self, tt: &mut TransTable)
        ensures
            old(tt)@.len() <= MAX_TT_SIZE ==> final(tt)@ == old(tt)@,
            forall|k: crate::ttable::TtKey|
                final(tt)@.contains_key(k) ==> old(tt)@.contains_key(k) && final(tt)@[k] == old(
                    tt,
                )@[k],
            forall|k: crate::ttable::TtKey|
                old(tt)@.contains_key(k) && !final(tt)@.contains_key(k) ==> old(tt)@[k].depth <= 2,
            tt_wf(old(tt)@) ==> tt_wf(final(tt)@),
            old(tt)@.len() > MAX_TT_SIZE ==> (final(tt)@.len() <= MAX_TT_SIZE * 3 / 4 || (forall|
                k: crate::ttable::TtKey,
            |
                final(tt)@.contains_key(k) ==> final(tt)@[k].depth > 2)),
    {
        let total = crate::ttable::tt_len(tt);
        if total <= MAX_TT_SIZE {
            return ;
        }
        let target_size = MAX_TT_SIZE * 3 / 4;
        let entries = tt_entries(tt);
        proof {
            // The listed keys exhaust the map, so its domain is finite.
            let keys = entries@.map_values(|p: (crate::ttable::TtKey, Entry)| p.0);
            assert forall|k: crate::ttable::TtKey| tt@.dom().contains(k) implies keys.to_set()
                .contains(k) by {
                let i = choose|i: int| 0 <= i < entries@.len() && (#[trigger] entries@[i]).0 == k;
                assert(keys[i] == k);
            }
            vstd::seq_lib::seq_to_set_is_finite(keys);
            vstd::set_lib::lemma_set_subset_finite(keys.to_set(), tt@.dom());
        }
        let mut to_remove: Vec<(u64, u64, u8)> = Vec::new();
        let mut i: usize = 0;
        let mut full = false;
        while i < entries.len() && !full
            invariant
                i <= entries@.len(),
                to_remove@.len() <= i,
                total > MAX_TT_SIZE,
                total as int == tt@.len(),
                tt@.dom().finite(),
                target_size == MAX_TT_SIZE * 3 / 4,
                entries@.len() == tt@.len(),
                forall|j: int|
                    0 <= j < entries@.len() ==> tt@.contains_key((#[trigger] entries@[j]).0)
                        && tt@[entries@[j].0] == entries@[j].1,
                forall|k: crate::ttable::TtKey|
                    tt@.contains_key(k) ==> exists|j: int|
                        0 <= j < entries@.len() && (#[trigger] entries@[j]).0 == k,
                forall|a: int, b: int|
                    0 <= a < b < entries@.len() ==> (#[trigger] entries@[a]).0 != (
                    #[trigger] entries@[b]).0,
                forall|j: int|
                    0 <= j < to_remove@.len() ==> tt@.contains_key(#[trigger] to_remove@[j])
                        && tt@[to_remove@[j]].depth <= 2,
                forall|j: int|
                    0 <= j < to_remove@.len() ==> exists|jj: int|
                        0 <= jj < i && (#[trigger] entries@[jj]).0 == (#[trigger] to_remove@[j]),
                forall|a: int, b: int|
                    0 <= a < b < to_remove@.len() ==> (#[trigger] to_remove@[a]) != (
                    #[trigger] to_remove@[b]),
                !full ==> forall|j: int|
                    0 <= j < i && (#[trigger] entries@[j]).1.depth <= 2 ==> exists|a: int|
                        0 <= a < to_remove@.len() && (#[trigger] to_remove@[a]) == entries@[j].0,
                full ==> to_remove@.len() + target_size >= total,
            decreases entries@.len() - i,
        {
            let ghost tr_entry = to_remove@;
            let (key, entry) = entries[i];
            if entry.depth <= 2 {
                to_remove.push(key);
                proof {
                    assert forall|a: int, b: int|
                        0 <= a < b < to_remove@.len() implies (#[trigger] to_remove@[a]) != (
                    #[trigger] to_remove@[b]) by {
                        if b == to_remove@.len() - 1 {
                            let jj = choose|jj: int|
                                0 <= jj < i && (#[trigger] entries@[jj]).0 == tr_entry[a];
                            assert(entries@[jj].0 != entries@[i as int].0);
                        }
                    }
                    assert forall|j: int|
                        0 <= j < to_remove@.len() implies exists|jj: int|
                        0 <= jj < i + 1 && (#[trigger] entries@[jj]).0 == (
                        #[trigger] to_remove@[j]) by {
                        if j == to_remove@.len() - 1 {
                            assert(entries@[i as int].0 == to_remove@[j]);
                        } else {
                            let jj = choose|jj: int|
                                0 <= jj < i && (#[trigger] entries@[jj]).0 == tr_entry[j];
                            assert(entries@[jj].0 == to_remove@[j]);
                        }
                    }
                }
                if to_remove.len() >= total - target_size {
                    full = true;
                }
            }
            i = i + 1;
            proof {
                if !full {
                    assert forall|j: int|
                        0 <= j < i && (#[trigger] entries@[j]).1.depth <= 2 implies exists|a: int|
                        0 <= a < to_remove@.len() && (#[trigger] to_remove@[a]) == entries@[j]
                        .0 by {
                        if j == i - 1 {
                            assert(to_remove@[to_remove@.len() - 1] == entries@[j].0);
                        } else {
                            assert(exists|a: int|
                                0 <= a < tr_entry.len() && (#[trigger] tr_entry[a]) == entries@[j]
                                    .0);
                            let a = choose|a: int|
                                0 <= a < tr_entry.len() && (#[trigger] tr_entry[a]) == entries@[j]
                                    .0;
                            assert(to_remove@[a] == entries@[j].0);
                        }
                    }
                }
            }
        }
        let ghost entered = tt@;
        let ghost was_full = full;
        let mut j: usize = 0;
        while j < to_remove.len()
            invariant
                j <= to_remove@.len(),
                entered.dom().finite(),
                tt@.dom().finite(),
                tt@.len() + j == entered.len(),
                forall|k: crate::ttable::TtKey|
                    #[trigger] tt@.contains_key(k) ==> entered.contains_key(k) && tt@[k]
                        == entered[k],
                forall|k: crate::ttable::TtKey|
                    #[trigger] entered.contains_key(k) && !tt@.contains_key(k) ==> exists|a: int|
                        0 <= a < j && (#[trigger] to_remove@[a]) == k,
                forall|jj: int|
                    0 <= jj < to_remove@.len() ==> entered.contains_key(#[trigger] to_remove@[jj])
                        && entered[to_remove@[jj]].depth <= 2,
                forall|a: int, b: int|
                    0 <= a < b < to_remove@.len() ==> (#[trigger] to_remove@[a]) != (
                    #[trigger] to_remove@[b]),
                forall|a: int| 0 <= a < j ==> !tt@.contains_key(#[trigger] to_remove@[a]),
            decreases to_remove@.len() - j,
        {
            let key = to_remove[j];
            let ghost prev = tt@;
            proof {
                // The key is still present: it was stored, and the keys
                // already removed all differ from it.
                if !prev.contains_key(key) {
                    let a = choose|a: int| 0 <= a < j && (#[trigger] to_remove@[a]) == key;
                    assert(to_remove@[a] != to_remove@[j as int]);
                }
                vstd::set::axiom_set_remove_len(prev.dom(), key);
                vstd::map::axiom_map_remove_domain(prev, key);
                vstd::set::axiom_set_remove_finite(prev.dom(), key);
            }
            tt_remove(tt, key);
            proof {
                assert forall|k: crate::ttable::TtKey| #[trigger]
                    tt@.contains_key(k) implies entered.contains_key(k) && tt@[k] == entered[k] by {
                    assert(prev.contains_key(k) && tt@[k] == prev[k]);
                }
                assert forall|k: crate::ttable::TtKey| #[trigger]
                    entered.contains_key(k) && !tt@.contains_key(k) implies exists|a: int|
                    0 <= a < j + 1 && (#[trigger] to_remove@[a]) == k by {
                    if k == to_remove@[j as int] {
                        assert(to_remove@[j as int] == k);
                    } else {
                        assert(!prev.contains_key(k));
                    }
                }
            }
            j = j + 1;
        }
        proof {
            assert forall|k: crate::ttable::TtKey|
                entered.contains_key(k) && !tt@.contains_key(k) implies entered[k].depth <= 2 by {
                let a = choose|a: int|
                    0 <= a < to_remove@.len() && (#[trigger] to_remove@[a]) == k;
                assert(entered[to_remove@[a]].depth <= 2);
            }
            if was_full {
                // Enough shallow keys were collected and every one came
                // out: the table shrank to the target size.
                assert(tt@.len() <= target_size);
            } else {
                // The scan covered every entry, so every shallow entry was
                // collected and removed: only deep entries survive.
                assert forall|k: crate::ttable::TtKey| tt@.contains_key(k) implies tt@[k].depth
                    > 2 by {
                    let jj = choose|jj: int|
                        0 <= jj < entries@.len() && (#[trigger] entries@[jj]).0 == k;
                    if entries@[jj].1.depth <= 2 {
                        let a = choose|a: int|
                            0 <= a < to_remove@.len() && (#[trigger] to_remove@[a]) == k;
                        assert(!tt@.contains_key(to_remove@[a]));
                    }
                }
            }
        }
    }

    /// The ordering score of playing `pos` at `ply`: a large bonus for the
    /// recorded PV move of the ply, a killer bonus, the history weight of
    /// the phase/side/square triple, the square's positional worth, a
    /// corner bonus, and ten points per flipped disc.
    pub open spec fn spec_order_score(
        self,
        p: Player,
        ply: int,
        pv: PVTable,
        killers: KillerMoves,
        history: HistoryTable,
        pos: int,
    ) -> int {
        (if pv.spec_pv_move(ply) == Some(pos as u8) {
            10000int
        } else {
            0int
        }) + (if killers.spec_is_killer(ply, pos as u8) {
            5000int
        } else {
            0int
        }) + history.spec_score(
            phase_of(64 - pop64(self.spec_occupied())).spec_index(),
            p.spec_index(),
            pos,
        ) + position_score_spec(pos / 8, pos % 8) + (if pos == 0 || pos == 7 || pos == 56 || pos
            == 63 {
            CORNER_WEIGHT as int
        } else {
            0int
        }) + pop64(self.spec_flips(pos, p)) * 10
    }

    /// Ranks the legal moves of a node, best first: the PV move of the ply,
    /// then killers, history weight, positional value, a corner bonus and
    /// the flip count. Every legal move appears exactly once, carrying
    /// exactly that score, and scores descend.
    #[verifier::rlimit(100)]
    fn order_moves(
        &self,
        legal_moves: u64,
        player: Player,
        ply: usize,
        pv_table: &PVTable,
        killer_moves: &KillerMoves,
        history_table: &HistoryTable,
    ) -> (moves: Vec<Move>)
        requires
            self.wf(),
            ply < 64,
            pv_table.wf(),
            killer_moves.wf(),
            history_table.wf(),
            legal_moves == self.spec_legal_mask(player),
        ensures
            moves@.len() <= 64,
            forall|i: int|
                0 <= i < moves@.len() ==> (#[trigger] moves@[i]).position < 64 && self.spec_legal(
                    moves@[i].position as int,
                    player,
                ),
            forall|i: int, j: int|
                0 <= i < j < moves@.len() ==> moves@[i].score >= moves@[j].score,
            forall|k: int|
                0 <= k < 64 && self.spec_legal(k, player) ==> exists|i: int|
                    0 <= i < moves@.len() && (#[trigger] moves@[i]).position == k,
            forall|i: int, j: int|
                0 <= i < j < moves@.len() ==> (#[trigger] moves@[i]).position != (
                #[trigger] moves@[j]).position,
            forall|i: int|
                0 <= i < moves@.len() ==> (#[trigger] moves@[i]).score as int
                    == self.spec_order_score(
                    player,
                    ply as int,
                    *pv_table,
                    *killer_moves,
                    *history_table,
                    moves@[i].position as int,
                ),
    {
        let phase = GamePhase::from_empty_count(64 - popcount(self.black | self.white));
        let phase_idx = phase.index();
        let player_idx = match player {
            Player::Black => 0usize,
            Player::White => 1usize,
        };
        let mut unsorted: Vec<Move> = Vec::new();
        let mut pos: usize = 0;
        while pos < 64
            invariant
                self.wf(),
                pos <= 64,
                legal_moves == self.spec_legal_mask(player),
                unsorted@.len() <= pos,
                forall|i: int|
                    0 <= i < unsorted@.len() ==> (#[trigger] unsorted@[i]).position < 64
                        && self.spec_legal(unsorted@[i].position as int, player),
                forall|k: int|
                    0 <= k < pos && self.spec_legal(k, player) ==> exists|i: int|
                        0 <= i < unsorted@.len() && (#[trigger] unsorted@[i]).position == k,
                forall|i: int|
                    0 <= i < unsorted@.len() ==> ((#[trigger] unsorted@[i]).position as int) < (
                    pos as int),
                forall|i: int, j: int|
                    0 <= i < j < unsorted@.len() ==> (#[trigger] unsorted@[i]).position != (
                    #[trigger] unsorted@[j]).position,
                forall|i: int|
                    0 <= i < unsorted@.len() ==> (#[trigger] unsorted@[i]).score as int
                        == self.spec_order_score(
                        player,
                        ply as int,
                        *pv_table,
                        *killer_moves,
                        *history_table,
                        unsorted@[i].position as int,
                    ),
                pv_table.wf(),
                killer_moves.wf(),
                history_table.wf(),
                ply < 64,
                phase_idx < 2,
                player_idx < 2,
                phase_idx as int == phase_of(64 - pop64(self.spec_occupied())).spec_index(),
                player_idx as int == player.spec_index(),
            decreases 64 - pos,
        {
            let bit = 1u64 << (pos as u64);
            proof {
                lemma_bit_test(legal_moves, pos as u64);
                crate::board::lemma_legal_mask_bit(*self, player, pos as u64);
            }
            if (legal_moves & bit) != 0 {
                let mut score: i32 = 0;
                match pv_table.get_pv_move(ply) {
                    Some(pv_move) => {
                        if pv_move == pos as u8 {
                            score = score + 10000;
                        }
                    },
                    None => {},
                }
                if killer_moves.is_killer(ply, pos as u8) {
                    score = score + 5000;
                }
                score = score + history_table.get_score(phase_idx, player_idx, pos as u8);
                let row = pos / 8;
                let col = pos % 8;
                score = score + position_score(row, col);
                if pos == 0 || pos == 7 || pos == 56 || pos == 63 {
                    score = score + CORNER_WEIGHT;
                }
                let flips = self.compute_flips(pos, player);
                proof {
                    crate::bits::lemma_pop_bound(flips);
                }
                score = score + (popcount(flips) as i32) * 10;
                proof {
                    assert(player_idx as int == player.spec_index());
                    assert(score as int == self.spec_order_score(
                        player,
                        ply as int,
                        *pv_table,
                        *killer_moves,
                        *history_table,
                        pos as int,
                    ));
                }
                let ghost before_gen = unsorted@;
                unsorted.push(Move::new(pos as u8, score));
                proof {
                    assert forall|k: int|
                        0 <= k < pos + 1 && self.spec_legal(k, player) implies exists|i: int|
                        0 <= i < unsorted@.len() && (#[trigger] unsorted@[i]).position == k by {
                        if k == pos {
                            assert(unsorted@[unsorted@.len() - 1].position == k);
                        } else {
                            let i = choose|i: int|
                                0 <= i < before_gen.len() && (#[trigger] before_gen[i]).position
                                    == k;
                            assert(unsorted@[i].position == k);
                        }
                    }
                }
            }
            pos = pos + 1;
        }
        // Selection sort into a fresh vector: repeatedly move the
        // highest-scored remaining candidate over.
        let mut moves: Vec<Move> = Vec::new();
        while unsorted.len() > 0
            invariant
                self.wf(),
                moves@.len() + unsorted@.len() <= 64,
                forall|i: int|
                    0 <= i < moves@.len() ==> (#[trigger] moves@[i]).position < 64
                        && self.spec_legal(moves@[i].position as int, player),
                forall|i: int|
                    0 <= i < unsorted@.len() ==> (#[trigger] unsorted@[i]).position < 64
                        && self.spec_legal(unsorted@[i].position as int, player),
                forall|i: int, j: int|
                    0 <= i < j < moves@.len() ==> moves@[i].score >= moves@[j].score,
                forall|i: int, j: int|
                    0 <= i < moves@.len() && 0 <= j < unsorted@.len() ==> (#[trigger] moves@[i]).score
                        >= (#[trigger] unsorted@[j]).score,
                forall|i: int, j: int|
                    0 <= i < j < moves@.len() ==> (#[trigger] moves@[i]).position != (
                    #[trigger] moves@[j]).position,
                forall|i: int, j: int|
                    0 <= i < j < unsorted@.len() ==> (#[trigger] unsorted@[i]).position != (
                    #[trigger] unsorted@[j]).position,
                forall|i: int, j: int|
                    0 <= i < moves@.len() && 0 <= j < unsorted@.len() ==> (#[trigger] moves@[i]).position
                        != (#[trigger] unsorted@[j]).position,
                forall|i: int|
                    0 <= i < moves@.len() ==> (#[trigger] moves@[i]).score as int
                        == self.spec_order_score(
                        player,
                        ply as int,
                        *pv_table,
                        *killer_moves,
                        *history_table,
                        moves@[i].position as int,
                    ),
                forall|i: int|
                    0 <= i < unsorted@.len() ==> (#[trigger] unsorted@[i]).score as int
                        == self.spec_order_score(
                        player,
                        ply as int,
                        *pv_table,
                        *killer_moves,
                        *history_table,
                        unsorted@[i].position as int,
                    ),
                forall|k: int|
                    0 <= k < 64 && self.spec_legal(k, player) ==> (exists|i: int|
                        0 <= i < moves@.len() && (#[trigger] moves@[i]).position == k) || (exists|
                        i: int,
                    |
                        0 <= i < unsorted@.len() && (#[trigger] unsorted@[i]).position == k),
            decreases unsorted@.len(),
        {
            let mut best_idx: usize = 0;
            let mut scan: usize = 1;
            while scan < unsorted.len()
                invariant
                    unsorted@.len() > 0,
                    best_idx < scan,
                    scan <= unsorted@.len(),
                    forall|j: int|
                        0 <= j < scan ==> (#[trigger] unsorted@[j]).score
                            <= unsorted@[best_idx as int].score,
                decreases unsorted@.len() - scan,
            {
                if unsorted[scan].score > unsorted[best_idx].score {
                    best_idx = scan;
                }
                scan = scan + 1;
            }
            let ghost before_unsorted = unsorted@;
            let ghost before_moves = moves@;
            let picked = unsorted.remove(best_idx);
            moves.push(picked);
            proof {
                assert forall|k: int|
                    0 <= k < 64 && self.spec_legal(k, player) implies (exists|i: int|
                    0 <= i < moves@.len() && (#[trigger] moves@[i]).position == k) || (exists|
                    i: int,
                |
                    0 <= i < unsorted@.len() && (#[trigger] unsorted@[i]).position == k) by {
                    if exists|i: int|
                        0 <= i < before_moves.len() && (#[trigger] before_moves[i]).position == k {
                        let i = choose|i: int|
                            0 <= i < before_moves.len() && (#[trigger] before_moves[i]).position
                                == k;
                        assert(moves@[i].position == k);
                    } else {
                        let i = choose|i: int|
                            0 <= i < before_unsorted.len() && (#[trigger] before_unsorted[i]).position
                                == k;
                        if i == best_idx {
                            assert(moves@[moves@.len() - 1].position == k);
                        } else if i < best_idx {
                            assert(unsorted@[i].position == k);
                        } else {
                            assert(unsorted@[i - 1].position == k);
                        }
                    }
                }
                assert forall|i: int, j: int|
                    0 <= i < moves@.len() && 0 <= j < unsorted@.len() implies (
                #[trigger] moves@[i]).position != (#[trigger] unsorted@[j]).position by {
                    if j < best_idx {
                        assert(unsorted@[j] == before_unsorted[j]);
                    } else {
                        assert(unsorted@[j] == before_unsorted[j + 1]);
                    }
                    if i == moves@.len() - 1 {
                        assert(moves@[i] == before_unsorted[best_idx as int]);
                    } else {
                        assert(moves@[i] == before_moves[i]);
                    }
                }
            }
        }
        moves
    }
}

/// Negation with the minimum sentinel mapped to the maximum, mirroring
/// `safe_neg`.
pub open spec fn spec_neg(x: int) -> int {
    if x == i32::MIN as int {
        i32::MAX as int
    } else {
        -x
    }
}

/// A stored entry resolves a node outright: it is at least as deep as the
/// remaining depth and its bound kind closes the `(alpha, beta)` window —
/// an exact score, a lower bound at or above beta, or an upper bound at or
/// below alpha.
pub open spec fn tt_cutoff(
    m: Map<crate::ttable::TtKey, Entry>,
    key: crate::ttable::TtKey,
    depth: u8,
    alpha: int,
    beta: int,
) -> bool {
    m.contains_key(key) && m[key].depth >= depth && (match m[key].flag {
        NodeType::Exact => true,
        NodeType::LowerBound => m[key].score as int >= beta,
        NodeType::UpperBound => m[key].score as int <= alpha,
    })
}

/// Storing a capped score keeps the table invariant.
proof fn lemma_tt_store_wf(m: Map<crate::ttable::TtKey, Entry>, key: crate::ttable::TtKey, e: Entry)
    requires
        tt_wf(m),
        -SCORE_CAP <= e.score <= SCORE_CAP,
    ensures
        tt_wf(m.insert(key, e)),
{
    assert forall|k: crate::ttable::TtKey| m.insert(key, e).contains_key(k) implies -SCORE_CAP <= (
    #[trigger] m.insert(key, e)[k]).score <= SCORE_CAP by {
        if k != key {
            assert(m.contains_key(k));
        }
    }
}

impl BitBoard {
    /// One negamax node with an alpha-beta window. The transposition table
    /// resolves or tightens the node when it holds a deep enough entry; a
    /// leaf or finished board evaluates; a side with no move passes at
    /// unchanged depth with the window negated and swapped; otherwise the
    /// ordered candidates are searched in negamax form, the first with the
    /// full window, the rest with a null window at a possibly reduced
    /// depth, re-searched on promise. A resolving table entry is returned
    /// as it stands and the table is left untouched; otherwise the node's
    /// result is stored whole at its key with its depth, its best move,
    /// and its bound kind classified against the original window. The
    /// returned score is capped, the table invariant is kept, rows of the
    /// variation table below `ply` stay as they were, and a recorded
    /// continuation at `ply` starts with a move playable here.
    ///
    /// `just_passed` says the parent node passed: two passes in a row
    /// cannot happen (the game would be over), which bounds the recursion.
    #[verifier::rlimit(50)]
    fn minimax_with_tt_internal(
        &self,
        player: Player,
        depth: u8,
        alpha: i32,
        beta: i32,
        ply: usize,
        just_passed: bool,
        tt: &mut TransTable,
        pv_table: &mut PVTable,
        killer_moves: &mut KillerMoves,
        history_table: &mut HistoryTable,
    ) -> (score: i32)
        requires
            self.wf(),
            old(pv_table).wf(),
            old(killer_moves).wf(),
            old(history_table).wf(),
            tt_wf(old(tt)@),
            ply + 2 * (depth as int) + (if just_passed {
                0int
            } else {
                1int
            }) <= 63,
            just_passed ==> self.spec_legal_mask(player) != 0,
        ensures
            final(pv_table).wf(),
            final(killer_moves).wf(),
            final(history_table).wf(),
            tt_wf(final(tt)@),
            -SCORE_CAP <= score <= SCORE_CAP,
            tt_cutoff(old(tt)@, self.spec_tt_key(player), depth, alpha as int, beta as int)
                ==> final(tt)@ == old(tt)@ && score == old(tt)@[self.spec_tt_key(player)].score,
            !tt_cutoff(old(tt)@, self.spec_tt_key(player), depth, alpha as int, beta as int) ==> {
                &&& final(tt)@.contains_key(self.spec_tt_key(player))
                &&& final(tt)@[self.spec_tt_key(player)].score == score
                &&& final(tt)@[self.spec_tt_key(player)].depth == depth
            },
            !tt_cutoff(old(tt)@, self.spec_tt_key(player), depth, alpha as int, beta as int)
                && depth == 0 ==> score as int == self.eval_spec(player) && final(tt)@[self.spec_tt_key(player)].flag is Exact && final(tt)@[self.spec_tt_key(player)].best_move is None,
            !tt_cutoff(old(tt)@, self.spec_tt_key(player), depth, alpha as int, beta as int)
                && depth >= 1 && self.spec_game_over() ==> score as int == self.game_end_spec(
                player,
            ) && final(tt)@[self.spec_tt_key(player)].flag is Exact && final(tt)@[self.spec_tt_key(player)].best_move is None,
            !tt_cutoff(old(tt)@, self.spec_tt_key(player), depth, alpha as int, beta as int)
                && depth >= 1 && !self.spec_game_over() && self.spec_legal_mask(player) == 0 ==> {
                // The pass is searched at unchanged depth with the window
                // negated and swapped; `eff_alpha` is alpha as tightened by
                // the node's own lower-bound entry before recursing.
                let key = self.spec_tt_key(player);
                let eff_alpha = if old(tt)@.contains_key(key) && old(tt)@[key].depth >= depth
                    && old(tt)@[key].flag is LowerBound && old(tt)@[key].score as int > alpha
                    as int {
                    old(tt)@[key].score as int
                } else {
                    alpha as int
                };
                let ck = self.spec_tt_key(player.spec_opponent());
                &&& final(tt)@[key].flag is Exact
                &&& final(tt)@[key].best_move is None
                &&& (tt_cutoff(old(tt)@, ck, depth, spec_neg(beta as int), spec_neg(eff_alpha))
                    ==> score as int == spec_neg(old(tt)@[ck].score as int))
                &&& (!tt_cutoff(old(tt)@, ck, depth, spec_neg(beta as int), spec_neg(eff_alpha))
                    ==> final(tt)@.contains_key(ck) && final(tt)@[ck].depth == depth
                    && score as int == spec_neg(final(tt)@[ck].score as int))
            },
            !tt_cutoff(old(tt)@, self.spec_tt_key(player), depth, alpha as int, beta as int)
                && depth >= 1 && !self.spec_game_over() && self.spec_legal_mask(player) != 0 ==> {
                &&& final(pv_table).len_at(ply as int) > 0
                &&& final(tt)@[self.spec_tt_key(player)].best_move == Some(
                    final(pv_table).move_at(ply as int),
                )
                &&& final(tt)@[self.spec_tt_key(player)].flag == (if score <= alpha {
                    NodeType::UpperBound
                } else if score >= beta {
                    NodeType::LowerBound
                } else {
                    NodeType::Exact
                })
            },
            forall|p: int|
                0 <= p < ply ==> final(pv_table).len_at(p) == old(pv_table).len_at(p)
                    && final(pv_table).row_at(p) == old(pv_table).row_at(p),
            final(pv_table).len_at(ply as int) > 0 ==> final(pv_table).move_at(ply as int) < 64
                && self.spec_legal(final(pv_table).move_at(ply as int) as int, player),
        decreases depth as int, (if just_passed {
            0int
        } else {
            1int
        }),
    {
        let mut alpha = alpha;
        let original_alpha = alpha;
        pv_table.clear_ply(ply);
        let tt_key = (self.black, self.white, player.index());
        match tt_probe(tt, tt_key) {
            Some(entry) => {
                if entry.depth >= depth {
                    match entry.flag {
                        NodeType::Exact => {
                            return entry.score;
                        },
                        NodeType::LowerBound => {
                            if entry.score >= beta {
                                return entry.score;
                            }
                            if entry.score > alpha {
                                alpha = entry.score;
                            }
                        },
                        NodeType::UpperBound => {
                            if entry.score <= alpha {
                                return entry.score;
                            }
                        },
                    }
                }
            },
            None => {},
        }
        if depth == 0 {
            let score = self.evaluate_board_optimized(player);
            proof {
                lemma_tt_store_wf(tt@, tt_key, Entry { score, depth, flag: NodeType::Exact, best_move: None });
            }
            tt_store(tt, tt_key, Entry { score, depth, flag: NodeType::Exact, best_move: None });
            return score;
        }
        if self.is_game_over() {
            let score = self.evaluate_game_end(player);
            proof {
                lemma_tt_store_wf(tt@, tt_key, Entry { score, depth, flag: NodeType::Exact, best_move: None });
            }
            tt_store(tt, tt_key, Entry { score, depth, flag: NodeType::Exact, best_move: None });
            return score;
        }
        let legal_moves = self.get_legal_moves(player);
        if legal_moves == 0 {
            // A pass: the game is not over, so the opponent can move, and
            // the search continues at the same depth with sides swapped.
            assert(!just_passed);
            assert(self.spec_legal_mask(player.spec_opponent()) != 0);
            let pass_board = *self;
            let score = safe_neg(
                pass_board.minimax_with_tt_internal(
                    player.opponent(),
                    depth,
                    safe_neg(beta),
                    safe_neg(alpha),
                    ply + 1,
                    true,
                    tt,
                    pv_table,
                    killer_moves,
                    history_table,
                ),
            );
            proof {
                assert(player.spec_index() != player.spec_opponent().spec_index());
                assert(self.spec_tt_key(player) != self.spec_tt_key(player.spec_opponent()));
                lemma_tt_store_wf(tt@, tt_key, Entry { score, depth, flag: NodeType::Exact, best_move: None });
            }
            tt_store(tt, tt_key, Entry { score, depth, flag: NodeType::Exact, best_move: None });
            return score;
        }
        let futility_prune = depth < 5 && !self.is_endgame();
        let static_eval = if futility_prune {
            self.evaluate_board_optimized(player)
        } else {
            0
        };
        let moves = self.order_moves(
            legal_moves,
            player,
            ply,
            pv_table,
            killer_moves,
            history_table,
        );
        proof {
            crate::board::lemma_legal_mask_nonzero(*self, player);
            let k = choose|k: int| 0 <= k < 64 && self.spec_legal(k, player);
            assert(exists|i: int| 0 <= i < moves@.len() && (#[trigger] moves@[i]).position == k);
        }
        let mut best_score: i32 = i32::MIN;
        let mut best_move_opt: Option<u8> = None;
        let phase = GamePhase::from_empty_count(64 - popcount(self.black | self.white));
        let phase_idx = phase.index();
        let player_idx = match player {
            Player::Black => 0usize,
            Player::White => 1usize,
        };
        let mut i: usize = 0;
        let mut cut = false;
        while i < moves.len() && !cut
            invariant
                self.wf(),
                pv_table.wf(),
                killer_moves.wf(),
                history_table.wf(),
                tt_wf(tt@),
                1 <= depth,
                ply + 2 * (depth as int) <= 63,
                phase_idx < 2,
                player_idx < 2,
                moves@.len() > 0,
                i <= moves@.len(),
                forall|jj: int|
                    0 <= jj < moves@.len() ==> (#[trigger] moves@[jj]).position < 64
                        && self.spec_legal(moves@[jj].position as int, player),
                -100000 <= static_eval <= 100000,
                futility_prune ==> depth < 5,
                i == 0 ==> best_score == i32::MIN,
                i >= 1 ==> -SCORE_CAP <= best_score <= SCORE_CAP,
                i >= 1 ==> pv_table.len_at(ply as int) > 0,
                best_move_opt == (if pv_table.len_at(ply as int) > 0 {
                    Some(pv_table.move_at(ply as int))
                } else {
                    None::<u8>
                }),
                cut ==> i >= 1,
                forall|p: int|
                    0 <= p < ply ==> pv_table.len_at(p) == old(pv_table).len_at(p) && pv_table
                        .row_at(p) == old(pv_table).row_at(p),
                pv_table.len_at(ply as int) > 0 ==> pv_table.move_at(ply as int) < 64
                    && self.spec_legal(pv_table.move_at(ply as int) as int, player),
            decreases moves@.len() - i,
        {
            let mv = moves[i];
            let pos = mv.position as usize;
            let mut skip = false;
            if futility_prune && i > 0 {
                if static_eval + futility_margin(depth) <= alpha {
                    skip = true;
                }
            }
            if !skip {
                let mut new_board = *self;
                let ok = new_board.make_move(pos, player);
                assert(ok);
                if ok {
                    let mut score: i32;
                    if i == 0 {
                        score = safe_neg(
                            new_board.minimax_with_tt_internal(
                                player.opponent(),
                                depth - 1,
                                safe_neg(beta),
                                safe_neg(alpha),
                                ply + 1,
                                false,
                                tt,
                                pv_table,
                                killer_moves,
                                history_table,
                            ),
                        );
                    } else {
                        let reduction: u8 = if depth >= LMR_DEPTH_THRESHOLD && i
                            >= LMR_MOVE_THRESHOLD && !killer_moves.is_killer(ply, mv.position) {
                            1
                        } else {
                            0
                        };
                        let search_depth = if depth >= 1 + reduction {
                            depth - 1 - reduction
                        } else {
                            0
                        };
                        let null_alpha = safe_neg(alpha);
                        score = safe_neg(
                            new_board.minimax_with_tt_internal(
                                player.opponent(),
                                search_depth,
                                null_alpha - 1,
                                null_alpha,
                                ply + 1,
                                false,
                                tt,
                                pv_table,
                                killer_moves,
                                history_table,
                            ),
                        );
                        if score > alpha && (reduction > 0 || score < beta) {
                            score = safe_neg(
                                new_board.minimax_with_tt_internal(
                                    player.opponent(),
                                    depth - 1,
                                    safe_neg(beta),
                                    safe_neg(alpha),
                                    ply + 1,
                                    false,
                                    tt,
                                    pv_table,
                                    killer_moves,
                                    history_table,
                                ),
                            );
                        }
                    }
                    if score > best_score {
                        best_score = score;
                        best_move_opt = Some(mv.position);
                        pv_table.update(ply, mv.position, ply + 1);
                        if score > alpha {
                            alpha = score;
                            history_table.update(phase_idx, player_idx, mv.position, depth, true);
                            if score >= beta {
                                killer_moves.add_killer(ply, mv.position);
                                let mut jj: usize = i + 1;
                                while jj < moves.len()
                                    invariant
                                        history_table.wf(),
                                        jj <= moves@.len(),
                                        phase_idx < 2,
                                        player_idx < 2,
                                    decreases moves@.len() - jj,
                                {
                                    history_table.update(
                                        phase_idx,
                                        player_idx,
                                        moves[jj].position,
                                        depth,
                                        false,
                                    );
                                    jj = jj + 1;
                                }
                                cut = true;
                            }
                        }
                    }
                }
            }
            i = i + 1;
        }
        let flag = if best_score <= original_alpha {
            NodeType::UpperBound
        } else if best_score >= beta {
            NodeType::LowerBound
        } else {
            NodeType::Exact
        };
        proof {
            lemma_tt_store_wf(tt@, tt_key, Entry { score: best_score, depth, flag, best_move: best_move_opt });
        }
        tt_store(tt, tt_key, Entry { score: best_score, depth, flag, best_move: best_move_opt });
        best_score
    }
}

impl BitBoard {
    /// A playable square witnesses that the legal mask is not empty.
    proof fn lemma_legal_implies_mask_nonzero(self, p: Player, k: int)
        requires
            0 <= k < 64,
            self.spec_legal(k, p),
        ensures
            self.spec_legal_mask(p) != 0,
    {
        crate::board::lemma_legal_mask_bit(self, p, k as u64);
        if self.spec_legal_mask(p) == 0 {
            crate::bits::lemma_zero_bit(k as u64);
        }
    }

    /// Searches the root with the full window. A target of one ply answers
    /// from the shallow mode instead, and then a move is owed whenever one
    /// exists.
    pub fn minimax_best_move_with_tt(
        &self,
        player: Player,
        depth: usize,
        tt: &mut TransTable,
        pv_table: &mut PVTable,
        killer_moves: &mut KillerMoves,
        history_table: &mut HistoryTable,
    ) -> (r: Option<(usize, i32)>)
        requires
            self.wf(),
            1 <= depth <= 31,
            old(pv_table).wf(),
            old(killer_moves).wf(),
            old(history_table).wf(),
            tt_wf(old(tt)@),
        ensures
            final(pv_table).wf(),
            final(killer_moves).wf(),
            final(history_table).wf(),
            tt_wf(final(tt)@),
            r matches Some(p) ==> p.0 < 64 && self.spec_legal(p.0 as int, player) && -SCORE_CAP
                <= p.1 <= SCORE_CAP,
            self.spec_legal_mask(player) == 0 ==> r.is_none(),
            depth == 1 ==> (r.is_some() <==> self.spec_legal_mask(player) != 0),
            depth == 1 ==> (r matches Some(p) ==> p.1 == 0 && self.spec_greedy_choice(
                player,
                p.0 as int,
            )),
    {
        if depth == 1 {
            match self.level1_best_move(player) {
                Some(pos) => {
                    proof {
                        self.lemma_legal_implies_mask_nonzero(player, pos as int);
                    }
                    return Some((pos, 0));
                },
                None => {},
            }
        }
        let legal_moves = self.get_legal_moves(player);
        if legal_moves == 0 {
            return None;
        }
        pv_table.clear_ply(0);
        let score = self.minimax_with_tt_internal(
            player,
            depth as u8,
            i32::MIN + 1,
            i32::MAX - 1,
            0,
            false,
            tt,
            pv_table,
            killer_moves,
            history_table,
        );
        match pv_table.get_pv_move(0) {
            Some(best_move) => Some((best_move as usize, score)),
            None => None,
        }
    }

    /// Searches the root inside a narrow window centred on the previous
    /// depth's score, widening it on each fail-low or fail-high, and falls
    /// back to the full window once the window outgrows its cap. Shallow
    /// targets go straight to the full-window search.
    pub fn aspiration_window_search(
        &self,
        player: Player,
        depth: usize,
        tt: &mut TransTable,
        pv_table: &mut PVTable,
        killer_moves: &mut KillerMoves,
        history_table: &mut HistoryTable,
        prev_score: i32,
    ) -> (r: Option<(usize, i32)>)
        requires
            self.wf(),
            1 <= depth <= 31,
            old(pv_table).wf(),
            old(killer_moves).wf(),
            old(history_table).wf(),
            tt_wf(old(tt)@),
            -SCORE_CAP <= prev_score <= SCORE_CAP,
        ensures
            final(pv_table).wf(),
            final(killer_moves).wf(),
            final(history_table).wf(),
            tt_wf(final(tt)@),
            r matches Some(p) ==> p.0 < 64 && self.spec_legal(p.0 as int, player) && -SCORE_CAP
                <= p.1 <= SCORE_CAP,
            self.spec_legal_mask(player) == 0 ==> r.is_none(),
            depth == 1 ==> (r.is_some() <==> self.spec_legal_mask(player) != 0),
            depth == 1 ==> (r matches Some(p) ==> p.1 == 0 && self.spec_greedy_choice(
                player,
                p.0 as int,
            )),
    {
        if depth <= 3 {
            return self.minimax_best_move_with_tt(
                player,
                depth,
                tt,
                pv_table,
                killer_moves,
                history_table,
            );
        }
        let mut alpha = prev_score - ASPIRATION_WINDOW;
        let mut beta = prev_score + ASPIRATION_WINDOW;
        let mut window_size = ASPIRATION_WINDOW;
        while window_size <= 1000
            invariant
                self.wf(),
                4 <= depth <= 31,
                pv_table.wf(),
                killer_moves.wf(),
                history_table.wf(),
                tt_wf(tt@),
                ASPIRATION_WINDOW <= window_size <= 2000,
            decreases 2000 - window_size,
        {
            pv_table.clear_ply(0);
            let score = self.minimax_with_tt_internal(
                player,
                depth as u8,
                alpha,
                beta,
                0,
                false,
                tt,
                pv_table,
                killer_moves,
                history_table,
            );
            if score <= alpha {
                alpha = score - window_size;
                window_size = window_size * 2;
            } else if score >= beta {
                beta = score + window_size;
                window_size = window_size * 2;
            } else {
                match pv_table.get_pv_move(0) {
                    Some(best_move) => {
                        proof {
                            self.lemma_legal_implies_mask_nonzero(player, best_move as int);
                        }
                        return Some((best_move as usize, score));
                    },
                    None => {
                        return None;
                    },
                }
            }
        }
        self.minimax_best_move_with_tt(player, depth, tt, pv_table, killer_moves, history_table)
    }

    /// Runs the aspiration search at each depth from one up to the target,
    /// keeping the variation, killer and history tables across depths and
    /// decaying the history once per call. Depths past three are skipped
    /// once the wall-clock budget for the target is spent. The answer is
    /// the deepest completed recommendation; a move is owed exactly when
    /// one exists.
    fn iterative_deepening_search(
        &self,
        player: Player,
        max_depth: usize,
        tt: &mut TransTable,
    ) -> (r: (Option<usize>, Option<i32>))
        requires
            self.wf(),
            1 <= max_depth <= 31,
            tt_wf(old(tt)@),
        ensures
            tt_wf(final(tt)@),
            r.0.is_some() <==> self.spec_legal_mask(player) != 0,
            r.0.is_some() <==> r.1.is_some(),
            r.0 matches Some(p) ==> p < 64 && self.spec_legal(p as int, player),
            r.1 matches Some(s) ==> -SCORE_CAP <= s <= SCORE_CAP,
            max_depth == 1 ==> (r.0 matches Some(p) ==> self.spec_greedy_choice(player, p as int)
                && r.1 == Some(0i32)),
    {
        let mut best_move: Option<usize> = None;
        let mut best_eval: Option<i32> = None;
        let mut pv_table = PVTable::new();
        let mut killer_moves = KillerMoves::new();
        let mut history_table = HistoryTable::new();
        let start_time = crate::clock::monotonic_now();
        let time_limit_ms: u64 = if max_depth <= 3 {
            100
        } else if max_depth <= 6 {
            500
        } else if max_depth <= 10 {
            2000
        } else if max_depth <= 15 {
            5000
        } else {
            10000
        };
        let mut current_depth: usize = 1;
        let mut stop = false;
        while current_depth <= max_depth && !stop
            invariant
                self.wf(),
                1 <= max_depth <= 31,
                1 <= current_depth <= max_depth + 1,
                pv_table.wf(),
                killer_moves.wf(),
                history_table.wf(),
                tt_wf(tt@),
                best_move.is_some() <==> best_eval.is_some(),
                best_move matches Some(p) ==> p < 64 && self.spec_legal(p as int, player),
                best_eval matches Some(s) ==> -SCORE_CAP <= s <= SCORE_CAP,
                current_depth == 1 ==> best_move.is_none(),
                max_depth == 1 ==> (best_move matches Some(p) ==> self.spec_greedy_choice(
                    player,
                    p as int,
                ) && best_eval == Some(0i32)),
                current_depth > 1 ==> (best_move.is_some() <==> self.spec_legal_mask(player) != 0),
                stop ==> current_depth > 1,
            decreases (max_depth + 1 - current_depth) * 2 + (if stop {
                0int
            } else {
                1int
            }),
        {
            if crate::clock::elapsed_ms(&start_time) > time_limit_ms && current_depth > 3 {
                stop = true;
            } else {
                let prev = match best_eval {
                    Some(e) => e,
                    None => 0,
                };
                let result = self.aspiration_window_search(
                    player,
                    current_depth,
                    tt,
                    &mut pv_table,
                    &mut killer_moves,
                    &mut history_table,
                    prev,
                );
                match result {
                    Some((mv, ev)) => {
                        proof {
                            self.lemma_legal_implies_mask_nonzero(player, mv as int);
                        }
                        best_move = Some(mv);
                        best_eval = Some(ev);
                        if crate::clock::elapsed_ms(&start_time) > time_limit_ms {
                            stop = true;
                        }
                    },
                    None => {},
                }
                current_depth = current_depth + 1;
            }
        }
        history_table.age();
        (best_move, best_eval)
    }

    /// Finds the best move for `player` looking `depth` plies ahead, with
    /// `tt` as the transposition table carried by the caller across turns.
    /// A target of zero asks for nothing; otherwise a move comes back
    /// exactly when `player` has one, with the score of the deepest
    /// completed iteration. The board itself is left untouched.
    pub fn find_best_move_with_tt(
        &mut self,
        player: Player,
        depth: usize,
        tt: &mut TransTable,
    ) -> (r: (Option<usize>, Option<i32>))
        requires
            old(self).wf(),
            depth <= 31,
            tt_wf(old(tt)@),
        ensures
            *final(self) == *old(self),
            tt_wf(final(tt)@),
            depth == 0 ==> r == (None::<usize>, None::<i32>),
            r.0.is_some() <==> (depth >= 1 && old(self).spec_legal_mask(player) != 0),
            r.0.is_some() <==> r.1.is_some(),
            r.0 matches Some(p) ==> p < 64 && old(self).spec_legal(p as int, player),
            r.1 matches Some(s) ==> -SCORE_CAP <= s <= SCORE_CAP,
            depth == 1 ==> (r.0 matches Some(p) ==> old(self).spec_greedy_choice(player, p as int)
                && r.1 == Some(0i32)),
    {
        if depth == 0 {
            return (None, None);
        }
        if crate::ttable::tt_len(tt) > TT_CLEANUP_THRESHOLD {
            self.cleanup_tt(tt);
        }
        self.iterative_deepening_search(player, depth, tt)
    }
}

} // verus!
