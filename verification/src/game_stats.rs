//! A record of one game's course: every turn with its disc counts,
//! thinking time and engine evaluation, and the summary drawn from them.
//! Times are carried as whole milliseconds.

use vstd::prelude::*;

use crate::clock::monotonic_now;
use crate::player::Player;

verus! {

/// One recorded turn. A pass carries no position; a human turn carries no
/// evaluation.
#[derive(Debug, Clone, Copy)]
pub struct MoveRecord {
    pub move_number: usize,
    pub player: Player,
    pub position: Option<(usize, usize)>,
    pub thinking_time_ms: u64,
    pub black_count: u32,
    pub white_count: u32,
    pub evaluation: Option<i32>,
}

/// The summary of a finished game.
#[derive(Debug, Clone, Copy)]
pub struct GameResult {
    pub winner: Option<Player>,
    pub black_final_count: u32,
    pub white_final_count: u32,
    pub total_moves: usize,
    pub game_duration_ms: u64,
    pub total_thinking_time_ms: u64,
}

/// How many of the records are played moves (passes are recorded too but
/// not numbered).
pub open spec fn count_plays(s: Seq<MoveRecord>) -> int
    decreases s.len(),
{
    if s.len() == 0 {
        0
    } else {
        count_plays(s.drop_last()) + if s.last().position.is_some() {
            1int
        } else {
            0int
        }
    }
}

/// The thinking time of the played moves, in milliseconds.
pub open spec fn total_thinking(s: Seq<MoveRecord>) -> int
    decreases s.len(),
{
    if s.len() == 0 {
        0
    } else {
        total_thinking(s.drop_last()) + if s.last().position.is_some() {
            s.last().thinking_time_ms as int
        } else {
            0int
        }
    }
}

/// The played moves' numbers and disc counts, in order.
pub open spec fn disc_history(s: Seq<MoveRecord>) -> Seq<(usize, u32, u32)>
    decreases s.len(),
{
    if s.len() == 0 {
        Seq::empty()
    } else {
        let rest = disc_history(s.drop_last());
        if s.last().position.is_some() {
            rest.push((s.last().move_number, s.last().black_count, s.last().white_count))
        } else {
            rest
        }
    }
}

/// The engine-evaluated played moves, in order.
pub open spec fn eval_history(s: Seq<MoveRecord>) -> Seq<(usize, Player, i32)>
    decreases s.len(),
{
    if s.len() == 0 {
        Seq::empty()
    } else {
        let rest = eval_history(s.drop_last());
        if s.last().position.is_some() && s.last().evaluation.is_some() {
            rest.push((s.last().move_number, s.last().player, s.last().evaluation.unwrap()))
        } else {
            rest
        }
    }
}

/// A prefix of the records never counts more plays than it has records,
/// and thinking-time sums only grow along a game.
proof fn lemma_prefix_totals(s: Seq<MoveRecord>, i: int)
    requires
        0 <= i <= s.len(),
    ensures
        0 <= count_plays(s.take(i)) <= i,
        0 <= total_thinking(s.take(i)) <= total_thinking(s),
    decreases s.len() - i,
{
    lemma_take_step_bounds(s, i);
    if i < s.len() {
        lemma_prefix_totals(s, i + 1);
        assert(s.take(i + 1).drop_last() =~= s.take(i));
        assert(s.take(i + 1).last() == s[i]);
    } else {
        assert(s.take(i) =~= s);
    }
}

proof fn lemma_take_step_bounds(s: Seq<MoveRecord>, i: int)
    requires
        0 <= i <= s.len(),
    ensures
        0 <= count_plays(s.take(i)) <= i,
        0 <= total_thinking(s.take(i)),
    decreases i,
{
    if i > 0 {
        lemma_take_step_bounds(s, i - 1);
        assert(s.take(i).drop_last() =~= s.take(i - 1));
    }
}

/// The running record of one game.
#[derive(Debug)]
pub struct GameStats {
    pub moves: Vec<MoveRecord>,
    pub game_start_time: std::time::Instant,
    pub current_move_number: usize,
}

impl GameStats {
    /// The number of played moves recorded so far.
    pub open spec fn spec_move_count(self) -> int {
        self.current_move_number as int
    }

    /// The record invariant: the running move number counts exactly the
    /// played moves among the records.
    pub open spec fn wf(self) -> bool {
        self.spec_move_count() == count_plays(self.moves@)
    }

    /// Starts an empty record at the current time.
    pub fn new() -> (r: GameStats)
        ensures
            r.wf(),
            r.moves@.len() == 0,
            r.spec_move_count() == 0,
    {
        GameStats { moves: Vec::new(), game_start_time: monotonic_now(), current_move_number: 0 }
    }

    /// Appends one turn. A turn with a position is numbered as the next
    /// played move; a pass keeps the previous number.
    pub fn record_move(
        &mut self,
        player: Player,
        position: Option<(usize, usize)>,
        thinking_time_ms: u64,
        black_count: u32,
        white_count: u32,
        evaluation: Option<i32>,
    )
        requires
            old(self).wf(),
            old(self).moves@.len() < usize::MAX,
        ensures
            final(self).wf(),
            final(self).spec_move_count() == old(self).spec_move_count() + if position.is_some() {
                1int
            } else {
                0int
            },
            final(self).moves@ == old(self).moves@.push(
                MoveRecord {
                    move_number: (final(self).spec_move_count()) as usize,
                    player,
                    position,
                    thinking_time_ms,
                    black_count,
                    white_count,
                    evaluation,
                },
            ),
    {
        proof {
            lemma_prefix_totals(self.moves@, self.moves@.len() as int);
            assert(self.moves@.take(self.moves@.len() as int) =~= self.moves@);
        }
        if position.is_some() {
            self.current_move_number = self.current_move_number + 1;
        }
        let record = MoveRecord {
            move_number: self.current_move_number,
            player,
            position,
            thinking_time_ms,
            black_count,
            white_count,
            evaluation,
        };
        self.moves.push(record);
        proof {
            assert(self.moves@.drop_last() =~= old(self).moves@);
        }
    }

    /// Summarises the finished game: the winner and final counts handed
    /// in, the played-move total, the wall-clock game length, and the sum
    /// of the played moves' thinking times.
    pub fn finalize_game(&self, winner: Option<Player>, black_count: u32, white_count: u32) -> (r:
        GameResult)
        requires
            self.wf(),
            total_thinking(self.moves@) <= u64::MAX,
        ensures
            r.winner == winner,
            r.black_final_count == black_count,
            r.white_final_count == white_count,
            r.total_moves as int == self.spec_move_count(),
            r.total_thinking_time_ms as int == total_thinking(self.moves@),
    {
        let total_moves = self.get_move_count();
        let game_duration_ms = crate::clock::elapsed_ms(&self.game_start_time);
        let mut total: u64 = 0;
        let mut i: usize = 0;
        while i < self.moves.len()
            invariant
                i <= self.moves@.len(),
                total_thinking(self.moves@) <= u64::MAX,
                total as int == total_thinking(self.moves@.take(i as int)),
            decreases self.moves@.len() - i,
        {
            proof {
                lemma_prefix_totals(self.moves@, i + 1);
                assert(self.moves@.take(i + 1).drop_last() =~= self.moves@.take(i as int));
                assert(self.moves@.take(i + 1).last() == self.moves@[i as int]);
            }
            let m = self.moves[i];
            if m.position.is_some() {
                total = total + m.thinking_time_ms;
            }
            i = i + 1;
        }
        proof {
            assert(self.moves@.take(self.moves@.len() as int) =~= self.moves@);
        }
        GameResult {
            winner,
            black_final_count: black_count,
            white_final_count: white_count,
            total_moves,
            game_duration_ms,
            total_thinking_time_ms: total,
        }
    }

    /// Lists the played moves' numbers and disc counts.
    pub fn get_disc_count_history(&self) -> (r: Vec<(usize, u32, u32)>)
        ensures
            r@ == disc_history(self.moves@),
    {
        let mut out: Vec<(usize, u32, u32)> = Vec::new();
        let mut i: usize = 0;
        while i < self.moves.len()
            invariant
                i <= self.moves@.len(),
                out@ == disc_history(self.moves@.take(i as int)),
            decreases self.moves@.len() - i,
        {
            proof {
                assert(self.moves@.take(i + 1).drop_last() =~= self.moves@.take(i as int));
                assert(self.moves@.take(i + 1).last() == self.moves@[i as int]);
            }
            let m = self.moves[i];
            if m.position.is_some() {
                out.push((m.move_number, m.black_count, m.white_count));
            }
            i = i + 1;
        }
        proof {
            assert(self.moves@.take(self.moves@.len() as int) =~= self.moves@);
        }
        out
    }

    /// Lists the engine-evaluated played moves.
    pub fn get_evaluation_history(&self) -> (r: Vec<(usize, Player, i32)>)
        ensures
            r@ == eval_history(self.moves@),
    {
        let mut out: Vec<(usize, Player, i32)> = Vec::new();
        let mut i: usize = 0;
        while i < self.moves.len()
            invariant
                i <= self.moves@.len(),
                out@ == eval_history(self.moves@.take(i as int)),
            decreases self.moves@.len() - i,
        {
            proof {
                assert(self.moves@.take(i + 1).drop_last() =~= self.moves@.take(i as int));
                assert(self.moves@.take(i + 1).last() == self.moves@[i as int]);
            }
            let m = self.moves[i];
            match (m.position, m.evaluation) {
                (Some(_), Some(eval)) => {
                    out.push((m.move_number, m.player, eval));
                },
                _ => {},
            }
            i = i + 1;
        }
        proof {
            assert(self.moves@.take(self.moves@.len() as int) =~= self.moves@);
        }
        out
    }

    /// The number of played moves so far.
    pub fn get_move_count(&self) -> (r: usize)
        ensures
            r as int == self.spec_move_count(),
    {
        self.current_move_number
    }

    /// Copies the record for a viewer of its own, timed from now.
    pub fn clone_for_plotting(&self) -> (r: GameStats)
        requires
            self.wf(),
        ensures
            r.wf(),
            r.moves@ == self.moves@,
            r.spec_move_count() == self.spec_move_count(),
    {
        let mut moves: Vec<MoveRecord> = Vec::new();
        let mut i: usize = 0;
        while i < self.moves.len()
            invariant
                i <= self.moves@.len(),
                moves@ == self.moves@.take(i as int),
            decreases self.moves@.len() - i,
        {
            moves.push(self.moves[i]);
            proof {
                assert(self.moves@.take(i + 1) =~= self.moves@.take(i as int).push(
                    self.moves@[i as int],
                ));
            }
            i = i + 1;
        }
        proof {
            assert(self.moves@.take(self.moves@.len() as int) =~= self.moves@);
        }
        GameStats {
            moves,
            game_start_time: monotonic_now(),
            current_move_number: self.current_move_number,
        }
    }
}

} // verus!
