//! The engine as a mathematical state machine: what a state holds, when it
//! is well formed, and what one tick, one move and one hard drop make of it.
use vstd::prelude::*;
use super::bag::{is_bag, supplies};
use super::board::{row_score, BoardView, Coordinate, underflow_message};
use super::piece::{Direction, Kind, Offset, Piece, Rotation};

verus! {

/// The phases of the game. The two timed phases carry the time, in
/// milliseconds, at which they were entered.
#[derive(Clone, Copy, Debug, PartialEq, Eq, Structural)]
pub enum EngineState {
    Falling,
    Locking(u64),
    PatternFinding,
    Animating(u64),
    EliminatingSpace,
}

/// What an engine holds.
pub struct EngineView {
    pub board: BoardView,
    pub bag: Seq<Kind>,
    pub queue: Seq<Kind>,
    pub cursor: Option<Piece>,
    pub state: EngineState,
    pub last_tick: nat,
    pub soft_dropping: bool,
    pub soft_drop_count: nat,
    pub level: nat,
    pub rows_cleared: nat,
    pub points: nat,
}

/// Milliseconds that a piece takes to fall by one row at a level from 1 to
/// 15.
pub open spec fn gravity_interval(level: nat) -> nat {
    seq![1000nat, 793, 618, 473, 355, 262, 190, 135, 94, 64, 43, 28, 18, 11, 7][level - 1]
}

/// The text of the error of a tick whose new piece has no room to fall.
pub open spec fn blocked_spawn_message() -> Seq<char> {
    "Cannot lower new cursor"@
}

/// The text of the error of a hard drop that ends above the field.
pub open spec fn game_over_message() -> Seq<char> {
    "Game Over"@
}

/// A new piece: above the field, in the middle, pointing north.
pub open spec fn spawn_piece(kind: Kind) -> Piece {
    Piece {
        kind,
        position: Coordinate { x: 3, y: -2isize },
        rotation: Rotation::N,
        offset: Offset::spec_zero(),
    }
}

/// The time from `start` to `now`, never negative.
pub open spec fn time_since(start: nat, now: nat) -> nat {
    if now >= start {
        (now - start) as nat
    } else {
        0
    }
}

/// What a call gives back, with the text of an error as a sequence.
pub open spec fn outcome(r: Result<(), String>) -> Result<(), Seq<char>> {
    match r {
        Ok(_) => Ok(()),
        Err(e) => Err(e@),
    }
}

/// How the queue and the bag change when the next kind is pulled: the
/// kind is the front of the queue, and one kind drawn from the bag joins
/// the queue at its end. An empty queue is first filled with seven draws.
pub open spec fn pulled(
    bag: Seq<Kind>,
    queue: Seq<Kind>,
    kind: Kind,
    bag_after: Seq<Kind>,
    queue_after: Seq<Kind>,
) -> bool {
    let line = seq![kind] + queue_after;
    &&& line.len() == (if queue.len() == 0 {
        8
    } else {
        queue.len() + 1
    })
    &&& line.take(queue.len() as int) == queue
    &&& supplies(bag, line.skip(queue.len() as int), bag_after)
}

impl EngineView {
    pub open spec fn wf(self) -> bool {
        &&& self.board.wf()
        &&& is_bag(self.bag)
        &&& (self.queue.len() == 0 || self.queue.len() == 7)
        &&& 1 <= self.level <= 15
        &&& (self.cursor matches Some(c) ==> c.in_field() && c.offset.wf())
        &&& (!self.soft_dropping ==> self.soft_drop_count == 0)
    }

    /// Whether the counters are numbers that the machine can hold.
    pub open spec fn fits_counters(self) -> bool {
        &&& self.points <= usize::MAX
        &&& self.soft_drop_count <= usize::MAX
        &&& self.rows_cleared <= usize::MAX
    }

    /// The state of a new engine.
    pub open spec fn initial() -> EngineView {
        EngineView {
            board: BoardView::blank(),
            bag: Seq::empty(),
            queue: Seq::empty(),
            cursor: None,
            state: EngineState::Falling,
            last_tick: 0,
            soft_dropping: false,
            soft_drop_count: 0,
            level: 1,
            rows_cleared: 0,
            points: 0,
        }
    }

    /// The state after a reset for a new game: the board and the counters
    /// start over; the piece, the phase and the supply stay.
    pub open spec fn reset(self) -> EngineView {
        EngineView {
            board: BoardView::blank(),
            points: 0,
            rows_cleared: 0,
            level: 1,
            soft_dropping: false,
            soft_drop_count: 0,
            ..self
        }
    }

    /// Whether a new piece has been pulled and placed: nothing but the
    /// piece, the queue and the bag has changed.
    pub open spec fn spawns(self, after: EngineView) -> bool {
        &&& after == (EngineView {
            cursor: after.cursor,
            queue: after.queue,
            bag: after.bag,
            ..self
        })
        &&& after.cursor matches Some(c)
        &&& c == spawn_piece(c.kind)
        &&& pulled(self.bag, self.queue, c.kind, after.bag, after.queue)
    }

    /// The state after a requested move: a legal move is made, any other
    /// request changes nothing.
    pub open spec fn moved(self, direction: Direction) -> EngineView {
        match self.cursor {
            None => self,
            Some(c) => {
                let to = match direction {
                    Direction::LEFT => c.shifted(-1, 0),
                    Direction::RIGHT => c.shifted(1, 0),
                    Direction::CW => c.turned(c.rotation.next_cw()),
                    Direction::CCW => c.turned(c.rotation.next_ccw()),
                };
                if to.fits(self.board, 0, 0) {
                    EngineView { cursor: Some(to), ..self }
                } else {
                    self
                }
            },
        }
    }

    /// Whether soft drop was held until now and is released with this tick.
    pub open spec fn released(self, soft_drop: bool) -> bool {
        self.soft_dropping && !soft_drop
    }

    /// The state with the points of a soft drop paid out: the level for each
    /// row counted, and the count starts over.
    pub open spec fn credited(self) -> EngineView {
        EngineView {
            points: self.points + self.level * self.soft_drop_count,
            soft_drop_count: 0,
            ..self
        }
    }

    /// First part of a tick: a soft drop that ends is paid out, and the
    /// engine notes whether soft drop is held.
    pub open spec fn settled(self, soft_drop: bool) -> EngineView {
        let base = if self.released(soft_drop) {
            self.credited()
        } else {
            self
        };
        EngineView { soft_dropping: soft_drop, ..base }
    }

    /// Whether the next tick has to bring a new piece.
    pub open spec fn awaits_spawn(self) -> bool {
        self.state == EngineState::Falling && self.cursor is None
    }

    /// Milliseconds per row at this tick: the interval of the level, and a
    /// twentieth of it, rounded down, while soft drop is held or ends.
    pub open spec fn fall_interval(self, soft_drop: bool) -> nat {
        if soft_drop || self.soft_dropping {
            gravity_interval(self.level) / 20
        } else {
            gravity_interval(self.level)
        }
    }

    /// A tick of a falling piece. `self` is the settled state, `interval`
    /// the milliseconds per row, `released` says whether soft drop ends.
    pub open spec fn fall(self, piece: Piece, interval: nat, released: bool, now: nat) -> EngineView {
        let elapsed = time_since(self.last_tick, now);
        let progress = if elapsed < interval {
            elapsed
        } else {
            interval
        };
        let seen = Piece {
            offset: Offset { elapsed: progress as u32, interval: interval as u32 },
            ..piece
        };
        if released {
            EngineView {
                cursor: Some(seen),
                last_tick: time_since(20 * progress, now),
                ..self
            }
        } else if elapsed > interval {
            if piece.fits(self.board, 0, 1) {
                EngineView {
                    cursor: Some(seen.lowered()),
                    last_tick: now,
                    soft_drop_count: if self.soft_dropping {
                        self.soft_drop_count + 1
                    } else {
                        self.soft_drop_count
                    },
                    ..self
                }
            } else {
                EngineView { cursor: Some(seen), state: EngineState::Locking(now as u64), ..self }
            }
        } else {
            EngineView { cursor: Some(seen), ..self }
        }
    }

    /// Whether the lock delay has run out on a piece that rests.
    pub open spec fn lock_is_due(self, start: nat, now: nat) -> bool {
        &&& !(self.cursor matches Some(c) && c.fits(self.board, 0, 1))
        &&& time_since(start, now) > 500
    }

    /// A tick while a piece rests on the pile. A piece that can fall again
    /// falls. After the lock delay the rows of a soft drop that are not
    /// paid yet are paid, and the piece is committed, unless it reaches
    /// above the field.
    pub open spec fn lock(self, start: nat, now: nat) -> EngineView {
        match self.cursor {
            Some(c) => {
                if c.fits(self.board, 0, 1) {
                    EngineView { cursor: Some(c.lowered()), state: EngineState::Falling, ..self }
                } else if time_since(start, now) > 500 {
                    let paid = self.credited();
                    if c.below_top() {
                        EngineView {
                            board: self.board.with_piece(c),
                            cursor: None,
                            state: EngineState::PatternFinding,
                            ..paid
                        }
                    } else {
                        paid
                    }
                } else {
                    self
                }
            },
            None => {
                if time_since(start, now) > 500 {
                    EngineView { state: EngineState::PatternFinding, ..self }
                } else {
                    self
                }
            },
        }
    }

    /// A tick that looks for complete rows, and pays for them.
    pub open spec fn find_patterns(self, now: nat) -> EngineView {
        let found = self.board.complete_rows().len();
        EngineView {
            board: self.board.scanned(),
            points: self.points + row_score(found, self.level),
            state: if found > 0 {
                EngineState::Animating(now as u64)
            } else {
                EngineState::Falling
            },
            ..self
        }
    }

    /// The level after a row was cleared: one more once the rows cleared
    /// reach ten times the level, but never above fifteen.
    pub open spec fn level_after(self, rows_cleared: nat) -> nat {
        if rows_cleared >= self.level * 10 && self.level < 15 {
            self.level + 1
        } else {
            self.level
        }
    }

    /// A tick while completed rows flash. Once the flash is over one
    /// pending row is collapsed. If cells moved, the row counts as cleared
    /// and the next flash follows; if not, the game goes on.
    pub open spec fn animate(self, start: nat, now: nat) -> EngineView {
        if time_since(start, now) > 100 {
            if self.board.pending.len() > 0 {
                if self.board.filled_above(self.board.topmost_pending() as int) {
                    EngineView {
                        board: self.board.collapsed(),
                        rows_cleared: self.rows_cleared + 1,
                        level: self.level_after(self.rows_cleared + 1),
                        state: EngineState::EliminatingSpace,
                        ..self
                    }
                } else {
                    EngineView {
                        board: self.board.collapsed(),
                        state: EngineState::Falling,
                        ..self
                    }
                }
            } else {
                EngineView { state: EngineState::Falling, ..self }
            }
        } else {
            self
        }
    }

    /// The state after one tick at time `now`, for a state that does not
    /// wait for a new piece.
    pub open spec fn step(self, soft_drop: bool, now: nat) -> EngineView {
        let s = self.settled(soft_drop);
        match s.state {
            EngineState::Falling => match s.cursor {
                Some(c) => s.fall(c, self.fall_interval(soft_drop), self.released(soft_drop), now),
                None => s,
            },
            EngineState::Locking(start) => s.lock(start as nat, now),
            EngineState::PatternFinding => s.find_patterns(now),
            EngineState::Animating(start) => s.animate(start as nat, now),
            EngineState::EliminatingSpace => EngineView {
                state: EngineState::Animating(now as u64),
                ..s
            },
        }
    }

    /// What that tick gives back: an error only where the piece to commit
    /// reaches above the field.
    pub open spec fn step_outcome(self, soft_drop: bool, now: nat) -> Result<(), Seq<char>> {
        match (self.state, self.cursor) {
            (EngineState::Locking(start), Some(c)) => {
                if self.lock_is_due(start as nat, now) && !c.below_top() {
                    Err(underflow_message())
                } else {
                    Ok(())
                }
            },
            _ => Ok(()),
        }
    }

    /// Whether the counters, after one tick at time `now`, are still numbers
    /// that the machine can hold.
    pub open spec fn can_tick(self, soft_drop: bool, now: nat) -> bool {
        if self.awaits_spawn() {
            self.settled(soft_drop).fits_counters()
        } else {
            self.step(soft_drop, now).fits_counters()
        }
    }

    /// Whether one tick at time `now` may take this state to `after` and
    /// give back `result`. A state that waits for a new piece gets one, and
    /// the tick fails if that piece cannot fall by a single row. Every other
    /// state has one successor.
    pub open spec fn ticks_to(
        self,
        soft_drop: bool,
        now: nat,
        after: EngineView,
        result: Result<(), Seq<char>>,
    ) -> bool {
        if self.awaits_spawn() {
            &&& self.settled(soft_drop).spawns(after)
            &&& result == (if after.cursor->0.fits(after.board, 0, 1) {
                Ok::<(), Seq<char>>(())
            } else {
                Err::<(), Seq<char>>(blocked_spawn_message())
            })
        } else {
            &&& after == self.step(soft_drop, now)
            &&& result == self.step_outcome(soft_drop, now)
        }
    }

    /// The state after a hard drop: the piece falls as far as it can, each
    /// row pays two points, and the piece is committed at once, unless it
    /// still reaches above the field.
    pub open spec fn dropped(self) -> EngineView {
        match self.cursor {
            None => self,
            Some(c) => {
                let rows = c.drop_distance(self.board);
                let landed = c.shifted(0, rows as int);
                if landed.below_top() {
                    EngineView {
                        board: self.board.with_piece(landed),
                        points: self.points + 2 * rows,
                        cursor: None,
                        state: EngineState::PatternFinding,
                        ..self
                    }
                } else {
                    EngineView { points: self.points + 2 * rows, ..self }
                }
            },
        }
    }

    /// What a hard drop gives back.
    pub open spec fn drop_outcome(self) -> Result<(), Seq<char>> {
        match self.cursor {
            None => Ok(()),
            Some(c) => {
                if c.shifted(0, c.drop_distance(self.board) as int).below_top() {
                    Ok(())
                } else {
                    Err(game_over_message())
                }
            },
        }
    }
}

/// The higher the level, the shorter the time a piece takes to fall by a
/// row.
pub proof fn lemma_gravity_speeds_up(lower: nat, higher: nat)
    requires
        1 <= lower < higher <= 15,
    ensures
        gravity_interval(higher) < gravity_interval(lower),
{
}

/// Whether the tick at time `now` makes the piece fall by a row under soft
/// drop: soft drop is held, the shortened interval is over and the way
/// down is free.
pub open spec fn forced_lower(s: EngineView, now: nat) -> bool {
    &&& s.state == EngineState::Falling
    &&& s.soft_dropping
    &&& s.cursor matches Some(c) && c.fits(s.board, 0, 1)
    &&& time_since(s.last_tick, now) > gravity_interval(s.level) / 20
}

/// Whether a piece is in play and falls or rests.
pub open spec fn piece_in_play(s: EngineView) -> bool {
    s.cursor is Some && (s.state is Falling || s.state is Locking)
}

/// A row that a falling piece is made to fall under soft drop counts one
/// towards the points of the soft drop, and pays nothing yet.
pub proof fn lemma_soft_drop_counts_rows(s: EngineView, now: nat)
    requires
        forced_lower(s, now),
    ensures
        s.step(true, now).soft_drop_count == s.soft_drop_count + 1,
        s.step(true, now).points == s.points,
        s.step(true, now).level == s.level,
        s.step(true, now).cursor matches Some(c) && c.position == s.cursor->0.lowered().position,
{
}

/// Letting go of soft drop while a piece falls or rests pays the level for
/// each row counted, and the count starts over.
pub proof fn lemma_soft_drop_release_pays(s: EngineView, now: nat)
    requires
        s.soft_dropping,
        piece_in_play(s),
    ensures
        s.step(false, now).points == s.points + s.level * s.soft_drop_count,
        s.step(false, now).soft_drop_count == 0,
        !s.step(false, now).soft_dropping,
{
}

/// While soft drop is not held and no row is counted, a tick on a piece
/// that falls or rests pays nothing, also the tick that commits the piece.
pub proof fn lemma_no_soft_drop_no_pay(s: EngineView, now: nat)
    requires
        !s.soft_dropping,
        s.soft_drop_count == 0,
        piece_in_play(s),
    ensures
        s.step(false, now).points == s.points,
        s.step(false, now).soft_drop_count == 0,
        !s.step(false, now).soft_dropping,
{
}

/// A soft drop held until the piece locks is paid at the lock.
pub proof fn lemma_soft_drop_paid_at_lock(s: EngineView, start: u64, now: nat)
    requires
        s.soft_dropping,
        s.state == EngineState::Locking(start),
        s.cursor is Some,
        s.lock_is_due(start as nat, now),
    ensures
        s.step(true, now).points == s.points + s.level * s.soft_drop_count,
        s.step(true, now).soft_drop_count == 0,
{
}

/// After `n` rows fallen under soft drop from a count of zero, the count
/// is `n`, and the points and the level are as before. `states[i + 1]` is
/// the state after the tick at `times[i]` on `states[i]`.
pub proof fn lemma_soft_drop_rows(states: Seq<EngineView>, times: Seq<nat>, n: int)
    requires
        0 <= n < states.len(),
        n <= times.len(),
        states[0].soft_drop_count == 0,
        forall|i: int|
            0 <= i < n ==> forced_lower(#[trigger] states[i], times[i]) && states[i + 1]
                == states[i].step(true, times[i]),
    ensures
        states[n].soft_drop_count == n,
        states[n].points == states[0].points,
        states[n].level == states[0].level,
    decreases n,
{
    if n > 0 {
        lemma_soft_drop_rows(states, times, n - 1);
        assert(forced_lower(states[n - 1], times[n - 1]));
        lemma_soft_drop_counts_rows(states[n - 1], times[n - 1]);
    }
}

/// Soft drop held for `rows` rows that the piece is made to fall, and then
/// let go, pays the level for each of these rows: the points after the
/// tick that lets go are the points at the start and `rows` times the
/// level, and no row is left to be paid.
pub proof fn lemma_soft_drop_credit(states: Seq<EngineView>, times: Seq<nat>, rows: int)
    requires
        0 <= rows,
        states.len() == rows + 2,
        times.len() == rows + 1,
        states[0].soft_drop_count == 0,
        forall|i: int|
            0 <= i < rows ==> forced_lower(#[trigger] states[i], times[i]) && states[i + 1]
                == states[i].step(true, times[i]),
        states[rows].soft_dropping,
        piece_in_play(states[rows]),
        states[rows + 1] == states[rows].step(false, times[rows]),
    ensures
        states[rows + 1].points == states[0].points + states[0].level * rows,
        states[rows + 1].soft_drop_count == 0,
        !states[rows + 1].soft_dropping,
{
    lemma_soft_drop_rows(states, times, rows);
    lemma_soft_drop_release_pays(states[rows], times[rows]);
}

/// Once soft drop is let go and paid, the ticks that follow without soft
/// drop, as long as the piece falls or rests, pay nothing more, the tick
/// that commits the piece included: the rows of a soft drop are paid
/// once.
pub proof fn lemma_soft_drop_paid_once(states: Seq<EngineView>, times: Seq<nat>, n: int)
    requires
        0 <= n < states.len(),
        n <= times.len(),
        !states[0].soft_dropping,
        states[0].soft_drop_count == 0,
        forall|i: int|
            0 <= i < n ==> piece_in_play(#[trigger] states[i]) && states[i + 1] == states[i].step(
                false,
                times[i],
            ),
    ensures
        states[n].points == states[0].points,
        states[n].soft_drop_count == 0,
        !states[n].soft_dropping,
    decreases n,
{
    if n > 0 {
        lemma_soft_drop_paid_once(states, times, n - 1);
        assert(piece_in_play(states[n - 1]));
        lemma_no_soft_drop_no_pay(states[n - 1], times[n - 1]);
    }
}

} // verus!
