//! The playfield, the falling piece and the state machine that ties them together.
pub mod bag;
pub mod board;
pub mod clock;
pub mod model;
pub mod piece;

pub use board::{Board, Cell, Coordinate};
pub use model::{EngineState, EngineView};

use vstd::prelude::*;
use std::collections::VecDeque;
use std::time::Instant;
use rand::rngs::ThreadRng;
use bag::{draw_step, is_bag, is_full_bag, shuffle, supplies, thread_generator};
use board::BoardView;
use clock::{clock_start, millis_since};
use model::{outcome, pulled, spawn_piece};
use piece::{Direction, Kind, Offset, Piece, Rotation};

verus! {

broadcast use {
    vstd::seq_lib::group_to_multiset_ensures,
    vstd::multiset::group_multiset_axioms,
    vstd::string::group_string_axioms,
    vstd::array::group_array_axioms,
};

/// The game: the board, the falling piece, the supply of pieces, the
/// phase and the score.
pub struct Engine {
    pub board: Board,
    /// What is left of the current bag; the last kind is drawn next.
    pub bag: Vec<Kind>,
    /// The generator that shuffles each new bag.
    pub rng: ThreadRng,
    /// The moment from which the engine counts its milliseconds.
    pub clock: Instant,
    /// When the piece last fell by a row, in milliseconds.
    pub last_tick: u64,
    pub soft_dropping: bool,
    /// Rows that the piece has fallen under soft drop and that are not paid
    /// yet.
    pub soft_drop_count: usize,
    pub level: usize,
    pub rows_cleared: usize,
    pub points: usize,
    pub state: EngineState,
    /// The kinds to come, the next one first.
    pub queue: VecDeque<Kind>,
    pub cursor: Option<Piece>,
}

impl View for Engine {
    type V = EngineView;

    open spec fn view(&self) -> EngineView {
        EngineView {
            board: self.board@,
            bag: self.bag@,
            queue: self.queue@,
            cursor: self.cursor,
            state: self.state,
            last_tick: self.last_tick as nat,
            soft_dropping: self.soft_dropping,
            soft_drop_count: self.soft_drop_count as nat,
            level: self.level as nat,
            rows_cleared: self.rows_cleared as nat,
            points: self.points as nat,
        }
    }
}

impl Engine {
    pub const LEVEL_TPR_IN_MS: [u32; 15] = [
        1000, 793, 618, 473, 355, 262, 190, 135, 94, 64, 43, 28, 18, 11, 7,
    ];

    pub open spec fn wf(&self) -> bool {
        self@.wf()
    }

    /// A new game: a blank board, no piece, an empty supply, level 1.
    pub fn new() -> (e: Engine)
        ensures
            e@ == EngineView::initial(),
            e.wf(),
    {
        let e = Engine {
            board: Board::blank(),
            bag: Vec::new(),
            rng: thread_generator(),
            level: 1,
            rows_cleared: 0,
            points: 0,
            soft_dropping: false,
            soft_drop_count: 0,
            clock: clock_start(),
            last_tick: 0,
            state: EngineState::Falling,
            queue: VecDeque::with_capacity(7),
            cursor: None,
        };
        assert(e@.bag =~= EngineView::initial().bag);
        assert(e@.queue =~= EngineView::initial().queue);
        e
    }

    /// Refills the empty bag with the seven kinds in a random order.
    pub fn fill_bag(&mut self)
        requires
            old(self).bag@.len() == 0,
        ensures
            is_full_bag(final(self).bag@),
            final(self)@ == (EngineView { bag: final(self)@.bag, ..old(self)@ }),
    {
        let mut i: usize = 0;
        while i < 7
            invariant
                i <= 7,
                self.bag@ == bag::all_kinds().take(i as int),
                self@ == (EngineView { bag: self@.bag, ..old(self)@ }),
            decreases 7 - i,
        {
            self.bag.push(Kind::ALL[i]);
            i = i + 1;
            assert(self.bag@ =~= bag::all_kinds().take(i as int));
        }
        assert(self.bag@ =~= bag::all_kinds());
        shuffle(&mut self.bag, &mut self.rng);
    }

    /// Draws the next kind from the bag, which is refilled first if it is
    /// empty.
    pub fn next_piece_from_bag(&mut self) -> (kind: Kind)
        ensures
            draw_step(old(self).bag@, kind, final(self).bag@),
            final(self)@ == (EngineView { bag: final(self)@.bag, ..old(self)@ }),
    {
        if self.bag.len() == 0 {
            self.fill_bag();
            proof {
                bag::lemma_full_bag(self.bag@);
            }
        }
        let ghost full = self.bag@;
        let kind = self.bag.pop().unwrap();
        assert(self.bag@.push(kind) =~= full);
        kind
    }

    /// Draws seven kinds and puts them at the end of the queue.
    pub fn fill_queue(&mut self)
        ensures
            final(self).queue@.len() == old(self).queue@.len() + 7,
            final(self).queue@.take(old(self).queue@.len() as int) == old(self).queue@,
            supplies(
                old(self).bag@,
                final(self).queue@.skip(old(self).queue@.len() as int),
                final(self).bag@,
            ),
            final(self)@ == (EngineView {
                bag: final(self)@.bag,
                queue: final(self)@.queue,
                ..old(self)@
            }),
    {
        let ghost first = old(self).queue@.len() as int;
        proof {
            bag::lemma_supplies_nothing(self.bag@);
            assert(self.queue@.skip(first) =~= Seq::<Kind>::empty());
            assert(self.queue@.take(first) =~= self.queue@);
        }
        let mut i: usize = 0;
        while i < 7
            invariant
                i <= 7,
                first == old(self).queue@.len(),
                self.queue@.len() == first + i,
                self.queue@.take(first) == old(self).queue@,
                supplies(old(self).bag@, self.queue@.skip(first), self.bag@),
                self@ == (EngineView { bag: self@.bag, queue: self@.queue, ..old(self)@ }),
            decreases 7 - i,
        {
            let ghost drawn = self.queue@.skip(first);
            let ghost mid = self.bag@;
            let kind = self.next_piece_from_bag();
            self.queue.push_back(kind);
            proof {
                bag::lemma_supplies_push(old(self).bag@, drawn, mid, kind, self.bag@);
                assert(self.queue@.skip(first) =~= drawn.push(kind));
                assert(self.queue@.take(first) =~= old(self).queue@);
            }
            i = i + 1;
        }
    }

    /// Takes the next kind from the front of the queue and draws one to
    /// take its place at the end. An empty queue is filled first.
    pub fn pull_from_queue(&mut self) -> (kind: Kind)
        ensures
            pulled(old(self).bag@, old(self).queue@, kind, final(self).bag@, final(self).queue@),
            final(self)@ == (EngineView {
                bag: final(self)@.bag,
                queue: final(self)@.queue,
                ..old(self)@
            }),
            final(self).queue@.len() == (if old(self).queue@.len() == 0 {
                7
            } else {
                old(self).queue@.len()
            }),
    {
        let ghost first = old(self).queue@.len() as int;
        if self.queue.len() == 0 {
            self.fill_queue();
        } else {
            proof {
                bag::lemma_supplies_nothing(self.bag@);
            }
        }
        let ghost filled = self.queue@;
        let ghost mid = self.bag@;
        assert(supplies(old(self).bag@, filled.skip(first), mid)) by {
            if first > 0 {
                assert(filled.skip(first) =~= Seq::<Kind>::empty());
            }
        }
        let kind = self.queue.pop_front().unwrap();
        let new = self.next_piece_from_bag();
        self.queue.push_back(new);
        proof {
            let line = seq![kind] + self.queue@;
            assert(line =~= filled.push(new));
            bag::lemma_supplies_push(old(self).bag@, filled.skip(first), mid, new, self.bag@);
            assert(line.skip(first) =~= filled.skip(first).push(new));
            assert(line.take(first) =~= old(self).queue@);
        }
        kind
    }

    /// Starts a new game on the same engine: the board is blank again and
    /// the counters start over.
    pub fn clear_board(&mut self)
        ensures
            final(self)@ == old(self)@.reset(),
    {
        self.points = 0;
        self.rows_cleared = 0;
        self.level = 1;
        self.soft_dropping = false;
        self.soft_drop_count = 0;
        self.board = Board::blank();
    }

    /// Brings the next piece into play, above the field.
    pub fn place_cursor(&mut self)
        ensures
            old(self)@.spawns(final(self)@),
            old(self).wf() ==> final(self).wf(),
    {
        let kind = self.pull_from_queue();
        self.cursor = Some(
            Piece {
                kind,
                position: Coordinate::new(Board::WIDTH / 2 - 2, -2),
                offset: Offset::zero(),
                rotation: Rotation::N,
            },
        );
        proof {
            piece::lemma_shape_is_tetromino(kind, Rotation::N);
            assert(old(self).wf() ==> is_bag(self.bag@)) by {
                if old(self).wf() {
                    lemma_pull_keeps_bag(
                        old(self).bag@,
                        old(self).queue@,
                        kind,
                        self.bag@,
                        self.queue@,
                    );
                }
            }
        }
    }
}

impl Engine {
    /// Makes a requested move if it is legal; any other request, and any
    /// request while no piece is in play, changes nothing.
    pub fn try_move(&mut self, direction: Direction)
        requires
            old(self).wf(),
        ensures
            final(self).wf(),
            final(self)@ == old(self)@.moved(direction),
    {
        match direction {
            Direction::LEFT => self.left_or_right(direction),
            Direction::RIGHT => self.left_or_right(direction),
            Direction::CW => self.cw(),
            Direction::CCW => self.ccw(),
        }
    }

    /// Moves the piece one column to the side if it may go there.
    pub fn left_or_right(&mut self, direction: Direction)
        requires
            old(self).wf(),
            direction.is_lateral(),
        ensures
            final(self).wf(),
            final(self)@ == old(self)@.moved(direction),
    {
        if let Some(c) = self.cursor.as_mut() {
            proof {
                piece::lemma_in_field_fits(*c);
                piece::lemma_shifted(*c, self.board@, direction.spec_value(), 0);
            }
            if c.can_move_lateral(&self.board, direction) {
                c.lateral_move(direction)
            }
        }
    }

    /// Turns the piece clockwise if it may sit so.
    pub fn cw(&mut self)
        requires
            old(self).wf(),
        ensures
            final(self).wf(),
            final(self)@ == old(self)@.moved(Direction::CW),
    {
        if let Some(c) = self.cursor.as_mut() {
            proof {
                piece::lemma_in_field_fits(*c);
                lemma_fits_in_field(c.turned(c.rotation.next_cw()), self.board@);
            }
            c.cw(&self.board);
        }
    }

    /// Turns the piece counterclockwise if it may sit so.
    pub fn ccw(&mut self)
        requires
            old(self).wf(),
        ensures
            final(self).wf(),
            final(self)@ == old(self)@.moved(Direction::CCW),
    {
        if let Some(c) = self.cursor.as_mut() {
            proof {
                piece::lemma_in_field_fits(*c);
                lemma_fits_in_field(c.turned(c.rotation.next_ccw()), self.board@);
            }
            c.ccw(&self.board);
        }
    }

    /// The cells of the pile: filled and not marked, row after row.
    pub fn get_pile(&self) -> (cells: Vec<Coordinate>)
        ensures
            cells@ == self@.board.pile(),
    {
        let ghost wanted = |c: Coordinate|
            self@.board.cells[c.y * 10 + c.x].filled && !self@.board.cells[c.y * 10 + c.x].marked;
        let mut cells: Vec<Coordinate> = Vec::new();
        let mut offset: isize = 0;
        assert(BoardView::positions().take(0) =~= Seq::<Coordinate>::empty());
        while offset < Board::SIZE
            invariant
                0 <= offset <= 200,
                wanted == |c: Coordinate|
                    self@.board.cells[c.y * 10 + c.x].filled && !self@.board.cells[c.y * 10
                        + c.x].marked,
                cells@ == BoardView::positions().take(offset as int).filter(wanted),
            decreases 200 - offset,
        {
            let ghost seen = BoardView::positions().take(offset as int);
            let coordinate = Coordinate { x: offset % Board::WIDTH, y: offset / Board::WIDTH };
            assert(BoardView::positions().take(offset + 1) =~= seen.push(coordinate));
            assert(coordinate.y * 10 + coordinate.x == offset);
            proof {
                seen.lemma_filter_push(coordinate, wanted);
            }
            if self.board.cells[offset as usize].filled && !self.board.cells[offset as usize].marked {
                cells.push(coordinate)
            }
            offset = offset + 1;
        }
        assert(BoardView::positions().take(200) =~= BoardView::positions());
        cells
    }

    /// The cells of the rows that wait to be collapsed: filled and marked,
    /// row after row.
    pub fn get_marked(&self) -> (cells: Vec<Coordinate>)
        ensures
            cells@ == self@.board.marked_cells(),
    {
        let ghost wanted = |c: Coordinate|
            self@.board.cells[c.y * 10 + c.x].filled && self@.board.cells[c.y * 10 + c.x].marked;
        let mut cells: Vec<Coordinate> = Vec::new();
        let mut offset: isize = 0;
        assert(BoardView::positions().take(0) =~= Seq::<Coordinate>::empty());
        while offset < Board::SIZE
            invariant
                0 <= offset <= 200,
                wanted == |c: Coordinate|
                    self@.board.cells[c.y * 10 + c.x].filled && self@.board.cells[c.y * 10
                        + c.x].marked,
                cells@ == BoardView::positions().take(offset as int).filter(wanted),
            decreases 200 - offset,
        {
            let ghost seen = BoardView::positions().take(offset as int);
            let coordinate = Coordinate { x: offset % Board::WIDTH, y: offset / Board::WIDTH };
            assert(BoardView::positions().take(offset + 1) =~= seen.push(coordinate));
            assert(coordinate.y * 10 + coordinate.x == offset);
            proof {
                seen.lemma_filter_push(coordinate, wanted);
            }
            if self.board.cells[offset as usize].filled && self.board.cells[offset as usize].marked {
                cells.push(coordinate)
            }
            offset = offset + 1;
        }
        assert(BoardView::positions().take(200) =~= BoardView::positions());
        cells
    }
}

impl Engine {
    /// Advances the game by one frame, at the time that the engine's clock
    /// shows: whatever that time is, the game moves as `tick_at` says for it.
    pub fn tick(&mut self, soft_drop: bool) -> (r: Result<(), String>)
        requires
            old(self).wf(),
            forall|now: nat| #[trigger] old(self)@.can_tick(soft_drop, now),
        ensures
            final(self).wf(),
            exists|now: u64| #[trigger]
                old(self)@.ticks_to(soft_drop, now as nat, final(self)@, outcome(r)),
    {
        let now = millis_since(&self.clock);
        assert(self@.can_tick(soft_drop, now as nat));
        self.tick_at(soft_drop, now)
    }

    /// Advances the game by one frame at the time `now`, in milliseconds.
    ///
    /// A soft drop that ends is paid out first. Then the phase decides. With
    /// no piece in play one is brought in, and the game is over if it cannot
    /// fall. A falling piece falls by a row once its interval has run out,
    /// and starts to lock when it cannot. A piece that rests is committed
    /// after the lock delay, which fails above the field. Complete rows are
    /// looked for, paid and, after a flash each, collapsed one by one.
    pub fn tick_at(&mut self, soft_drop: bool, now: u64) -> (r: Result<(), String>)
        requires
            old(self).wf(),
            old(self)@.can_tick(soft_drop, now as nat),
        ensures
            final(self).wf(),
            old(self)@.ticks_to(soft_drop, now as nat, final(self)@, outcome(r)),
    {
        let stopped_soft_dropping = self.soft_dropping && !soft_drop;
        proof {
            lemma_tick_keeps_points(self@, soft_drop, now as nat);
        }
        if stopped_soft_dropping {
            self.credit_soft_drop();
        }
        self.soft_dropping = soft_drop;
        match self.state {
            EngineState::Falling => match self.cursor {
                None => {
                    self.place_cursor();
                    if let Some(c) = &self.cursor {
                        proof {
                            piece::lemma_in_field_fits(*c);
                        }
                        if !c.can_lower(&self.board) {
                            return Result::Err("Cannot lower new cursor".to_string());
                        }
                    }
                    Result::Ok(())
                },
                Some(c) => {
                    let duration_divisor: u32 = if soft_drop || stopped_soft_dropping {
                        20
                    } else {
                        1
                    };
                    let level_tick_duration: u32 = Self::LEVEL_TPR_IN_MS[self.level - 1]
                        / duration_divisor;
                    self.fall(c, level_tick_duration, stopped_soft_dropping, now);
                    Result::Ok(())
                },
            },
            EngineState::Locking(start) => self.lock(start, now),
            EngineState::PatternFinding => {
                self.find_patterns(now);
                Result::Ok(())
            },
            EngineState::Animating(start) => {
                self.animate(start, now);
                Result::Ok(())
            },
            EngineState::EliminatingSpace => {
                self.state = EngineState::Animating(now);
                Result::Ok(())
            },
        }
    }

    /// Pays the rows of a soft drop that are not paid yet: the level for
    /// each row.
    fn credit_soft_drop(&mut self)
        requires
            old(self).points + old(self).level * old(self).soft_drop_count <= usize::MAX,
        ensures
            final(self)@ == old(self)@.credited(),
    {
        let ghost level = self.level as int;
        let ghost count = self.soft_drop_count as int;
        assert(0 <= level * count) by (nonlinear_arith)
            requires
                0 <= level,
                0 <= count,
        ;
        self.points = self.points + self.level * self.soft_drop_count;
        self.soft_drop_count = 0;
    }

    /// One frame of a falling piece whose interval is `interval`
    /// milliseconds. The piece shows how much of the interval has passed.
    /// On the frame on which soft drop ends the clock is set back, so that
    /// the same part of the longer interval has passed, and the piece does
    /// not fall. Otherwise, after more than the interval, the piece falls by
    /// a row, or starts to lock if it cannot.
    fn fall(&mut self, c: Piece, interval: u32, stopped_soft_dropping: bool, now: u64)
        requires
            old(self).board.wf(),
            c.in_field(),
            old(self)@.fall(
                c,
                interval as nat,
                stopped_soft_dropping,
                now as nat,
            ).fits_counters(),
        ensures
            final(self)@ == old(self)@.fall(c, interval as nat, stopped_soft_dropping, now as nat),
            final(self).cursor matches Some(p) && p.in_field() && p.offset.wf(),
    {
        proof {
            piece::lemma_in_field_fits(c);
            piece::lemma_shifted(c, self.board@, 0, 1);
        }
        let elapsed: u64 = if now >= self.last_tick {
            now - self.last_tick
        } else {
            0
        };
        let progress: u32 = if elapsed < interval as u64 {
            elapsed as u32
        } else {
            interval
        };
        let seen = Piece {
            kind: c.kind,
            position: c.position,
            rotation: c.rotation,
            offset: Offset { elapsed: progress, interval },
        };
        self.cursor = Some(seen);
        if stopped_soft_dropping {
            let rewind: u64 = 20 * (progress as u64);
            self.last_tick = if now >= rewind {
                now - rewind
            } else {
                0
            };
            return ;
        }
        if elapsed > interval as u64 {
            if seen.can_lower(&self.board) {
                if self.soft_dropping {
                    self.soft_drop_count = self.soft_drop_count + 1;
                }
                self.cursor = Some(seen.lower());
                self.last_tick = now;
            } else {
                self.state = EngineState::Locking(now);
            }
        }
    }

    /// One frame of a piece that rests. If the way down is free again the
    /// piece falls on. Once the lock delay of 500 ms is over, the rows of a
    /// soft drop are paid and the piece is committed to the board.
    fn lock(&mut self, start: u64, now: u64) -> (r: Result<(), String>)
        requires
            old(self).board.wf(),
            old(self).cursor matches Some(c) ==> c.in_field(),
            old(self)@.lock(start as nat, now as nat).fits_counters(),
        ensures
            final(self)@ == old(self)@.lock(start as nat, now as nat),
            final(self).board.wf(),
            final(self).cursor matches Some(c) ==> c.in_field() && (old(self).cursor matches Some(
                p,
            ) && c.offset == p.offset),
            outcome(r) == (if old(self).cursor matches Some(c) && old(self)@.lock_is_due(
                start as nat,
                now as nat,
            ) && !c.below_top() {
                Err::<(), Seq<char>>(board::underflow_message())
            } else {
                Ok::<(), Seq<char>>(())
            }),
    {
        if let Some(c) = &self.cursor {
            proof {
                piece::lemma_in_field_fits(*c);
                piece::lemma_shifted(*c, self.board@, 0, 1);
            }
            if c.can_lower(&self.board) {
                self.cursor = Some(c.lower());
                self.state = EngineState::Falling;
                return Result::Ok(());
            }
        }
        let waited: u64 = if now >= start {
            now - start
        } else {
            0
        };
        if waited > 500 {
            if let Some(c) = self.cursor {
                assert(old(self)@.lock(start as nat, now as nat).points == self.points + self.level
                    * self.soft_drop_count);
                self.credit_soft_drop();
                match self.board.add(&c) {
                    Ok(()) => {},
                    Err(e) => {
                        return Result::Err(e);
                    },
                }
                self.cursor = None;
            }
            self.state = EngineState::PatternFinding;
        }
        Result::Ok(())
    }

    /// One frame that looks for complete rows. Rows that are found are
    /// paid and flash next; with none the game goes on.
    fn find_patterns(&mut self, now: u64)
        requires
            old(self).board.wf(),
            old(self)@.find_patterns(now as nat).fits_counters(),
        ensures
            final(self)@ == old(self)@.find_patterns(now as nat),
            final(self).board.wf(),
    {
        match self.board.has_patterns(&mut self.points, &mut self.level) {
            true => self.state = EngineState::Animating(now),
            false => self.state = EngineState::Falling,
        }
    }

    /// One frame while rows flash. Once the flash of 100 ms is over a
    /// pending row is collapsed. A collapse that moved cells counts as a
    /// row cleared, may raise the level, and is followed by the next flash.
    fn animate(&mut self, start: u64, now: u64)
        requires
            old(self).board.wf(),
            old(self)@.animate(start as nat, now as nat).fits_counters(),
            1 <= old(self).level <= 15,
        ensures
            final(self)@ == old(self)@.animate(start as nat, now as nat),
            final(self).board.wf(),
            1 <= final(self).level <= 15,
    {
        let waited: u64 = if now >= start {
            now - start
        } else {
            0
        };
        if waited > 100 {
            if self.board.clear_marked() {
                self.rows_cleared = self.rows_cleared + 1;
                if self.rows_cleared >= (self.level * 10) {
                    if self.level < 15 {
                        self.level = self.level + 1;
                    }
                }
                self.state = EngineState::EliminatingSpace;
            } else {
                self.state = EngineState::Falling;
            }
        }
    }

    /// Drops the piece as far as it can fall and commits it at once. Each
    /// row of the fall pays two points. The game is over if the piece comes
    /// to rest while it still reaches above the field. With no piece in
    /// play nothing happens.
    pub fn drop(&mut self) -> (r: Result<(), String>)
        requires
            old(self).wf(),
            old(self).cursor matches Some(c) ==> old(self).points + 2 * c.drop_distance(
                old(self).board@,
            ) <= usize::MAX,
        ensures
            final(self).wf(),
            final(self)@ == old(self)@.dropped(),
            outcome(r) == old(self)@.drop_outcome(),
    {
        match &self.cursor {
            None => (),
            Some(c) => {
                let ghost start = *c;
                let ghost total = start.drop_distance(self.board@);
                let mut p = Piece {
                    kind: c.kind,
                    position: c.position,
                    offset: c.offset,
                    rotation: c.rotation,
                };
                let mut drop_height: usize = 0;
                proof {
                    piece::lemma_in_field_fits(p);
                }
                while p.can_lower(&self.board)
                    invariant
                        p.in_field(),
                        p.cells_fit(0, 0),
                        p.cells_fit(0, 1),
                        p == start.shifted(0, drop_height as int),
                        drop_height + p.drop_distance(self.board@) == total,
                        2 * total <= usize::MAX,
                        isize::MIN <= start.position.y + drop_height <= 19,
                        start.in_field(),
                    decreases p.drop_distance(self.board@),
                {
                    proof {
                        piece::lemma_shifted(p, self.board@, 0, 1);
                        piece::lemma_in_field_fits(p.lowered());
                        assert(p.lowered() == start.shifted(0, drop_height + 1));
                    }
                    drop_height = drop_height + 1;
                    p = p.lower();
                }
                self.points = self.points + 2 * drop_height;
                proof {
                    piece::lemma_in_field_fits(p);
                }
                if let Err(_) = self.board.add(&p) {
                    return Err("Game Over".to_string());
                }
                self.cursor = None;
                self.state = EngineState::PatternFinding;
            },
        }
        Ok(())
    }
}

/// A tick takes nothing from the points once a soft drop that ends has
/// been paid: where the counters fit after the tick, they fit after the
/// payment.
pub proof fn lemma_tick_keeps_points(s: EngineView, soft_drop: bool, now: nat)
    requires
        s.fits_counters(),
        s.can_tick(soft_drop, now),
    ensures
        s.settled(soft_drop).fits_counters(),
{
    let settled = s.settled(soft_drop);
    if !s.awaits_spawn() {
        assert(s.step(soft_drop, now).points >= settled.points) by {
            let level = settled.level as int;
            let count = settled.soft_drop_count as int;
            assert(0 <= level * count) by (nonlinear_arith)
                requires
                    0 <= level,
                    0 <= count,
            ;
        }
    }
}

/// A piece in a legal place lies in the field.
pub proof fn lemma_fits_in_field(piece: Piece, board: BoardView)
    ensures
        piece.fits(board, 0, 0) ==> piece.in_field(),
{
    if piece.fits(board, 0, 0) {
        assert forall|i: int| #![trigger piece.shape()[i]] 0 <= i < 4 implies 0 <= piece.cell_x(i)
            < 10 && piece.cell_y(i) < 20 by {
            assert(0 <= piece.cell_x(i) + 0 < 10);
        }
    }
}

/// Pulling a kind leaves a bag that holds no kind twice.
pub proof fn lemma_pull_keeps_bag(
    bag: Seq<Kind>,
    queue: Seq<Kind>,
    kind: Kind,
    bag_after: Seq<Kind>,
    queue_after: Seq<Kind>,
)
    requires
        is_bag(bag),
        pulled(bag, queue, kind, bag_after, queue_after),
    ensures
        is_bag(bag_after),
{
    let drawn = (seq![kind] + queue_after).skip(queue.len() as int);
    bag::lemma_supplies_keep_bag(bag, drawn, bag_after);
}

} // verus!
