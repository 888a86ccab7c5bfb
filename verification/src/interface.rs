//! What the screen shows and what the keys do, as plain values: colours,
//! rectangles and commands. Drawing and polling are left to the program
//! that uses the library.
use vstd::prelude::*;
use crate::engine::piece::{Direction, Kind};
use crate::engine::Coordinate;

verus! {

/// A colour as red, green and blue.
#[derive(Clone, Copy, Debug, PartialEq, Eq, Structural)]
pub struct Rgb {
    pub r: u8,
    pub g: u8,
    pub b: u8,
}

/// The colours of the game.
#[non_exhaustive]
pub struct Colors;

impl Colors {
    /// The three shades of a palette. The palettes 2 to 7 have their own
    /// shades; every other number stands for the first palette.
    pub open spec fn palette(number: int) -> Seq<Rgb> {
        if number == 2 {
            seq![Rgb { r: 75, g: 165, b: 47 }, Rgb { r: 147, g: 206, b: 66 }, Rgb { r: 176, g: 215, b: 164 }]
        } else if number == 3 {
            seq![Rgb { r: 232, g: 127, b: 242 }, Rgb { r: 201, g: 42, b: 199 }, Rgb { r: 233, g: 174, b: 232 }]
        } else if number == 4 {
            seq![Rgb { r: 127, g: 216, b: 105 }, Rgb { r: 36, g: 87, b: 239 }, Rgb { r: 221, g: 228, b: 250 }]
        } else if number == 5 {
            seq![Rgb { r: 136, g: 245, b: 161 }, Rgb { r: 212, g: 45, b: 93 }, Rgb { r: 240, g: 187, b: 202 }]
        } else if number == 6 {
            seq![Rgb { r: 113, g: 135, b: 243 }, Rgb { r: 136, g: 245, b: 161 }, Rgb { r: 224, g: 251, b: 230 }]
        } else if number == 7 {
            seq![Rgb { r: 127, g: 127, b: 127 }, Rgb { r: 228, g: 74, b: 37 }, Rgb { r: 247, g: 210, b: 201 }]
        } else {
            seq![Rgb { r: 101, g: 187, b: 249 }, Rgb { r: 35, g: 86, b: 237 }, Rgb { r: 240, g: 250, b: 252 }]
        }
    }

    /// The palette of a level: the levels 2 to 7 have their own, all others
    /// take the first.
    pub open spec fn palette_of(level: nat) -> int {
        if 2 <= level <= 7 {
            level as int
        } else {
            1
        }
    }

    /// The shade of a kind within a palette: I, O and T share the first, L
    /// and J the second, S and Z the third.
    pub open spec fn shade(kind: Kind) -> int {
        match kind {
            Kind::I | Kind::O | Kind::T => 0,
            Kind::L | Kind::J => 1,
            Kind::S | Kind::Z => 2,
        }
    }

    /// The colour of the window behind everything.
    pub fn bg() -> (c: Rgb)
        ensures
            c == (Rgb { r: 128, g: 128, b: 255 }),
    {
        Rgb { r: 128, g: 128, b: 255 }
    }

    /// The colour of the field and of the panel of the queue.
    pub fn live_area() -> (c: Rgb)
        ensures
            c == (Rgb { r: 187, g: 183, b: 190 }),
    {
        Rgb { r: 187, g: 183, b: 190 }
    }

    /// The colour of the outline of a marked cell.
    pub fn marked_cell() -> (c: Rgb)
        ensures
            c == (Rgb { r: 255, g: 100, b: 100 }),
    {
        Rgb { r: 255, g: 100, b: 100 }
    }

    /// The colour of a piece of a kind at a level.
    pub fn color_for(level: usize, kind: &Kind) -> (c: Rgb)
        ensures
            c == Colors::palette(Colors::palette_of(level as nat))[Colors::shade(*kind)],
    {
        match level {
            2 => match kind {
                Kind::I => Rgb { r: 75, g: 165, b: 47 },
                Kind::O => Rgb { r: 75, g: 165, b: 47 },
                Kind::T => Rgb { r: 75, g: 165, b: 47 },
                Kind::L => Rgb { r: 147, g: 206, b: 66 },
                Kind::J => Rgb { r: 147, g: 206, b: 66 },
                Kind::S => Rgb { r: 176, g: 215, b: 164 },
                Kind::Z => Rgb { r: 176, g: 215, b: 164 },
            },
            3 => match kind {
                Kind::I => Rgb { r: 232, g: 127, b: 242 },
                Kind::O => Rgb { r: 232, g: 127, b: 242 },
                Kind::T => Rgb { r: 232, g: 127, b: 242 },
                Kind::L => Rgb { r: 201, g: 42, b: 199 },
                Kind::J => Rgb { r: 201, g: 42, b: 199 },
                Kind::S => Rgb { r: 233, g: 174, b: 232 },
                Kind::Z => Rgb { r: 233, g: 174, b: 232 },
            },
            4 => match kind {
                Kind::I => Rgb { r: 127, g: 216, b: 105 },
                Kind::O => Rgb { r: 127, g: 216, b: 105 },
                Kind::T => Rgb { r: 127, g: 216, b: 105 },
                Kind::L => Rgb { r: 36, g: 87, b: 239 },
                Kind::J => Rgb { r: 36, g: 87, b: 239 },
                Kind::S => Rgb { r: 221, g: 228, b: 250 },
                Kind::Z => Rgb { r: 221, g: 228, b: 250 },
            },
            5 => match kind {
                Kind::I => Rgb { r: 136, g: 245, b: 161 },
                Kind::O => Rgb { r: 136, g: 245, b: 161 },
                Kind::T => Rgb { r: 136, g: 245, b: 161 },
                Kind::L => Rgb { r: 212, g: 45, b: 93 },
                Kind::J => Rgb { r: 212, g: 45, b: 93 },
                Kind::S => Rgb { r: 240, g: 187, b: 202 },
                Kind::Z => Rgb { r: 240, g: 187, b: 202 },
            },
            6 => match kind {
                Kind::I => Rgb { r: 113, g: 135, b: 243 },
                Kind::O => Rgb { r: 113, g: 135, b: 243 },
                Kind::T => Rgb { r: 113, g: 135, b: 243 },
                Kind::L => Rgb { r: 136, g: 245, b: 161 },
                Kind::J => Rgb { r: 136, g: 245, b: 161 },
                Kind::S => Rgb { r: 224, g: 251, b: 230 },
                Kind::Z => Rgb { r: 224, g: 251, b: 230 },
            },
            7 => match kind {
                Kind::I => Rgb { r: 127, g: 127, b: 127 },
                Kind::O => Rgb { r: 127, g: 127, b: 127 },
                Kind::T => Rgb { r: 127, g: 127, b: 127 },
                Kind::L => Rgb { r: 228, g: 74, b: 37 },
                Kind::J => Rgb { r: 228, g: 74, b: 37 },
                Kind::S => Rgb { r: 247, g: 210, b: 201 },
                Kind::Z => Rgb { r: 247, g: 210, b: 201 },
            },
            _ => match kind {
                Kind::I => Rgb { r: 101, g: 187, b: 249 },
                Kind::O => Rgb { r: 101, g: 187, b: 249 },
                Kind::T => Rgb { r: 101, g: 187, b: 249 },
                Kind::L => Rgb { r: 35, g: 86, b: 237 },
                Kind::J => Rgb { r: 35, g: 86, b: 237 },
                Kind::S => Rgb { r: 240, g: 250, b: 252 },
                Kind::Z => Rgb { r: 240, g: 250, b: 252 },
            },
        }
    }
}

/// The screens of the game.
#[derive(Clone, Copy, Debug, PartialEq, Eq, Structural)]
pub enum GameState {
    TitleScreen,
    Playing,
    Paused,
    GameOver,
}

/// The keys that the game listens to, each held or not.
#[derive(Clone, Copy, Debug, PartialEq, Eq, Structural)]
pub struct Keys {
    pub space: bool,
    pub p: bool,
    pub up: bool,
    pub right_ctrl: bool,
    pub left: bool,
    pub right: bool,
    pub down: bool,
}

impl Keys {
    /// The keys of `self` that are not among `old`: those newly pressed.
    pub open spec fn without(self, old: Keys) -> Keys {
        Keys {
            space: self.space && !old.space,
            p: self.p && !old.p,
            up: self.up && !old.up,
            right_ctrl: self.right_ctrl && !old.right_ctrl,
            left: self.left && !old.left,
            right: self.right && !old.right,
            down: self.down && !old.down,
        }
    }

    /// No key held.
    pub open spec fn spec_none() -> Keys {
        Keys {
            space: false,
            p: false,
            up: false,
            right_ctrl: false,
            left: false,
            right: false,
            down: false,
        }
    }

    /// No key held.
    pub fn none() -> (k: Keys)
        ensures
            k == Keys::spec_none(),
    {
        Keys {
            space: false,
            p: false,
            up: false,
            right_ctrl: false,
            left: false,
            right: false,
            down: false,
        }
    }

    /// Whether one of the two keys that repeat is held.
    pub open spec fn spec_holds(self, key: RepeatKey) -> bool {
        match key {
            RepeatKey::Left => self.left,
            RepeatKey::Right => self.right,
        }
    }

    /// Whether one of the two keys that repeat is held.
    pub fn holds(&self, key: RepeatKey) -> (held: bool)
        ensures
            held == self.spec_holds(key),
    {
        match key {
            RepeatKey::Left => self.left,
            RepeatKey::Right => self.right,
        }
    }
}

/// The keys that move the piece again and again while they are held.
#[derive(Clone, Copy, Debug, PartialEq, Eq, Structural)]
pub enum RepeatKey {
    Left,
    Right,
}

/// Whether a key repeats: not at all, held since a time but not yet
/// repeating, or repeating since a time. Times are in milliseconds.
#[derive(Clone, Copy, Debug, PartialEq, Eq, Structural)]
pub enum AutoRepeat {
    NoPress,
    Pressed(RepeatKey, u64),
    Repeating(RepeatKey, u64),
}

/// What the keys ask of the engine.
#[derive(Clone, Copy, Debug, PartialEq, Eq, Structural)]
pub enum Command {
    /// Try to move or to turn the piece.
    Move(Direction),
    /// Drop the piece to the pile.
    Drop,
    /// Clear the board and bring in a new piece.
    Restart,
}

/// The screen that is shown and what is known of the keys.
#[derive(Clone, Copy, Debug, PartialEq, Eq, Structural)]
pub struct Interface {
    pub state: GameState,
    /// The keys that were held at the last frame.
    pub pressed_keys: Keys,
    pub auto_repeat: AutoRepeat,
    /// Whether the key for soft drop is held.
    pub soft_drop: bool,
}

/// The time from `start` to `now` in milliseconds, never negative.
pub open spec fn millis_between(start: u64, now: u64) -> int {
    if now >= start {
        now - start
    } else {
        0
    }
}

impl Interface {
    /// What the keys newly pressed while playing ask for, in this order:
    /// a turn counterclockwise, a turn clockwise, a hard drop, a step to
    /// the side, which goes left where both sides are pressed at once.
    pub open spec fn presses(newly: Keys) -> Seq<Command> {
        (if newly.up {
            seq![Command::Move(Direction::CCW)]
        } else {
            Seq::<Command>::empty()
        }) + (if newly.right_ctrl {
            seq![Command::Move(Direction::CW)]
        } else {
            Seq::<Command>::empty()
        }) + (if newly.space {
            seq![Command::Drop]
        } else {
            Seq::<Command>::empty()
        }) + (if newly.left {
            seq![Command::Move(Direction::LEFT)]
        } else if newly.right {
            seq![Command::Move(Direction::RIGHT)]
        } else {
            Seq::<Command>::empty()
        })
    }

    /// The repeat after the keys newly pressed: a key to the side that
    /// goes down starts to count anew.
    pub open spec fn armed(auto_repeat: AutoRepeat, newly: Keys, now: u64) -> AutoRepeat {
        if newly.left {
            AutoRepeat::Pressed(RepeatKey::Left, now)
        } else if newly.right {
            AutoRepeat::Pressed(RepeatKey::Right, now)
        } else {
            auto_repeat
        }
    }

    /// One frame of the repeat, with the keys as they are held now: the
    /// repeat ends when its key is let go, starts 300 ms after the key went
    /// down, and then fires at every frame that comes 28 ms or more after
    /// it started.
    pub open spec fn repeated(auto_repeat: AutoRepeat, held: Keys, now: u64) -> AutoRepeat {
        match auto_repeat {
            AutoRepeat::NoPress => AutoRepeat::NoPress,
            AutoRepeat::Pressed(key, start) => {
                if !held.spec_holds(key) {
                    AutoRepeat::NoPress
                } else if millis_between(start, now) >= 300 {
                    AutoRepeat::Repeating(key, now)
                } else {
                    auto_repeat
                }
            },
            AutoRepeat::Repeating(key, start) => {
                if !held.spec_holds(key) {
                    AutoRepeat::NoPress
                } else {
                    auto_repeat
                }
            },
        }
    }

    /// Whether the repeat fires at this frame.
    pub open spec fn fires(auto_repeat: AutoRepeat, held: Keys, now: u64) -> bool {
        match auto_repeat {
            AutoRepeat::NoPress => false,
            AutoRepeat::Pressed(key, start) => held.spec_holds(key) && millis_between(start, now)
                >= 300,
            AutoRepeat::Repeating(key, start) => held.spec_holds(key) && millis_between(
                start,
                now,
            ) >= 28,
        }
    }

    /// The side to which a repeat moves the piece: left while the left key
    /// is held, else right.
    pub open spec fn repeat_direction(held: Keys) -> Direction {
        if held.left {
            Direction::LEFT
        } else {
            Direction::RIGHT
        }
    }

    /// The interface after one frame of input. `held` are the keys held at
    /// the start of the frame, `held_later` the keys held once the presses
    /// have been dealt with.
    pub open spec fn handled(self, held: Keys, held_later: Keys, now: u64) -> Interface {
        let newly = held.without(self.pressed_keys);
        let seen = Interface { soft_drop: held.down, pressed_keys: held, ..self };
        match self.state {
            GameState::TitleScreen => Interface {
                state: if newly.space {
                    GameState::Playing
                } else {
                    GameState::TitleScreen
                },
                ..seen
            },
            GameState::Playing => Interface {
                state: if newly.p {
                    GameState::Paused
                } else {
                    GameState::Playing
                },
                auto_repeat: Self::repeated(
                    Self::armed(self.auto_repeat, newly, now),
                    held_later,
                    now,
                ),
                ..seen
            },
            GameState::Paused => Interface {
                state: if newly.p {
                    GameState::Playing
                } else {
                    GameState::Paused
                },
                ..seen
            },
            GameState::GameOver => Interface {
                state: if newly.space {
                    GameState::Playing
                } else {
                    GameState::GameOver
                },
                ..seen
            },
        }
    }

    /// What one frame of input asks of the engine, in the order in which
    /// it is to be done.
    pub open spec fn commands(self, held: Keys, held_later: Keys, now: u64) -> Seq<Command> {
        let newly = held.without(self.pressed_keys);
        match self.state {
            GameState::Playing => Self::presses(newly) + (if Self::fires(
                Self::armed(self.auto_repeat, newly, now),
                held_later,
                now,
            ) {
                seq![Command::Move(Self::repeat_direction(held_later))]
            } else {
                Seq::<Command>::empty()
            }),
            GameState::GameOver => if newly.space {
                seq![Command::Restart]
            } else {
                Seq::<Command>::empty()
            },
            _ => Seq::<Command>::empty(),
        }
    }

    pub open spec fn spec_new() -> Interface {
        Interface {
            state: GameState::TitleScreen,
            pressed_keys: Keys::spec_none(),
            auto_repeat: AutoRepeat::NoPress,
            soft_drop: false,
        }
    }

    /// The interface at the start: the title screen, no key held.
    pub fn new() -> (i: Interface)
        ensures
            i == Interface::spec_new(),
    {
        Interface {
            state: GameState::TitleScreen,
            pressed_keys: Keys::none(),
            auto_repeat: AutoRepeat::NoPress,
            soft_drop: false,
        }
    }

    /// The keys that are held now and were not held before.
    pub fn get_scancodes(old: &Keys, new: &Keys) -> (newly: Keys)
        ensures
            newly == new.without(*old),
    {
        Keys {
            space: new.space && !old.space,
            p: new.p && !old.p,
            up: new.up && !old.up,
            right_ctrl: new.right_ctrl && !old.right_ctrl,
            left: new.left && !old.left,
            right: new.right && !old.right,
            down: new.down && !old.down,
        }
    }

    /// Deals with one frame of input and says what the engine is to do.
    /// The title screen waits for the space key. While playing, the keys
    /// newly pressed turn, drop and move the piece, P pauses, and a key to
    /// the side that stays down repeats its move. The pause ends with P.
    /// After the end of a game the space key starts the next.
    pub fn handle_input(&mut self, held: Keys, held_later: Keys, now: u64) -> (asked: Vec<Command>)
        ensures
            *final(self) == old(self).handled(held, held_later, now),
            asked@ == old(self).commands(held, held_later, now),
    {
        let mut asked: Vec<Command> = Vec::new();
        self.soft_drop = held.down;
        let newly_pressed = Interface::get_scancodes(&self.pressed_keys, &held);
        self.pressed_keys = held;
        match self.state {
            GameState::TitleScreen => {
                if newly_pressed.space {
                    self.state = GameState::Playing
                }
            },
            GameState::Playing => {
                if newly_pressed.p {
                    self.state = GameState::Paused;
                }
                if newly_pressed.up {
                    asked.push(Command::Move(Direction::CCW));
                }
                if newly_pressed.right_ctrl {
                    asked.push(Command::Move(Direction::CW));
                }
                if newly_pressed.space {
                    asked.push(Command::Drop);
                }
                if newly_pressed.left || newly_pressed.right {
                    let direction;
                    if newly_pressed.left {
                        direction = Direction::LEFT;
                        self.auto_repeat = AutoRepeat::Pressed(RepeatKey::Left, now);
                    } else {
                        direction = Direction::RIGHT;
                        self.auto_repeat = AutoRepeat::Pressed(RepeatKey::Right, now);
                    }
                    asked.push(Command::Move(direction));
                }
                assert(asked@ =~= Self::presses(newly_pressed));
                let direction;
                if held_later.left {
                    direction = Direction::LEFT;
                } else {
                    direction = Direction::RIGHT;
                }
                match self.auto_repeat {
                    AutoRepeat::NoPress => (),
                    AutoRepeat::Pressed(key, start) => {
                        if !held_later.holds(key) {
                            self.auto_repeat = AutoRepeat::NoPress;
                            return asked;
                        }
                        let duration: u64 = if now >= start {
                            now - start
                        } else {
                            0
                        };
                        if duration >= 300 {
                            self.auto_repeat = AutoRepeat::Repeating(key, now);
                            asked.push(Command::Move(direction));
                        }
                    },
                    AutoRepeat::Repeating(key, start) => {
                        if !held_later.holds(key) {
                            self.auto_repeat = AutoRepeat::NoPress;
                            return asked;
                        }
                        let duration: u64 = if now >= start {
                            now - start
                        } else {
                            0
                        };
                        if duration >= 28 {
                            asked.push(Command::Move(direction));
                        }
                    },
                }
            },
            GameState::Paused => {
                if newly_pressed.p {
                    self.state = GameState::Playing;
                }
            },
            GameState::GameOver => {
                if newly_pressed.space {
                    asked.push(Command::Restart);
                    self.state = GameState::Playing
                }
            },
        }
        asked
    }

    /// Notes that the game is over: a tick or a hard drop has failed.
    pub fn game_over(&mut self)
        ensures
            *final(self) == (Interface { state: GameState::GameOver, ..*old(self) }),
    {
        self.state = GameState::GameOver;
    }

    /// The level one step up, but not above 15.
    pub fn level_up(level: usize) -> (next: usize)
        requires
            level < usize::MAX,
        ensures
            next == (if level + 1 < 15 {
                level + 1
            } else {
                15
            }),
    {
        if level + 1 < 15 {
            level + 1
        } else {
            15
        }
    }

    /// The level one step down, but not below 1.
    pub fn level_down(level: usize) -> (next: usize)
        requires
            level >= 1,
        ensures
            next == (if level - 1 > 1 {
                level - 1
            } else {
                1
            }),
    {
        if level - 1 > 1 {
            level - 1
        } else {
            1
        }
    }

    /// Where a text of the given size goes on a canvas of the given size.
    /// A text that is not centred stands at (x, y). A centred one stands in
    /// the middle of the width, or at the left edge if it is too wide, and
    /// `y` below the middle of the height, or at `y` if it would not fit.
    pub fn text_position(
        width: u32,
        height: u32,
        canvas_width: u32,
        canvas_height: u32,
        x: u32,
        y: u32,
        centered: bool,
    ) -> (at: (u32, u32))
        requires
            centered ==> height + y <= u32::MAX,
            centered && height + y <= canvas_height ==> (canvas_height - height) / 2 + y
                <= u32::MAX,
        ensures
            at.0 == (if !centered {
                x as int
            } else if width > canvas_width {
                0
            } else {
                (canvas_width - width) / 2
            }),
            at.1 == (if !centered || height + y > canvas_height {
                y as int
            } else {
                (canvas_height - height) / 2 + y
            }),
    {
        let x_pos;
        let y_pos;
        if centered {
            x_pos = if width > canvas_width {
                0
            } else {
                (canvas_width - width) / 2
            };
            y_pos = if (height + y) > canvas_height {
                y
            } else {
                (canvas_height - height) / 2 + y
            };
        } else {
            x_pos = x;
            y_pos = y;
        }
        (x_pos, y_pos)
    }
}

/// A rectangle on the screen, in pixels.
#[derive(Clone, Copy, Debug, PartialEq, Eq, Structural)]
pub struct Rect {
    pub x: i32,
    pub y: i32,
    pub width: u32,
    pub height: u32,
}

/// Whether a number of pixels can be written as a coordinate of the
/// screen.
pub open spec fn on_screen(v: int) -> bool {
    i32::MIN <= v <= i32::MAX
}

/// Where the field is drawn: the top left corner of its panel.
#[derive(Clone, Copy, Debug, PartialEq, Eq, Structural)]
pub struct Matrix {
    pub x: i32,
    pub y: i32,
}

impl Matrix {
    /// Edge of a cell, in pixels.
    pub const SQUARE_SIZE: i32 = 27;

    pub const ONE_THIRD: i32 = 9;

    pub const TWO_THIRDS: i32 = 18;

    /// Left edge of a column.
    pub open spec fn column_x(&self, column: int) -> int {
        self.x + column * 27
    }

    /// Top edge of a row of the field. The panel shows a third of a cell
    /// above the first row.
    pub open spec fn row_y(&self, row: int) -> int {
        self.y + row * 27 + 9
    }

    /// Whether a cell of the falling piece is not drawn: it is more than
    /// one row above the field and the piece has fallen less than two
    /// thirds of a row.
    pub open spec fn hidden(mino: Coordinate, pixel_offset_y: i32) -> bool {
        mino.y < -1 && pixel_offset_y < 18
    }

    /// Top edge of a cell of the falling piece that has fallen
    /// `pixel_offset_y` pixels of its row. A cell above the field does not
    /// stand above the panel.
    pub open spec fn mino_y(&self, mino: Coordinate, pixel_offset_y: i32) -> int {
        if mino.y <= -1 {
            let y = self.y + (pixel_offset_y - 18) + (mino.y + 1) * 27;
            if y > self.y {
                y
            } else {
                self.y as int
            }
        } else {
            self.row_y(mino.y as int) + pixel_offset_y
        }
    }

    /// Height of a cell of the falling piece: a cell above the field shows
    /// only what has come into the panel.
    pub open spec fn mino_height(mino: Coordinate, pixel_offset_y: i32) -> int {
        if mino.y <= -1 {
            let height = 9 + pixel_offset_y + (mino.y + 1) * 27;
            if height < 27 {
                height
            } else {
                27
            }
        } else {
            27
        }
    }

    pub fn new(left_offset: i32, top_offset: i32) -> (m: Matrix)
        ensures
            m == (Matrix { x: left_offset, y: top_offset }),
    {
        Matrix { x: left_offset, y: top_offset }
    }

    /// The panel of the field: ten cells wide, twenty cells and a third
    /// high.
    pub fn frame(&self) -> (r: Rect)
        ensures
            r == (Rect { x: self.x, y: self.y, width: 270, height: 549 }),
    {
        Rect { x: self.x, y: self.y, width: 270, height: 549 }
    }

    /// The two rectangles of a cell of the board: the inner one, which is
    /// filled, and the outline.
    pub fn cell_rects(&self, cell: Coordinate) -> (rects: (Rect, Rect))
        requires
            on_screen(self.column_x(cell.x as int)),
            on_screen(self.column_x(cell.x as int) + 2),
            on_screen(self.row_y(cell.y as int)),
            on_screen(self.row_y(cell.y as int) + 2),
        ensures
            rects.0 == (Rect {
                x: (self.column_x(cell.x as int) + 2) as i32,
                y: (self.row_y(cell.y as int) + 2) as i32,
                width: 23,
                height: 23,
            }),
            rects.1 == (Rect {
                x: self.column_x(cell.x as int) as i32,
                y: self.row_y(cell.y as int) as i32,
                width: 27,
                height: 27,
            }),
    {
        let x: i128 = (self.x as i128) + (cell.x as i128) * 27;
        let y: i128 = (self.y as i128) + (cell.y as i128) * 27 + 9;
        (
            Rect { x: (x + 2) as i32, y: (y + 2) as i32, width: 23, height: 23 },
            Rect { x: x as i32, y: y as i32, width: 27, height: 27 },
        )
    }

    /// The two rectangles of a cell of the falling piece, or nothing for a
    /// cell that is not drawn yet. `pixel_offset_y` is what the piece has
    /// fallen of its row, in pixels.
    pub fn cursor_rects(&self, mino: Coordinate, pixel_offset_y: i32) -> (rects: Option<
        (Rect, Rect),
    >)
        requires
            !Matrix::hidden(mino, pixel_offset_y) ==> {
                &&& on_screen(self.column_x(mino.x as int))
                &&& on_screen(self.column_x(mino.x as int) + 2)
                &&& on_screen(self.mino_y(mino, pixel_offset_y))
                &&& on_screen(self.mino_y(mino, pixel_offset_y) + 2)
                &&& Matrix::mino_height(mino, pixel_offset_y) >= 0
            },
        ensures
            Matrix::hidden(mino, pixel_offset_y) ==> rects is None,
            !Matrix::hidden(mino, pixel_offset_y) ==> rects == Some(
                (
                    Rect {
                        x: (self.column_x(mino.x as int) + 2) as i32,
                        y: (self.mino_y(mino, pixel_offset_y) + 2) as i32,
                        width: 23,
                        height: (if Matrix::mino_height(mino, pixel_offset_y) > 4 {
                            Matrix::mino_height(mino, pixel_offset_y) - 4
                        } else {
                            0
                        }) as u32,
                    },
                    Rect {
                        x: self.column_x(mino.x as int) as i32,
                        y: self.mino_y(mino, pixel_offset_y) as i32,
                        width: 27,
                        height: Matrix::mino_height(mino, pixel_offset_y) as u32,
                    },
                ),
            ),
    {
        if mino.y < -1 && pixel_offset_y < Matrix::TWO_THIRDS {
            return None;
        }
        let height: i128;
        let x: i128 = (self.x as i128) + (mino.x as i128) * 27;
        let y: i128;
        if mino.y <= -1 {
            let mino_offset: i128 = ((mino.y as i128) + 1) * 27;
            let shown: i128 = (self.y as i128) + ((pixel_offset_y as i128) - 18) + mino_offset;
            y = if shown > self.y as i128 {
                shown
            } else {
                self.y as i128
            };
            let whole: i128 = 9 + (pixel_offset_y as i128) + mino_offset;
            height = if whole < 27 {
                whole
            } else {
                27
            };
        } else {
            y = (self.y as i128) + (pixel_offset_y as i128) + (mino.y as i128) * 27 + 9;
            height = 27;
        }
        let inner: i128 = if height > 4 {
            height - 4
        } else {
            0
        };
        Some(
            (
                Rect { x: (x + 2) as i32, y: (y + 2) as i32, width: 23, height: inner as u32 },
                Rect { x: x as i32, y: y as i32, width: 27, height: height as u32 },
            ),
        )
    }
}

/// Where the kinds to come are drawn, and how many of them.
#[derive(Clone, Copy, Debug, PartialEq, Eq, Structural)]
pub struct PieceQueue {
    pub x: i32,
    pub y: i32,
    pub shown_items: usize,
}

impl PieceQueue {
    /// Left edge of a cell of a kind shown. The kinds I and O stand half a
    /// cell further left, so that they look centred.
    pub open spec fn mino_x(&self, kind: Kind, mino: Coordinate) -> int {
        self.x + mino.x * 27 - (if kind == Kind::I || kind == Kind::O {
            13int
        } else {
            0
        })
    }

    /// Top edge of a cell of the `index`-th kind shown: each kind has three
    /// cells of height.
    pub open spec fn mino_y(&self, index: int, mino: Coordinate) -> int {
        self.y + 10 + 81 * index + mino.y * 27
    }

    /// The panel at the given place, showing four kinds.
    pub fn new(left_offset: i32, top_offset: i32) -> (q: PieceQueue)
        ensures
            q == (PieceQueue { x: left_offset, y: top_offset, shown_items: 4 }),
    {
        PieceQueue { x: left_offset, y: top_offset, shown_items: 4 }
    }

    /// The panel: five cells wide, three cells high for each kind shown,
    /// and one cell to the left of its place.
    pub fn frame(&self) -> (r: Rect)
        requires
            on_screen(self.x - 27),
            self.shown_items * 81 <= u32::MAX,
        ensures
            r == (Rect {
                x: (self.x - 27) as i32,
                y: self.y,
                width: 135,
                height: (self.shown_items * 81) as u32,
            }),
    {
        Rect {
            x: self.x - Matrix::SQUARE_SIZE,
            y: self.y,
            width: 135,
            height: ((self.shown_items as u128) * 81) as u32,
        }
    }

    /// The two rectangles of a cell of the `index`-th kind shown, the
    /// inner one and the outline, or nothing for a cell above the box of
    /// the kind.
    pub fn mino_rects(&self, index: usize, kind: Kind, mino: Coordinate) -> (rects: Option<
        (Rect, Rect),
    >)
        requires
            mino.y >= 0 ==> {
                &&& on_screen(self.mino_x(kind, mino))
                &&& on_screen(self.mino_x(kind, mino) + 2)
                &&& on_screen(self.mino_y(index as int, mino))
                &&& on_screen(self.mino_y(index as int, mino) + 2)
            },
        ensures
            mino.y < 0 ==> rects is None,
            mino.y >= 0 ==> rects == Some(
                (
                    Rect {
                        x: (self.mino_x(kind, mino) + 2) as i32,
                        y: (self.mino_y(index as int, mino) + 2) as i32,
                        width: 23,
                        height: 23,
                    },
                    Rect {
                        x: self.mino_x(kind, mino) as i32,
                        y: self.mino_y(index as int, mino) as i32,
                        width: 27,
                        height: 27,
                    },
                ),
            ),
    {
        if mino.y < 0 {
            return None;
        }
        let x_adjust: i128 = match kind {
            Kind::I => 13,
            Kind::O => 13,
            _ => 0,
        };
        let x: i128 = (self.x as i128) + (mino.x as i128) * 27 - x_adjust;
        let y: i128 = (self.y as i128) + 10 + 81 * (index as i128) + (mino.y as i128) * 27;
        Some(
            (
                Rect { x: (x + 2) as i32, y: (y + 2) as i32, width: 23, height: 23 },
                Rect { x: x as i32, y: y as i32, width: 27, height: 27 },
            ),
        )
    }

    /// Shows one kind more, up to seven.
    pub fn show_more(&mut self)
        requires
            old(self).shown_items < usize::MAX,
        ensures
            *final(self) == (PieceQueue {
                shown_items: if old(self).shown_items + 1 < 7 {
                    (old(self).shown_items + 1) as usize
                } else {
                    7
                },
                ..*old(self)
            }),
    {
        self.shown_items = if self.shown_items + 1 < 7 {
            self.shown_items + 1
        } else {
            7
        };
    }

    /// Shows one kind less, down to one.
    pub fn show_fewer(&mut self)
        requires
            old(self).shown_items >= 1,
        ensures
            *final(self) == (PieceQueue {
                shown_items: if old(self).shown_items - 1 > 1 {
                    (old(self).shown_items - 1) as usize
                } else {
                    1
                },
                ..*old(self)
            }),
    {
        self.shown_items = if self.shown_items - 1 > 1 {
            self.shown_items - 1
        } else {
            1
        };
    }
}

} // verus!
