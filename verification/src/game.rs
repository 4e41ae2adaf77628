//! A game: a board, where it stands on the terminal, the clock, and what
//! the player's input does to them.

use vstd::prelude::*;
use vstd::string::{StrSliceExecFns, StringExecFns};
use crate::board::{Board, BoardSize};
use crate::cell::RenderHint;
use crate::dimension::Dimension;
use crate::grid::BoardState;
use crate::laws::{lemma_flags_within_mines, lemma_pick_refused};
use crate::position::Position;
use crate::text::{append_blank, append_decimal, append_two_digits, decimal, two_digits};

verus! {

/// The status that the player's quitting ends the program with.
pub const INTERRUPT_STATUS: i32 = 99;

/// The condition of a game.
#[derive(Copy, Clone, Debug, PartialEq, Eq, Structural)]
pub enum GameState {
    GiveUp,
    Loose,
    Rules,
    Running,
    Start,
    Win,
}

impl Default for GameState {
    fn default() -> (s: GameState)
        ensures
            s == GameState::Start,
    {
        GameState::Start
    }
}

/// A key of the keyboard, as far as the game tells keys apart.
#[derive(Copy, Clone, Debug, PartialEq, Eq, Structural)]
pub enum KeyInput {
    /// A function key, by its number.
    F(u8),
    /// A character key.
    Char(char),
    /// The enter key.
    Enter,
    /// Any other key.
    Other,
}

/// What the mouse did, as far as the game tells it apart.
#[derive(Copy, Clone, Debug, PartialEq, Eq, Structural)]
pub enum MouseInput {
    LeftDown,
    RightDown,
    Other,
}

/// Something that the terminal reports.
#[derive(Copy, Clone, Debug, PartialEq, Eq, Structural)]
pub enum InputEvent {
    /// A key was pressed; `control` says that the control key, and no other
    /// modifier, was held with it.
    Key { code: KeyInput, control: bool },
    /// The mouse did something at a column and row of the terminal.
    Mouse { kind: MouseInput, column: u16, row: u16 },
    FocusLost,
    FocusGained,
    Other,
}

/// What a key means while the player is asked for the size of the board.
#[derive(Copy, Clone, Debug, PartialEq, Eq, Structural)]
pub enum SizeChoice {
    /// The game begins on a board of this size.
    Chosen(BoardSize),
    /// The player leaves.
    Quit,
    /// The key means nothing here.
    Undecided,
}

/// The meaning of a key on the start screen.
pub open spec fn size_choice(code: KeyInput) -> SizeChoice {
    match code {
        KeyInput::Char(c) => if c == '1' || c == 's' {
            SizeChoice::Chosen(BoardSize::Small)
        } else if c == '2' || c == 'm' {
            SizeChoice::Chosen(BoardSize::Medium)
        } else if c == '3' || c == 'l' {
            SizeChoice::Chosen(BoardSize::Large)
        } else if c == 'q' {
            SizeChoice::Quit
        } else {
            SizeChoice::Undecided
        },
        KeyInput::Enter => SizeChoice::Chosen(BoardSize::Small),
        _ => SizeChoice::Undecided,
    }
}

/// Reads a key on the start screen: a size by its number or its initial,
/// the small one for the enter key, `q` to leave.
pub fn choose_size(code: KeyInput) -> (choice: SizeChoice)
    ensures
        choice == size_choice(code),
{
    match code {
        KeyInput::Char('1') | KeyInput::Char('s') => SizeChoice::Chosen(BoardSize::Small),
        KeyInput::Char('2') | KeyInput::Char('m') => SizeChoice::Chosen(BoardSize::Medium),
        KeyInput::Char('3') | KeyInput::Char('l') => SizeChoice::Chosen(BoardSize::Large),
        KeyInput::Char('q') => SizeChoice::Quit,
        KeyInput::Enter => SizeChoice::Chosen(BoardSize::default()),
        _ => SizeChoice::Undecided,
    }
}

/// The value of a [`Game`].
pub struct GameModel {
    pub term_size: (u16, u16),
    pub title: Seq<char>,
    pub board: BoardState,
    pub tier: BoardSize,
    pub board_pos: (u16, u16),
    pub board_size: (u16, u16),
    pub seconds: u64,
    pub seconds_pos: (u16, u16),
    pub bombs_pos: (u16, u16),
    pub state: GameState,
    pub pause: bool,
    pub update: bool,
    pub debug_mode: bool,
}

/// A terminal of `w` columns and `h` rows has room for a board of the given
/// size with its frame and the line of text above it.
pub open spec fn terminal_fits(board_size: BoardSize, w: u16, h: u16) -> bool {
    w >= 30 && w >= board_size.side() && h >= board_size.side() + 4
}

/// The width of the game's name in columns.
pub const GAME_NAME_WIDTH: u16 = 21;

/// The width that the clock reading is filled up to.
pub const CLOCK_WIDTH: usize = 8;

/// `n` blanks; none where `n` is negative.
pub open spec fn blanks(n: int) -> Seq<char> {
    Seq::new(if n > 0 { n as nat } else { 0 }, |i: int| ' ')
}

/// The title bar of a terminal of `w` columns: a bar of blanks in the
/// colours of the title, cut off where the name begins, which ends half the
/// spare width into the bar; then the name, and the end of the colours.
pub open spec fn title_text(w: u16) -> Seq<char> {
    ("\x1b[97;100m"@ + blanks(w as int)).subrange(0, (w - GAME_NAME_WIDTH) / 2) + "M I N E S W E E P E R"@
        + "\x1b[0m"@
}

/// The clock as it is shown: its caption, and in green the reading, filled
/// up with blanks to eight columns.
pub open spec fn seconds_text(secs: nat) -> Seq<char> {
    "Time: "@ + "\x1b[32m"@ + clock_text(secs) + blanks(CLOCK_WIDTH - clock_text(secs).len())
        + "\x1b[0m"@
}

/// The count of mines as it is shown: its caption, and in green the number
/// in two columns at least.
pub open spec fn bombs_text(left: nat) -> Seq<char> {
    "Bombs left: "@ + "\x1b[32m"@ + (if left < 10 {
        blanks(1)
    } else {
        blanks(0)
    }) + decimal(left) + "\x1b[0m"@
}

/// The clock reading of `secs` seconds: minutes and seconds, with hours
/// before them from one hour on.
pub open spec fn clock_text(secs: nat) -> Seq<char> {
    if secs < 60 {
        "0:"@ + two_digits(secs)
    } else if secs < 3600 {
        decimal(secs / 60) + ":"@ + two_digits(secs % 60)
    } else {
        decimal(secs / 3600) + ":"@ + two_digits((secs % 3600) / 60) + ":"@ + two_digits(secs % 60)
    }
}

impl GameModel {
    /// The board is populated.
    pub open spec fn wf(self) -> bool {
        self.board.populated()
    }

    /// The game after a pick at a column and row of the terminal: the
    /// square of the board that lies there, if any, is picked; a mine that
    /// goes off ends the game; the screen is to be drawn again.
    pub open spec fn after_pick(self, column: u16, row: u16) -> GameModel {
        let x = column - self.board_pos.0;
        let y = row - self.board_pos.1;
        if self.board.can_pick(x, y) && self.board.cell(x, y).mine {
            GameModel {
                board: self.board.picked(x, y),
                state: GameState::Loose,
                pause: true,
                update: true,
                ..self
            }
        } else {
            GameModel { board: self.board.picked(x, y), update: true, ..self }
        }
    }

    /// The game after the player has marked a column and row of the
    /// terminal.
    pub open spec fn after_mark(self, column: u16, row: u16) -> GameModel {
        let x = column - self.board_pos.0;
        let y = row - self.board_pos.1;
        GameModel { board: self.board.marked(x, y), update: true, ..self }
    }

    /// The game after a key. `debug_build` says whether the debug view can
    /// be switched on.
    pub open spec fn after_key(self, code: KeyInput, debug_build: bool) -> GameModel {
        match code {
            KeyInput::F(n) => {
                if n == 1 {
                    GameModel { state: GameState::Rules, pause: true, ..self }
                } else if n == 10 {
                    self.after_quit()
                } else if n == 12 && debug_build {
                    GameModel { debug_mode: !self.debug_mode, update: true, ..self }
                } else {
                    self
                }
            },
            KeyInput::Char(c) => {
                if c == 'q' {
                    self.after_quit()
                } else if c == 'e' {
                    GameModel { state: GameState::Running, pause: false, update: true, ..self }
                } else if c == 'p' {
                    GameModel { pause: !self.pause, update: self.update || self.pause, ..self }
                } else if c == 's' && (self.state == GameState::Loose || self.state
                    == GameState::Win) {
                    GameModel { state: GameState::Start, ..self }
                } else {
                    self
                }
            },
            KeyInput::Enter => self,
            KeyInput::Other => self,
        }
    }

    /// The game after the player has asked to quit: given up, unless the
    /// rules are on the screen.
    pub open spec fn after_quit(self) -> GameModel {
        if self.state != GameState::Rules {
            GameModel { state: GameState::GiveUp, ..self }
        } else {
            self
        }
    }

    /// The game after an event.
    pub open spec fn after_event(self, event: InputEvent, debug_build: bool) -> GameModel {
        match event {
            InputEvent::Key { code, control } => self.after_key(code, debug_build),
            InputEvent::Mouse { kind, column, row } => match kind {
                MouseInput::LeftDown => self.after_pick(column, row),
                MouseInput::RightDown => self.after_mark(column, row),
                MouseInput::Other => self,
            },
            InputEvent::FocusLost => GameModel { pause: true, ..self },
            InputEvent::FocusGained => GameModel { pause: false, ..self },
            InputEvent::Other => self,
        }
    }

    /// The game after the win has been looked for: a running game whose
    /// board is won is won and stands still.
    pub open spec fn after_win_check(self) -> GameModel {
        if self.board.won() && self.state == GameState::Running {
            GameModel { state: GameState::Win, pause: true, ..self }
        } else {
            self
        }
    }
}

/// The game with its often used values.
#[derive(Clone, Debug)]
pub struct Game {
    term_size: Dimension,
    title_bar: String,
    board: Board,
    board_difficult: BoardSize,
    board_pos: Position,
    board_size: Dimension,
    pub seconds: u64,
    seconds_pos: Position,
    bombs_pos: Position,
    state: GameState,
    pub pause: bool,
    pub update: bool,
    pub debug_mode: bool,
}

impl View for Game {
    type V = GameModel;

    closed spec fn view(&self) -> GameModel {
        GameModel {
            term_size: self.term_size@,
            title: self.title_bar@,
            board: self.board@,
            tier: self.board_difficult,
            board_pos: self.board_pos@,
            board_size: self.board_size@,
            seconds: self.seconds,
            seconds_pos: self.seconds_pos@,
            bombs_pos: self.bombs_pos@,
            state: self.state,
            pause: self.pause,
            update: self.update,
            debug_mode: self.debug_mode,
        }
    }
}

impl Game {
    /// A new game on a terminal of `w` columns and `h` rows: a fresh board
    /// of the given size in the middle of the terminal, the clock and the
    /// count of mines two lines above it.
    pub fn new(board_size: BoardSize, w: u16, h: u16) -> (g: Game)
        requires
            terminal_fits(board_size, w, h),
        ensures
            g@.wf(),
            g@.board.fresh(),
            g@.board.width == board_size.side(),
            g@.board.height == board_size.side(),
            g@.board.budget == (board_size.side() * board_size.side()) / 10,
            g@.term_size == (w, h),
            g@.title == title_text(w),
            g@.tier == board_size,
            g@.board_size == (board_size.side() as u16, board_size.side() as u16),
            g@.board_pos == (
                ((w - board_size.side()) / 2) as u16,
                ((h - board_size.side()) / 2) as u16,
            ),
            g@.seconds_pos == ((w / 2 - 15) as u16, ((h - board_size.side()) / 2 - 2) as u16),
            g@.bombs_pos == ((w / 2 + 5) as u16, ((h - board_size.side()) / 2 - 2) as u16),
            g@.seconds == 0,
            g@.state == GameState::Start,
            !g@.pause,
            !g@.update,
            !g@.debug_mode,
    {
        let new_board = Board::new(board_size, false);
        let bw = new_board.get_width();
        let bh = new_board.get_height();
        let mut text = String::from_str("\x1b[97;100m");
        let mut i: u16 = 0;
        while i < w
            invariant
                i <= w,
                text@ == "\x1b[97;100m"@ + blanks(i as int),
            decreases w - i,
        {
            append_blank(&mut text);
            assert(text@ =~= "\x1b[97;100m"@ + blanks(i + 1));
            i += 1;
        }
        let x1 = ((w - GAME_NAME_WIDTH) / 2) as usize;
        let mut title = String::from_str(text.as_str().substring_char(0, x1));
        title.append("M I N E S W E E P E R");
        title.append("\x1b[0m");
        Game {
            term_size: Dimension::new(w, h),
            title_bar: title,
            board: new_board,
            board_difficult: board_size,
            board_pos: Position::new((w - bw) / 2, (h - bh) / 2),
            board_size: Dimension::new(bw, bh),
            seconds: 0,
            seconds_pos: Position::new(w / 2 - 15, (h - bh) / 2 - 2),
            bombs_pos: Position::new(w / 2 + 5, (h - bh) / 2 - 2),
            state: GameState::Start,
            pause: false,
            update: false,
            debug_mode: false,
        }
    }

    /// Clears the board and places its mines afresh.
    pub fn reset_board(&mut self)
        requires
            old(self)@.wf(),
        ensures
            final(self)@.wf(),
            final(self)@.board.fresh(),
            final(self)@.board.same_frame(old(self)@.board),
            final(self)@ == (GameModel { board: final(self)@.board, ..old(self)@ }),
    {
        self.board.reset();
    }

    /// The title bar.
    pub fn get_title(&self) -> (title: &str)
        ensures
            title@ == self@.title,
    {
        self.title_bar.as_str()
    }

    /// The clock as it is shown.
    pub fn get_seconds_text(&self) -> (text: String)
        ensures
            text@ == seconds_text(self@.seconds as nat),
    {
        let reading = self.get_formated_seconds();
        let width = reading.as_str().unicode_len();
        let mut text = String::from_str("Time: ");
        text.append("\x1b[32m");
        text.append(reading.as_str());
        let ghost head = text@;
        let mut i: usize = width;
        while i < CLOCK_WIDTH
            invariant
                width <= i,
                i <= CLOCK_WIDTH || i == width,
                text@ == head + blanks(i - width),
            decreases CLOCK_WIDTH - i,
        {
            append_blank(&mut text);
            assert(text@ =~= head + blanks(i + 1 - width));
            i += 1;
        }
        assert(text@ =~= head + blanks(CLOCK_WIDTH - width));
        text.append("\x1b[0m");
        text
    }

    /// The count of mines as it is shown.
    pub fn get_bombs_text(&self) -> (text: String)
        requires
            self@.wf(),
        ensures
            text@ == bombs_text((self@.board.budget - self@.board.flagged_mines()) as nat),
    {
        let left = self.get_flagged_bombs();
        let mut text = String::from_str("Bombs left: ");
        text.append("\x1b[32m");
        if left < 10 {
            append_blank(&mut text);
            assert(text@ =~= "Bombs left: "@ + "\x1b[32m"@ + blanks(1));
        } else {
            assert(text@ =~= "Bombs left: "@ + "\x1b[32m"@ + blanks(0));
        }
        append_decimal(&mut text, left as u64);
        text.append("\x1b[0m");
        text
    }

    /// The clock reading.
    pub fn get_formated_seconds(&self) -> (text: String)
        ensures
            text@ == clock_text(self@.seconds as nat),
    {
        let mut secs = self.seconds;
        let mut text = String::new();
        if secs < 60 {
            text.append("0:");
            append_two_digits(&mut text, secs);
            assert(text@ =~= clock_text(self@.seconds as nat));
        } else if secs < 3600 {
            let m = secs / 60;
            secs -= m * 60;
            append_decimal(&mut text, m);
            text.append(":");
            append_two_digits(&mut text, secs);
            assert(text@ =~= clock_text(self@.seconds as nat));
        } else {
            let h = secs / 3600;
            secs -= h * 3600;
            let m = secs / 60;
            secs -= m * 60;
            append_decimal(&mut text, h);
            text.append(":");
            append_two_digits(&mut text, m);
            text.append(":");
            append_two_digits(&mut text, secs);
            assert(text@ =~= clock_text(self@.seconds as nat));
        }
        text
    }

    pub fn get_term_width(&self) -> (r: u16)
        ensures
            r == self@.term_size.0,
    {
        self.term_size.get_width()
    }

    pub fn get_term_height(&self) -> (r: u16)
        ensures
            r == self@.term_size.1,
    {
        self.term_size.get_height()
    }

    pub fn set_gamestate(&mut self, game_state: GameState)
        ensures
            final(self)@ == (GameModel { state: game_state, ..old(self)@ }),
    {
        self.state = game_state;
    }

    pub fn get_gamestate(&self) -> (r: GameState)
        ensures
            r == self@.state,
    {
        self.state
    }

    pub fn get_board_x(&self) -> (r: u16)
        ensures
            r == self@.board_pos.0,
    {
        self.board_pos.get_x()
    }

    pub fn get_board_y(&self) -> (r: u16)
        ensures
            r == self@.board_pos.1,
    {
        self.board_pos.get_y()
    }

    pub fn get_board_width(&self) -> (r: u16)
        ensures
            r == self@.board_size.0,
    {
        self.board_size.get_width()
    }

    pub fn get_board_height(&self) -> (r: u16)
        ensures
            r == self@.board_size.1,
    {
        self.board_size.get_height()
    }

    /// The drawing of the board, with every square uncovered in debug mode.
    pub fn get_board_gfx(&mut self) -> (rows: Vec<Vec<RenderHint>>)
        requires
            old(self)@.wf(),
        ensures
            final(self)@ == old(self)@,
            rows@.len() == old(self)@.board.height,
            forall|y: int|
                0 <= y < old(self)@.board.height ==> (#[trigger] rows@[y])@.len() == old(
                    self,
                )@.board.width,
            forall|x: int, y: int|
                old(self)@.board.valid(x, y) ==> (#[trigger] rows@[y]@[x]) == (crate::cell::CellState {
                    revealed: old(self)@.debug_mode || old(self)@.board.cell(x, y).revealed,
                    ..old(self)@.board.cell(x, y)
                }).render_hint(),
    {
        if self.debug_mode {
            self.board.dbg_gfx()
        } else {
            self.board.get_gfx()
        }
    }

    pub fn get_seconds_x(&self) -> (r: u16)
        ensures
            r == self@.seconds_pos.0,
    {
        self.seconds_pos.get_x()
    }

    pub fn get_seconds_y(&self) -> (r: u16)
        ensures
            r == self@.seconds_pos.1,
    {
        self.seconds_pos.get_y()
    }

    pub fn get_bombs_x(&self) -> (r: u16)
        ensures
            r == self@.bombs_pos.0,
    {
        self.bombs_pos.get_x()
    }

    pub fn get_bombs_y(&self) -> (r: u16)
        ensures
            r == self@.bombs_pos.1,
    {
        self.bombs_pos.get_y()
    }

    /// The number of mines that are still to be flagged.
    pub fn get_flagged_bombs(&self) -> (r: u16)
        requires
            self@.wf(),
        ensures
            r == self@.board.budget - self@.board.flagged_mines(),
    {
        proof {
            lemma_flags_within_mines(self@.board);
        }
        self.board.check_correct_flagged_bombs()
    }

    /// Picks the square at `(x, y)` of the board and says whether a mine
    /// went off.
    pub fn pick_board_cell(&mut self, x: i16, y: i16) -> (r: bool)
        requires
            old(self)@.wf(),
        ensures
            final(self)@.wf(),
            final(self)@ == (GameModel {
                board: old(self)@.board.picked(x as int, y as int),
                ..old(self)@
            }),
            r == (old(self)@.board.can_pick(x as int, y as int) && old(self)@.board.cell(
                x as int,
                y as int,
            ).mine),
    {
        if x < 0 || y < 0 {
            proof {
                lemma_pick_refused(self@.board, x as int, y as int);
            }
            return false;
        }
        self.board.pick_cell(x as usize, y as usize)
    }

    /// Moves the marker of the square at `(x, y)` of the board one step on.
    pub fn mark_board_cell(&mut self, x: i16, y: i16)
        requires
            old(self)@.wf(),
        ensures
            final(self)@.wf(),
            final(self)@ == (GameModel {
                board: old(self)@.board.marked(x as int, y as int),
                ..old(self)@
            }),
    {
        if x >= 0 && y >= 0 {
            self.board.mark_cell(x as usize, y as usize);
        }
    }

    /// Whether the board is won.
    pub fn check_win_condition(&self) -> (r: bool)
        requires
            self@.wf(),
        ensures
            r == self@.board.won(),
    {
        self.board.check_win_condition()
    }

    /// Takes in one event of the terminal. The result is the status to end
    /// the program with, where the player has interrupted it.
    pub fn handle_event(&mut self, event: InputEvent, debug_build: bool) -> (exit: Option<i32>)
        requires
            old(self)@.wf(),
        ensures
            final(self)@.wf(),
            final(self)@ == old(self)@.after_event(event, debug_build),
            exit == if event matches InputEvent::Key { code, control } && control && code
                == KeyInput::Char('c') {
                Some(INTERRUPT_STATUS)
            } else {
                None
            },
    {
        match event {
            InputEvent::Key { code, control } => {
                match code {
                    KeyInput::F(1) => {
                        self.state = GameState::Rules;
                        self.pause = true;
                    },
                    KeyInput::F(10) | KeyInput::Char('q') => {
                        if self.state != GameState::Rules {
                            self.state = GameState::GiveUp;
                        }
                    },
                    KeyInput::F(12) => {
                        if debug_build {
                            self.debug_mode = !self.debug_mode;
                            self.update = true;
                        }
                    },
                    KeyInput::Char('e') => {
                        self.state = GameState::Running;
                        self.pause = false;
                        self.update = true;
                    },
                    KeyInput::Char('p') => {
                        self.pause = !self.pause;
                        if !self.pause {
                            self.update = true;
                        }
                    },
                    KeyInput::Char('s') => {
                        if self.state == GameState::Loose || self.state == GameState::Win {
                            self.state = GameState::Start;
                        }
                    },
                    _ => {},
                }
                if control && code == KeyInput::Char('c') {
                    return Some(INTERRUPT_STATUS);
                }
            },
            InputEvent::Mouse { kind, column, row } => {
                let board_x = self.board_pos.get_x();
                let board_y = self.board_pos.get_y();
                let on_board = column >= board_x && row >= board_y;
                match kind {
                    MouseInput::LeftDown => {
                        if on_board {
                            if self.board.pick_cell(
                                (column - board_x) as usize,
                                (row - board_y) as usize,
                            ) {
                                self.state = GameState::Loose;
                                self.pause = true;
                            }
                        } else {
                            proof {
                                lemma_pick_refused(
                                    self@.board,
                                    column - board_x,
                                    row - board_y,
                                );
                            }
                        }
                        self.update = true;
                    },
                    MouseInput::RightDown => {
                        if on_board {
                            self.board.mark_cell(
                                (column - board_x) as usize,
                                (row - board_y) as usize,
                            );
                        }
                        self.update = true;
                    },
                    MouseInput::Other => {},
                }
            },
            InputEvent::FocusLost => {
                self.pause = true;
            },
            InputEvent::FocusGained => {
                self.pause = false;
            },
            InputEvent::Other => {},
        }
        None
    }

    /// Looks for the win: a running game whose board is won becomes a won
    /// game and stands still.
    pub fn settle_win(&mut self)
        requires
            old(self)@.wf(),
        ensures
            final(self)@ == old(self)@.after_win_check(),
    {
        if self.board.check_win_condition() && self.state == GameState::Running {
            self.state = GameState::Win;
            self.pause = true;
        }
    }

    /// Moves the clock on by a second where the game is not paused and a
    /// second has gone by since the clock last moved, and says whether it
    /// did.
    pub fn tick(&mut self, elapsed_millis: u128) -> (moved: bool)
        requires
            old(self)@.seconds < u64::MAX,
        ensures
            moved == (!old(self)@.pause && elapsed_millis >= 1000),
            final(self)@ == (GameModel {
                seconds: if moved {
                    (old(self)@.seconds + 1) as u64
                } else {
                    old(self)@.seconds
                },
                ..old(self)@
            }),
    {
        if !self.pause && elapsed_millis >= 1_000 {
            self.seconds += 1;
            return true;
        }
        false
    }

    /// Starts the next game: the clock at zero, a fresh board, the game
    /// running, the screen to be drawn again.
    pub fn restart(&mut self)
        requires
            old(self)@.wf(),
        ensures
            final(self)@.wf(),
            final(self)@.board.fresh(),
            final(self)@.board.same_frame(old(self)@.board),
            final(self)@ == (GameModel {
                board: final(self)@.board,
                pause: false,
                state: GameState::Running,
                seconds: 0,
                update: true,
                ..old(self)@
            }),
    {
        self.pause = false;
        self.state = GameState::Running;
        self.seconds = 0;
        self.reset_board();
        self.update = true;
    }
}

} // verus!
