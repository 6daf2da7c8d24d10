//! What the engine asks of a terminal. The engine never touches a terminal
//! itself: it queues commands, and whoever drives it takes them from the
//! queue and carries them out. The same type holds the latest-key slot that
//! the frame loop samples once per frame.

use vstd::prelude::*;
use crate::color::Color;
use crate::input::KeyCode;
use crate::input::sampled;

verus! {

/// One thing to do with the terminal.
#[derive(Debug, PartialEq, Eq)]
pub enum TerminalCommand {
    /// Switch the terminal to raw input.
    EnableRawMode,
    /// Switch the terminal back from raw input.
    DisableRawMode,
    HideCursor,
    ShowCursor,
    /// Clear the whole screen.
    ClearScreen,
    /// Put the cursor at a column and row.
    MoveCursor { col: u16, row: u16 },
    /// Put one glyph in a color at a column and row.
    WriteGlyph { col: u16, row: u16, glyph: char, color: Color },
    /// Replace a whole row by a text in a color, starting at column 0.
    WriteLine { row: u16, text: String, color: Color },
    /// Send what was written so far to the screen.
    Flush,
}

/// A terminal command as a mathematical value.
pub enum CommandView {
    EnableRawMode,
    DisableRawMode,
    HideCursor,
    ShowCursor,
    ClearScreen,
    MoveCursor { col: u16, row: u16 },
    WriteGlyph { col: u16, row: u16, glyph: char, color: Color },
    WriteLine { row: u16, text: Seq<char>, color: Color },
    Flush,
}

impl View for TerminalCommand {
    type V = CommandView;

    open spec fn view(&self) -> CommandView {
        match *self {
            TerminalCommand::EnableRawMode => CommandView::EnableRawMode,
            TerminalCommand::DisableRawMode => CommandView::DisableRawMode,
            TerminalCommand::HideCursor => CommandView::HideCursor,
            TerminalCommand::ShowCursor => CommandView::ShowCursor,
            TerminalCommand::ClearScreen => CommandView::ClearScreen,
            TerminalCommand::MoveCursor { col, row } => CommandView::MoveCursor { col, row },
            TerminalCommand::WriteGlyph { col, row, glyph, color } => CommandView::WriteGlyph {
                col,
                row,
                glyph,
                color,
            },
            TerminalCommand::WriteLine { row, text, color } => CommandView::WriteLine {
                row,
                text: text@,
                color,
            },
            TerminalCommand::Flush => CommandView::Flush,
        }
    }
}

/// Where a terminal stands between the start and the end of a run.
#[derive(Clone, Copy, Debug, PartialEq, Eq, Structural)]
pub enum TerminalState {
    /// Nothing was done to the terminal yet.
    Uninitialized,
    /// Raw input is on.
    RawMode,
    /// Raw input is on, the cursor is hidden and the screen was cleared.
    Running,
    /// The terminal was given back as it was found.
    Restored,
}

/// The commands that take a terminal into raw mode.
pub open spec fn raw_mode_commands() -> Seq<CommandView> {
    seq![CommandView::EnableRawMode]
}

/// The commands that make a terminal in raw mode ready for the first frame.
pub open spec fn start_commands() -> Seq<CommandView> {
    seq![CommandView::HideCursor, CommandView::ClearScreen]
}

/// The commands that give a terminal back as it was found.
pub open spec fn restore_commands() -> Seq<CommandView> {
    seq![
        CommandView::ClearScreen,
        CommandView::MoveCursor { col: 0, row: 0 },
        CommandView::ShowCursor,
        CommandView::DisableRawMode,
    ]
}

/// The command that puts one glyph on the terminal.
pub open spec fn glyph_command(position: (u16, u16), character: char, color: Color) -> CommandView {
    CommandView::WriteGlyph { col: position.0, row: position.1, glyph: character, color }
}

/// The command that shows a line of diagnostics.
pub open spec fn debug_command(line: u16, text: Seq<char>) -> CommandView {
    CommandView::WriteLine { row: line, text, color: Color::Red }
}

/// The interface as a mathematical value.
#[verifier::ext_equal]
pub struct UIView {
    /// The key that behaviors see in this frame, if there is one.
    pub current_input: Option<KeyCode>,
    /// The last key that ever arrived.
    pub last_input: Option<KeyCode>,
    /// Where the terminal stands.
    pub state: TerminalState,
    /// The commands that wait to be carried out, oldest first.
    pub queued: Seq<CommandView>,
}

impl UIView {
    /// The interface of a run that has not begun.
    pub open spec fn initial() -> UIView {
        UIView {
            current_input: None,
            last_input: None,
            state: TerminalState::Uninitialized,
            queued: Seq::empty(),
        }
    }

    /// The interface with more commands in its queue.
    pub open spec fn queue(self, commands: Seq<CommandView>) -> UIView {
        UIView { queued: self.queued + commands, ..self }
    }

    /// The interface once the input source was sampled.
    pub open spec fn sampled(self, polled: Option<KeyCode>) -> UIView {
        UIView {
            current_input: sampled(self.current_input, polled),
            last_input: sampled(self.last_input, polled),
            ..self
        }
    }

    /// The interface once the current key was taken away.
    pub open spec fn input_cleared(self) -> UIView {
        UIView { current_input: None, ..self }
    }

    /// The interface once raw mode was asked for.
    pub open spec fn raw_mode_entered(self) -> UIView {
        if self.state == TerminalState::Uninitialized {
            UIView { state: TerminalState::RawMode, ..self.queue(raw_mode_commands()) }
        } else {
            self
        }
    }

    /// The interface once the terminal was made ready for the first frame.
    pub open spec fn started(self) -> UIView {
        if self.state == TerminalState::RawMode {
            UIView { state: TerminalState::Running, ..self.queue(start_commands()) }
        } else {
            self
        }
    }

    /// The interface once the terminal was given back.
    pub open spec fn restored(self) -> UIView {
        if self.state == TerminalState::RawMode || self.state == TerminalState::Running {
            UIView { state: TerminalState::Restored, ..self.queue(restore_commands()) }
        } else {
            self
        }
    }

    /// What may have become of the interface while entities were updated:
    /// the queue has only grown at its end, the current key is as it was or
    /// was cleared, and nothing else has changed.
    pub open spec fn used(self, later: UIView) -> bool {
        &&& self.queued.is_prefix_of(later.queued)
        &&& later.current_input == self.current_input || later.current_input is None
        &&& later.last_input == self.last_input
        &&& later.state == self.state
    }
}

/// The terminal as the engine sees it: the latest-key slot and the queue of
/// commands that wait to be carried out.
pub struct UI {
    current_input: Option<KeyCode>,
    last_input: Option<KeyCode>,
    state: TerminalState,
    queued: Vec<TerminalCommand>,
}

impl View for UI {
    type V = UIView;

    closed spec fn view(&self) -> UIView {
        UIView {
            current_input: self.current_input,
            last_input: self.last_input,
            state: self.state,
            queued: self.queued@.map_values(|c: TerminalCommand| c@),
        }
    }
}

impl UI {
    /// An interface with no key, an empty queue and an untouched terminal.
    pub fn new() -> (ui: UI)
        ensures
            ui@ == UIView::initial(),
    {
        let ui = UI {
            current_input: None,
            last_input: None,
            state: TerminalState::Uninitialized,
            queued: Vec::new(),
        };
        assert(ui@ =~~= UIView::initial());
        ui
    }

    /// The key that behaviors see in this frame, if there is one.
    pub fn current_input(&self) -> (key: Option<KeyCode>)
        ensures
            key == self@.current_input,
    {
        self.current_input
    }

    /// The last key that ever arrived.
    pub fn last_input(&self) -> (key: Option<KeyCode>)
        ensures
            key == self@.last_input,
    {
        self.last_input
    }

    /// Where the terminal stands.
    pub fn state(&self) -> (state: TerminalState)
        ensures
            state == self@.state,
    {
        self.state
    }

    /// The number of commands that wait to be carried out.
    pub fn queued_len(&self) -> (n: usize)
        ensures
            n == self@.queued.len(),
    {
        self.queued.len()
    }

    fn push_command(&mut self, command: TerminalCommand)
        ensures
            final(self)@ == old(self)@.queue(seq![command@]),
    {
        self.queued.push(command);
        assert(self@ =~~= old(self)@.queue(seq![command@]));
    }

    /// Queues the drawing of one glyph at a column and row.
    pub fn terminal_draw(&mut self, position: (u16, u16), character: char, color: Color)
        ensures
            final(self)@ == old(self)@.queue(seq![glyph_command(position, character, color)]),
    {
        self.push_command(
            TerminalCommand::WriteGlyph { col: position.0, row: position.1, glyph: character, color },
        );
    }

    /// Queues a line of diagnostics: row `line` is replaced by `text`, in
    /// red.
    pub fn debug_draw(&mut self, line: u16, text: &str)
        ensures
            final(self)@ == old(self)@.queue(seq![debug_command(line, text@)]),
    {
        self.push_command(TerminalCommand::WriteLine { row: line, text: text.to_owned(), color: Color::Red });
    }

    /// Queues a flush of what was written so far.
    pub fn flush(&mut self)
        ensures
            final(self)@ == old(self)@.queue(seq![CommandView::Flush]),
    {
        self.push_command(TerminalCommand::Flush);
    }

    /// Samples the input source. `polled` is the key that arrived since the
    /// last sample, if one did: it becomes both the current and the last
    /// key. Without a new key both stay as they are.
    pub fn update_input(&mut self, polled: Option<KeyCode>)
        ensures
            final(self)@ == old(self)@.sampled(polled),
    {
        self.current_input = match polled {
            Some(k) => {
                self.last_input = Some(k);
                Some(k)
            },
            None => self.current_input,
        };
    }

    /// Takes the current key away, so that it is seen no more.
    pub fn clear_input(&mut self)
        ensures
            final(self)@ == old(self)@.input_cleared(),
    {
        self.current_input = None;
    }

    /// Asks for raw input, if nothing was done to the terminal yet.
    pub fn enter_raw_mode(&mut self)
        ensures
            final(self)@ == old(self)@.raw_mode_entered(),
    {
        if self.state == TerminalState::Uninitialized {
            self.push_command(TerminalCommand::EnableRawMode);
            self.state = TerminalState::RawMode;
        }
    }

    /// Makes a terminal in raw mode ready for the first frame: the cursor
    /// is hidden and the screen cleared.
    pub fn start(&mut self)
        ensures
            final(self)@ == old(self)@.started(),
    {
        if self.state == TerminalState::RawMode {
            self.push_command(TerminalCommand::HideCursor);
            self.push_command(TerminalCommand::ClearScreen);
            self.state = TerminalState::Running;
            assert(self@ =~~= old(self)@.started());
        }
    }

    /// Gives the terminal back: the screen is cleared, the cursor goes home
    /// and is shown, raw input ends. On a terminal that was never touched or
    /// was given back already this does nothing.
    pub fn restore(&mut self)
        ensures
            final(self)@ == old(self)@.restored(),
    {
        if self.state == TerminalState::RawMode || self.state == TerminalState::Running {
            self.push_command(TerminalCommand::ClearScreen);
            self.push_command(TerminalCommand::MoveCursor { col: 0, row: 0 });
            self.push_command(TerminalCommand::ShowCursor);
            self.push_command(TerminalCommand::DisableRawMode);
            self.state = TerminalState::Restored;
            assert(self@ =~~= old(self)@.restored());
        }
    }

    /// Hands out the commands that wait, oldest first, and leaves the queue
    /// empty.
    pub fn take_commands(&mut self) -> (commands: Vec<TerminalCommand>)
        ensures
            commands@.map_values(|c: TerminalCommand| c@) == old(self)@.queued,
            final(self)@ == (UIView { queued: Seq::empty(), ..old(self)@ }),
    {
        let mut commands: Vec<TerminalCommand> = Vec::new();
        core::mem::swap(&mut commands, &mut self.queued);
        assert(self@ =~~= (UIView { queued: Seq::empty(), ..old(self)@ }));
        commands
    }
}

} // verus!
