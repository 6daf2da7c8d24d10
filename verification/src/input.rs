//! Key codes and the latest-key slot that the frame loop samples.

use vstd::prelude::*;

verus! {

/// A media key.
#[derive(Clone, Copy, Debug, PartialEq, Eq, Structural, Hash)]
pub enum MediaKeyCode {
    Play,
    Pause,
    PlayPause,
    Reverse,
    Stop,
    FastForward,
    Rewind,
    TrackNext,
    TrackPrevious,
    Record,
    LowerVolume,
    RaiseVolume,
    MuteVolume,
}

/// A modifier key pressed on its own.
#[derive(Clone, Copy, Debug, PartialEq, Eq, Structural, Hash)]
pub enum ModifierKeyCode {
    LeftShift,
    LeftControl,
    LeftAlt,
    LeftSuper,
    LeftHyper,
    LeftMeta,
    RightShift,
    RightControl,
    RightAlt,
    RightSuper,
    RightHyper,
    RightMeta,
    IsoLevel3Shift,
    IsoLevel5Shift,
}

/// The key of a keyboard event.
#[derive(Clone, Copy, Debug, PartialEq, Eq, Structural, Hash)]
pub enum KeyCode {
    Backspace,
    Enter,
    Left,
    Right,
    Up,
    Down,
    Home,
    End,
    PageUp,
    PageDown,
    Tab,
    BackTab,
    Delete,
    Insert,
    /// A function key: `F(1)` is F1.
    F(u8),
    /// A character key.
    Char(char),
    Null,
    Esc,
    CapsLock,
    ScrollLock,
    NumLock,
    PrintScreen,
    Pause,
    Menu,
    KeypadBegin,
    Media(MediaKeyCode),
    Modifier(ModifierKeyCode),
}

/// What happens to the current key once a frame has been updated.
#[derive(Clone, Copy, Debug, PartialEq, Eq, Structural, Hash)]
pub enum InputPolicy {
    /// The current key is forgotten at the end of every frame, so a
    /// behavior sees each key press in one frame only.
    ClearEachFrame,
    /// The current key stays until a newer key arrives or a behavior
    /// clears it.
    Persist,
}

/// The key that ends the game loop.
pub open spec fn spec_quit_key() -> KeyCode {
    KeyCode::Char('q')
}

/// The key that ends the game loop.
#[verifier::when_used_as_spec(spec_quit_key)]
pub fn quit_key() -> (k: KeyCode)
    ensures
        k == spec_quit_key(),
{
    KeyCode::Char('q')
}

/// What a key slot holds once the input source was sampled: a newly arrived
/// key takes the place of what was there, and without one the slot stays as
/// it is.
pub open spec fn sampled(held: Option<KeyCode>, polled: Option<KeyCode>) -> Option<KeyCode> {
    match polled {
        Some(k) => Some(k),
        None => held,
    }
}

/// Whether a current key asks the loop to end.
pub open spec fn spec_is_quit(current: Option<KeyCode>) -> bool {
    current == Some(spec_quit_key())
}

/// Whether a current key asks the loop to end.
#[verifier::when_used_as_spec(spec_is_quit)]
pub fn is_quit(current: Option<KeyCode>) -> (quit: bool)
    ensures
        quit == spec_is_quit(current),
{
    match current {
        Some(k) => k == quit_key(),
        None => false,
    }
}

} // verus!
