//! Delivery of a key chord to the top-level window of another process.
//!
//! The crate decides; it performs nothing. Every operation on the desktop is
//! handed to the caller as a [`win32::platform::Request`], and what the
//! desktop answered comes back as a [`win32::platform::Reply`]. Between the
//! two stand state machines whose transitions are verified against a
//! mathematical model of the protocol, and of that model the laws of the
//! protocol are proved: that every input queue that was joined is parted
//! again, that a hung window is never forced to the foreground, that a chord
//! is injected whole or not at all.
//!
//! A caller begins a sending with [`Keyboard::send_chord`], and then, for as
//! long as [`win32::ChordSender::pending`] is a request, performs it and hands
//! the reply to [`win32::ChordSender::advance`].

use crate::win32::platform::Reply;
use crate::win32::platform::Step;
use vstd::prelude::*;

mod private;
pub mod win32;

pub use win32::Innerput;

verus! {

/// A key of a chord: a named control key, or a literal character.
#[derive(Clone, Copy, Debug, PartialEq, Eq, Structural)]
pub enum Key {
    Alt,
    Backspace,
    CapsLock,
    Control,
    Delete,
    Down,
    End,
    Esc,
    Home,
    Left,
    Enter,
    Right,
    Shift,
    Space,
    Tab,
    Up,
    Char(char),
    Super,
    F1,
    F2,
    F3,
    F4,
    F5,
    F6,
    F7,
    F8,
    F9,
    F10,
    F11,
    F12,
}

/// A keyboard backend: it sends key chords to the window of a process, one
/// operation on the desktop at a time, and ends each sending with success or
/// with an error of its own kind.
pub trait Keyboard<ErrorType>: private::Sealed {
    /// A chord on its way.
    type Sender;

    /// Begins to send a key chord to the top-level window of a process. All
    /// the keys are pressed before any is released.
    fn send_chord(&self, keys: &[Key], process_id: u32) -> Self::Sender;

    /// What a sending wants next: an operation performed, or nothing more.
    fn pending(&self, sender: &Self::Sender) -> Step<Result<(), ErrorType>>;

    /// Hands a sending the desktop's reply to the operation it asked for, and
    /// says what it wants next.
    fn advance(&self, sender: &mut Self::Sender, reply: &Reply) -> Step<Result<(), ErrorType>>;
}

} // verus!
