//! The Win32 flavour of the protocol: virtual-key codes, thread input
//! queues, and the foreground window.
//!
//! A chord is sent in three movements. The top-level window of the process is
//! found and brought to the foreground; every character of the chord is
//! translated by the keyboard layout; then the press events of all keys,
//! followed by the release events of all keys, are injected as one batch.
//! A failure in a movement ends the sending before the next begins, so no part
//! of a chord is ever injected alone.

use crate::win32::activation::advance;
use crate::win32::activation::outlook;
use crate::win32::activation::seeking;
use crate::win32::activation::Activation;
use crate::win32::activation::Protocol;
use crate::win32::keyboard::code_unit;
use crate::win32::keyboard::input_events;
use crate::win32::keyboard::make_input;
use crate::win32::keyboard::utf16_unit;
use crate::win32::keyboard::InputEvent;
use crate::win32::keyboard::KeyboardLayout;
use crate::win32::keyboard::Phase;
use crate::win32::platform::scan_in;
use crate::win32::platform::Reply;
use crate::win32::platform::Request;
use crate::win32::platform::Step;
use crate::win32::window::activate_top_level_window;
use crate::win32::window::ActivationOutcome;
use crate::win32::window::MAX_TRIES;
use crate::Key;
use vstd::prelude::*;

pub mod activation;
pub mod activation_laws;
pub mod chord_laws;
pub mod keyboard;
pub mod platform;
pub mod sequence_laws;
pub mod window;

verus! {

/// Why a chord was not sent.
#[derive(Clone, Copy, Debug, PartialEq, Eq, Structural)]
#[allow(inconsistent_fields)]
pub enum Error {
    /// The window of the process could not be given the keyboard focus.
    Window { source: window::Error },
    /// A key of the chord has no virtual-key code.
    Keyboard { source: keyboard::Error },
}

/// The state of a chord on its way, as mathematics.
pub struct Delivery {
    /// The chord: its keys in the order in which they are pressed.
    pub keys: Seq<Key>,
    /// The activation of the window the chord is for.
    pub activation: Protocol,
    /// What the keyboard layout has answered so far.
    pub layout: Map<u16, i16>,
    /// Whether the batch was handed to the desktop.
    pub submitted: bool,
}

/// What the sending of a chord wants next, as mathematics.
pub enum Demand {
    /// An operation on the desktop other than the injection of input.
    Perform(Request),
    /// The injection of these input events as one batch.
    Submit(Seq<InputEvent>),
    /// Nothing more: the sending has ended with this result.
    Finished(Result<(), Error>),
}

/// The sending of a chord to the window of a process, at its start.
pub open spec fn dispatching(keys: Seq<Key>, process_id: u32) -> Delivery {
    Delivery {
        keys,
        activation: seeking(process_id, MAX_TRIES),
        layout: Map::empty(),
        submitted: false,
    }
}

/// The batch of a chord: the press events of all its keys, then the release
/// events of all its keys; or the error of the first key without a
/// virtual-key code.
pub open spec fn chord_batch(keys: Seq<Key>, layout: Map<u16, i16>) -> Result<
    Seq<InputEvent>,
    keyboard::Error,
> {
    match input_events(keys, Phase::Press, layout) {
        Err(error) => Err(error),
        Ok(press) => match input_events(keys, Phase::Release, layout) {
            Err(error) => Err(error),
            Ok(release) => Ok(press + release),
        },
    }
}

/// The code unit of a character, if the layout was never asked about it.
pub open spec fn unasked(character: char, layout: Map<u16, i16>) -> Option<u16> {
    match utf16_unit(character) {
        Some(unit) => if layout.dom().contains(unit) {
            None
        } else {
            Some(unit)
        },
        None => None,
    }
}

/// What a chord wants once its window is in the foreground. A chord whose
/// keys all have codes is injected. Where the first key without a code is a
/// character that the layout was never asked about, the layout is asked;
/// where it is any other, the chord fails.
pub open spec fn chord_demand(keys: Seq<Key>, layout: Map<u16, i16>) -> Demand {
    match chord_batch(keys, layout) {
        Ok(batch) => Demand::Submit(batch),
        Err(keyboard::Error::UnmappableCharacter(character)) => match unasked(character, layout) {
            Some(unit) => Demand::Perform(Request::Translate(unit)),
            None => Demand::Finished(
                Err(Error::Keyboard { source: keyboard::Error::UnmappableCharacter(character) }),
            ),
        },
    }
}

/// What the sending of a chord wants next in a given state: what the
/// activation wants, while it is under way; nothing, if it failed, or once
/// the batch is handed over; else what the chord wants.
pub open spec fn demand(d: Delivery) -> Demand {
    match outlook(d.activation) {
        Step::Perform(request) => Demand::Perform(request),
        Step::Finished(ActivationOutcome::Failed(error)) => Demand::Finished(
            Err(Error::Window { source: error }),
        ),
        Step::Finished(_) => if d.submitted {
            Demand::Finished(Ok(()))
        } else {
            chord_demand(d.keys, d.layout)
        },
    }
}

/// The state after the desktop's reply to the request under way. A sending
/// that has ended stays as it is.
pub open spec fn deliver(d: Delivery, reply: Reply) -> Delivery {
    match outlook(d.activation) {
        Step::Perform(_) => Delivery { activation: advance(d.activation, reply), ..d },
        Step::Finished(_) => match demand(d) {
            Demand::Perform(Request::Translate(unit)) => Delivery {
                layout: d.layout.insert(unit, scan_in(reply)),
                ..d
            },
            Demand::Submit(_) => Delivery { submitted: true, ..d },
            _ => d,
        },
    }
}

/// The state after the replies were taken, one after the other.
pub open spec fn course(start: Delivery, replies: Seq<Reply>) -> Delivery
    decreases replies.len(),
{
    if replies.len() == 0 {
        start
    } else {
        deliver(course(start, replies.drop_last()), replies.last())
    }
}

/// What a step of the sending asks for, as mathematics.
pub open spec fn demand_in(step: Step<Result<(), Error>>) -> Demand {
    match step {
        Step::Perform(Request::Submit(events)) => Demand::Submit(events@),
        Step::Perform(request) => Demand::Perform(request),
        Step::Finished(result) => Demand::Finished(result),
    }
}

/// Builds the batch of a chord: the press events of all keys, followed by the
/// release events of all keys.
pub fn make_batch(keys: &[Key], layout: &KeyboardLayout) -> (batch: Result<
    Vec<InputEvent>,
    keyboard::Error,
>)
    ensures
        match batch {
            Ok(events) => chord_batch(keys@, layout@) == Ok::<Seq<InputEvent>, keyboard::Error>(
                events@,
            ),
            Err(error) => chord_batch(keys@, layout@) == Err::<Seq<InputEvent>, keyboard::Error>(
                error,
            ),
        },
        batch matches Ok(events) ==> events@.len() == 2 * keys@.len(),
{
    let mut press = make_input(keys, Phase::Press, layout)?;
    let mut release = make_input(keys, Phase::Release, layout)?;
    press.append(&mut release);
    Ok(press)
}

/// A chord on its way to the window of a process.
#[derive(Clone, Debug)]
pub struct ChordSender {
    keys: Vec<Key>,
    activation: Activation,
    layout: KeyboardLayout,
    submitted: bool,
}

impl View for ChordSender {
    type V = Delivery;

    closed spec fn view(&self) -> Delivery {
        Delivery {
            keys: self.keys@,
            activation: self.activation@,
            layout: self.layout@,
            submitted: self.submitted,
        }
    }
}

impl ChordSender {
    /// The activation of the window the chord is for.
    pub fn activation(&self) -> (activation: &Activation)
        ensures
            activation@ == self@.activation,
    {
        &self.activation
    }

    /// What the chord wants, now that its window is in the foreground.
    fn chord(&self) -> (step: Step<Result<(), Error>>)
        ensures
            demand_in(step) == chord_demand(self@.keys, self@.layout),
    {
        match make_batch(self.keys.as_slice(), &self.layout) {
            Ok(batch) => Step::Perform(Request::Submit(batch)),
            Err(keyboard::Error::UnmappableCharacter(character)) => {
                let missing = match code_unit(character) {
                    Some(unit) => match self.layout.scan(unit) {
                        Some(_) => None,
                        None => Some(unit),
                    },
                    None => None,
                };
                match missing {
                    Some(unit) => Step::Perform(Request::Translate(unit)),
                    None => Step::Finished(
                        Err(
                            Error::Keyboard {
                                source: keyboard::Error::UnmappableCharacter(character),
                            },
                        ),
                    ),
                }
            },
        }
    }

    /// What the sending wants next: the request to perform, or its result.
    pub fn pending(&self) -> (step: Step<Result<(), Error>>)
        ensures
            demand_in(step) == demand(self@),
    {
        match self.activation.pending() {
            Step::Perform(request) => Step::Perform(request),
            Step::Finished(ActivationOutcome::Failed(error)) => Step::Finished(
                Err(Error::Window { source: error }),
            ),
            Step::Finished(_) => {
                if self.submitted {
                    Step::Finished(Ok(()))
                } else {
                    self.chord()
                }
            },
        }
    }

    /// Takes the desktop's reply to the request under way, and says what the
    /// sending wants next.
    pub fn advance(&mut self, reply: &Reply) -> (step: Step<Result<(), Error>>)
        ensures
            final(self)@ == deliver(old(self)@, *reply),
            demand_in(step) == demand(final(self)@),
    {
        match self.pending() {
            Step::Perform(Request::Translate(unit)) => {
                self.layout.record(unit, reply.scan());
            },
            Step::Perform(Request::Submit(_)) => {
                self.submitted = true;
            },
            Step::Perform(_) => {
                self.activation.advance(reply);
            },
            Step::Finished(_) => {},
        }
        self.pending()
    }

    /// Takes a sequence of replies, one after the other: the reply to the
    /// request under way, then the reply to the request that follows from it,
    /// and so on. Replies that come after the end are passed over.
    pub fn replay(&mut self, replies: &[Reply]) -> (step: Step<Result<(), Error>>)
        ensures
            final(self)@ == course(old(self)@, replies@),
            demand_in(step) == demand(final(self)@),
    {
        let mut taken: usize = 0;
        while taken < replies.len()
            invariant
                taken <= replies@.len(),
                self@ == course(old(self)@, replies@.take(taken as int)),
            decreases replies@.len() - taken,
        {
            proof {
                let longer = replies@.take(taken + 1);
                assert(longer.drop_last() =~= replies@.take(taken as int));
                assert(longer.last() == replies@[taken as int]);
            }
            self.advance(&replies[taken]);
            taken += 1;
        }
        proof {
            assert(replies@.take(taken as int) =~= replies@);
        }
        self.pending()
    }
}

impl From<window::Error> for Error {
    fn from(source: window::Error) -> (error: Self) {
        Error::Window { source }
    }
}

impl vstd::std_specs::convert::FromSpecImpl<window::Error> for Error {
    open spec fn obeys_from_spec() -> bool {
        true
    }

    open spec fn from_spec(source: window::Error) -> Self {
        Error::Window { source }
    }
}

impl From<keyboard::Error> for Error {
    fn from(source: keyboard::Error) -> (error: Self) {
        Error::Keyboard { source }
    }
}

impl vstd::std_specs::convert::FromSpecImpl<keyboard::Error> for Error {
    open spec fn obeys_from_spec() -> bool {
        true
    }

    open spec fn from_spec(source: keyboard::Error) -> Self {
        Error::Keyboard { source }
    }
}

/// The keyboard backend for Win32 desktops.
#[derive(Debug)]
pub struct Innerput;

impl Default for Innerput {
    fn default() -> (backend: Self)
        ensures
            backend == Innerput,
    {
        Innerput {  }
    }
}

impl crate::Keyboard<Error> for Innerput {
    type Sender = ChordSender;

    /// Begins to send a key chord to the window of a process: nothing is
    /// known of the layout yet, nothing is handed over, and the windows are
    /// about to be listed.
    fn send_chord(&self, keys: &[Key], process_id: u32) -> (sender: ChordSender)
        ensures
            sender@ == dispatching(keys@, process_id),
    {
        ChordSender {
            keys: vstd::slice::slice_to_vec(keys),
            activation: activate_top_level_window(process_id),
            layout: KeyboardLayout::new(),
            submitted: false,
        }
    }

    fn pending(&self, sender: &ChordSender) -> (step: Step<Result<(), Error>>)
        ensures
            demand_in(step) == demand(sender@),
    {
        sender.pending()
    }

    fn advance(&self, sender: &mut ChordSender, reply: &Reply) -> (step: Step<Result<(), Error>>)
        ensures
            final(sender)@ == deliver(old(sender)@, *reply),
            demand_in(step) == demand(final(sender)@),
    {
        sender.advance(reply)
    }
}

impl Innerput {
    pub fn new() -> (backend: Self)
        ensures
            backend == Innerput,
    {
        Innerput {  }
    }
}

} // verus!
