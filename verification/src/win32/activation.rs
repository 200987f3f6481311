//! Bringing a window to the foreground: the protocol as a mathematical model,
//! and the state machine that follows it.
//!
//! The desktop resists a process that takes the keyboard focus for a window
//! that is not its own. The protocol joins the caller's input queue to that of
//! the thread that has the focus, and that thread's queue to the target's,
//! asks for the foreground a bounded number of times, and parts every queue it
//! joined before it ends, however it ends.

use crate::win32::platform::attached_in;
use crate::win32::platform::thread_in;
use crate::win32::platform::window_in;
use crate::win32::platform::windows_in;
use crate::win32::platform::Reply;
use crate::win32::platform::Request;
use crate::win32::platform::Step;
use crate::win32::window::get_top_level_window;
use crate::win32::window::top_level_window;
use crate::win32::window::ActivationOutcome;
use crate::win32::window::AttachmentGuard;
use crate::win32::window::Error;
use crate::win32::window::Window;
use vstd::prelude::*;

verus! {

/// Milliseconds the desktop is given to settle after it was asked for the
/// foreground.
pub const SLEEP_DURATION: u64 = 10;

/// Why the foreground window is being read.
#[derive(Clone, Copy, Debug, PartialEq, Eq, Structural)]
pub enum Purpose {
    /// To learn whether the target has the focus already.
    Entry,
    /// To learn whether an attempt took effect.
    Attempt,
    /// To learn, after a failure, whether the window that had the focus at
    /// the start still has it.
    Exit(Error),
}

/// Where the protocol stands: the request that is under way.
#[derive(Clone, Copy, Debug, PartialEq, Eq, Structural)]
pub enum Stage {
    /// The top-level windows are being listed.
    Enumerating,
    /// The foreground window is being read.
    ReadingForeground(Purpose),
    /// There was no foreground window; the taskbar is looked up in its place.
    ReadingTaskbar(Purpose),
    /// The target is being observed, before any input queue is touched.
    ObservingTarget,
    /// The calling thread is being identified.
    IdentifyingThread,
    /// The caller's input queue is being joined to the foreground thread's.
    JoiningForeground,
    /// The foreground thread's input queue is being joined to the target's.
    JoiningTarget,
    /// The minimized target is being restored.
    Restoring,
    /// The desktop is being asked to put the target in the foreground.
    Asserting,
    /// The desktop is given time to settle.
    Settling,
    /// The queues of this guard are being parted; the outcome is decided.
    Detaching(AttachmentGuard, ActivationOutcome),
    /// The window that had the focus at the start is being given it back.
    RestoringOriginal(Error),
    /// The protocol has ended.
    Finished(ActivationOutcome),
}

/// The state of the protocol, as mathematics.
pub struct Protocol {
    /// The process whose window is sought.
    pub process_id: u32,
    /// How many times the desktop may be asked for the foreground.
    pub max_tries: i32,
    pub stage: Stage,
    /// The window to activate, as last observed.
    pub target: Window,
    /// The window that had the focus when the protocol read it first.
    pub original: Window,
    /// The window that had the focus when it was last read, if any had.
    pub previous: Option<usize>,
    /// The thread that runs the protocol.
    pub current_thread: u32,
    /// The joins in effect, in the order in which they were made.
    pub guards: Seq<AttachmentGuard>,
    /// How many times the desktop was asked for the foreground.
    pub tries: i32,
}

/// A window of which nothing is known.
pub open spec fn blank_window() -> Window {
    Window {
        handle: 0,
        process_id: 0,
        thread_id: 0,
        visible: false,
        minimized: false,
        hung: false,
        owner: None,
    }
}

/// The protocol at its start, when the window of a process is yet to be
/// found.
pub open spec fn seeking(process_id: u32, max_tries: i32) -> Protocol {
    Protocol {
        process_id,
        max_tries,
        stage: Stage::Enumerating,
        target: blank_window(),
        original: blank_window(),
        previous: None,
        current_thread: 0,
        guards: Seq::empty(),
        tries: 0,
    }
}

/// The protocol at its start, when the window to activate is known.
pub open spec fn engaging(target: Window, max_tries: i32) -> Protocol {
    Protocol {
        process_id: target.process_id,
        max_tries,
        stage: Stage::ReadingForeground(Purpose::Entry),
        target,
        original: blank_window(),
        previous: None,
        current_thread: 0,
        guards: Seq::empty(),
        tries: 0,
    }
}

/// The protocol ended with `outcome`.
pub open spec fn finished(s: Protocol, outcome: ActivationOutcome) -> Protocol {
    Protocol { stage: Stage::Finished(outcome), ..s }
}

/// Whether an attempt took effect: the window now in the foreground is the
/// target, or it is another window than before the attempt and the target
/// owns it.
pub open spec fn asserted(
    target: Window,
    previous: Option<usize>,
    sighting: Option<Window>,
) -> bool {
    match sighting {
        Some(window) => {
            ||| window.handle == target.handle
            ||| previous != Some(window.handle) && window.owner == Some(target.handle)
        },
        None => false,
    }
}

/// The identifier of a sighted window.
pub open spec fn handle_of(sighting: Option<Window>) -> Option<usize> {
    match sighting {
        Some(window) => Some(window.handle),
        None => None,
    }
}

/// With the outcome decided, part the queues that are still joined, the one
/// joined last first. With none left, a success ends the protocol; after a
/// failure the foreground window is read once more.
pub open spec fn release(s: Protocol, verdict: ActivationOutcome) -> Protocol {
    if s.guards.len() > 0 {
        Protocol {
            guards: s.guards.drop_last(),
            stage: Stage::Detaching(s.guards.last(), verdict),
            ..s
        }
    } else {
        match verdict {
            ActivationOutcome::Failed(error) => Protocol {
                stage: Stage::ReadingForeground(Purpose::Exit(error)),
                ..s
            },
            _ => finished(s, verdict),
        }
    }
}

/// Ask for the foreground once more, if an attempt is left; else the
/// activation has failed.
pub open spec fn attempt(s: Protocol) -> Protocol {
    if s.tries < s.max_tries {
        Protocol { tries: (s.tries + 1) as i32, stage: Stage::Asserting, ..s }
    } else {
        release(s, ActivationOutcome::Failed(Error::ForegroundAssertionFailed))
    }
}

/// The windows were listed: the first visible one of the process is the
/// target.
pub open spec fn enumerated(s: Protocol, windows: Seq<Window>) -> Protocol {
    match top_level_window(windows, s.process_id) {
        Some(window) => Protocol {
            target: window,
            stage: Stage::ReadingForeground(Purpose::Entry),
            ..s
        },
        None => finished(s, ActivationOutcome::Failed(Error::WindowNotFound(s.process_id))),
    }
}

/// The foreground window, or the taskbar in its place, was read.
///
/// At the start, a target that has the focus ends the activation at once, and
/// so does a desktop that reports neither a foreground window nor a taskbar.
/// After an attempt, the sighting decides whether the attempt took effect; a
/// desktop that reports no window then counts as an attempt without effect.
/// At the end of a failed activation, the focus is given back to the window
/// that had it at the start, unless that window is seen to have it still.
pub open spec fn sighted(s: Protocol, purpose: Purpose, sighting: Option<Window>) -> Protocol {
    match purpose {
        Purpose::Entry => match sighting {
            None => finished(s, ActivationOutcome::Failed(Error::NoForegroundWindow)),
            Some(foreground) => if foreground.handle == s.target.handle {
                finished(s, ActivationOutcome::AlreadyForeground)
            } else {
                Protocol {
                    original: foreground,
                    previous: Some(foreground.handle),
                    stage: Stage::ObservingTarget,
                    ..s
                }
            },
        },
        Purpose::Attempt => if asserted(s.target, s.previous, sighting) {
            release(s, ActivationOutcome::Activated)
        } else {
            attempt(Protocol { previous: handle_of(sighting), ..s })
        },
        Purpose::Exit(error) => if handle_of(sighting) == Some(s.original.handle) {
            finished(s, ActivationOutcome::Failed(error))
        } else {
            Protocol { stage: Stage::RestoringOriginal(error), ..s }
        },
    }
}

/// The target was observed. A hung target ends the protocol before any input
/// queue is touched; so does a target that is gone.
pub open spec fn observed(s: Protocol, sighting: Option<Window>) -> Protocol {
    match sighting {
        Some(window) => if window.handle != s.target.handle {
            finished(s, ActivationOutcome::Failed(Error::WindowNotFound(s.process_id)))
        } else if window.hung {
            finished(s, ActivationOutcome::Failed(Error::TargetHung))
        } else {
            Protocol { target: window, stage: Stage::IdentifyingThread, ..s }
        },
        None => finished(s, ActivationOutcome::Failed(Error::WindowNotFound(s.process_id))),
    }
}

/// The join of the caller's queue to the foreground thread's.
pub open spec fn foreground_join(s: Protocol) -> AttachmentGuard {
    AttachmentGuard { from: s.current_thread, to: s.original.thread_id }
}

/// The join of the foreground thread's queue to the target's.
pub open spec fn target_join(s: Protocol) -> AttachmentGuard {
    AttachmentGuard { from: s.original.thread_id, to: s.target.thread_id }
}

/// The calling thread is known. Its queue is joined to the foreground
/// thread's, unless the foreground window is hung.
pub open spec fn identified(s: Protocol, thread: u32) -> Protocol {
    Protocol {
        current_thread: thread,
        stage: if s.original.hung {
            Stage::JoiningTarget
        } else {
            Stage::JoiningForeground
        },
        ..s
    }
}

/// A join was tried: it is recorded if it was made.
pub open spec fn recorded(s: Protocol, guard: AttachmentGuard, attached: bool) -> Protocol {
    if attached {
        Protocol { guards: s.guards.push(guard), ..s }
    } else {
        s
    }
}

/// Both joins were tried. A minimized target is restored before the first
/// attempt.
pub open spec fn joined(s: Protocol) -> Protocol {
    if s.target.minimized {
        Protocol { stage: Stage::Restoring, ..s }
    } else {
        attempt(s)
    }
}

/// The state after the desktop's reply to the request under way. A reply of
/// another kind than the request calls for counts as the empty answer of the
/// right kind; a protocol that has ended stays as it is.
pub open spec fn advance(s: Protocol, reply: Reply) -> Protocol {
    match s.stage {
        Stage::Enumerating => enumerated(s, windows_in(reply)),
        Stage::ReadingForeground(purpose) => match window_in(reply) {
            Some(window) => sighted(s, purpose, Some(window)),
            None => Protocol { stage: Stage::ReadingTaskbar(purpose), ..s },
        },
        Stage::ReadingTaskbar(purpose) => sighted(s, purpose, window_in(reply)),
        Stage::ObservingTarget => observed(s, window_in(reply)),
        Stage::IdentifyingThread => identified(s, thread_in(reply)),
        Stage::JoiningForeground => Protocol {
            stage: Stage::JoiningTarget,
            ..recorded(s, foreground_join(s), attached_in(reply))
        },
        Stage::JoiningTarget => joined(recorded(s, target_join(s), attached_in(reply))),
        Stage::Restoring => attempt(s),
        Stage::Asserting => Protocol { stage: Stage::Settling, ..s },
        Stage::Settling => Protocol { stage: Stage::ReadingForeground(Purpose::Attempt), ..s },
        Stage::Detaching(_, verdict) => release(s, verdict),
        Stage::RestoringOriginal(error) => finished(s, ActivationOutcome::Failed(error)),
        Stage::Finished(_) => s,
    }
}

/// The state after the replies were taken, one after the other.
pub open spec fn run(start: Protocol, replies: Seq<Reply>) -> Protocol
    decreases replies.len(),
{
    if replies.len() == 0 {
        start
    } else {
        advance(run(start, replies.drop_last()), replies.last())
    }
}

/// What the protocol wants next in a given state.
pub open spec fn outlook(s: Protocol) -> Step<ActivationOutcome> {
    match s.stage {
        Stage::Enumerating => Step::Perform(Request::EnumerateWindows),
        Stage::ReadingForeground(_) => Step::Perform(Request::ForegroundWindow),
        Stage::ReadingTaskbar(_) => Step::Perform(Request::TaskbarWindow),
        Stage::ObservingTarget => Step::Perform(Request::ObserveWindow(s.target.handle)),
        Stage::IdentifyingThread => Step::Perform(Request::CurrentThread),
        Stage::JoiningForeground => Step::Perform(Request::Attach(foreground_join(s))),
        Stage::JoiningTarget => Step::Perform(Request::Attach(target_join(s))),
        Stage::Restoring => Step::Perform(Request::Restore(s.target.handle)),
        Stage::Asserting => Step::Perform(Request::SetForeground(s.target.handle)),
        Stage::Settling => Step::Perform(Request::Settle(SLEEP_DURATION)),
        Stage::Detaching(guard, _) => Step::Perform(Request::Detach(guard)),
        Stage::RestoringOriginal(_) => Step::Perform(Request::SetForeground(s.original.handle)),
        Stage::Finished(outcome) => Step::Finished(outcome),
    }
}

/// An activation in progress.
#[derive(Clone, Debug)]
pub struct Activation {
    process_id: u32,
    max_tries: i32,
    stage: Stage,
    target: Window,
    original: Window,
    previous: Option<usize>,
    current_thread: u32,
    guards: Vec<AttachmentGuard>,
    tries: i32,
}

impl View for Activation {
    type V = Protocol;

    closed spec fn view(&self) -> Protocol {
        Protocol {
            process_id: self.process_id,
            max_tries: self.max_tries,
            stage: self.stage,
            target: self.target,
            original: self.original,
            previous: self.previous,
            current_thread: self.current_thread,
            guards: self.guards@,
            tries: self.tries,
        }
    }
}

impl Activation {
    /// An activation that begins by looking for the window of a process.
    pub fn seek(process_id: u32, max_tries: i32) -> (activation: Self)
        ensures
            activation@ == seeking(process_id, max_tries),
    {
        Activation {
            process_id,
            max_tries,
            stage: Stage::Enumerating,
            target: Window::from_raw_handle(0),
            original: Window::from_raw_handle(0),
            previous: None,
            current_thread: 0,
            guards: Vec::new(),
            tries: 0,
        }
    }

    /// An activation of a window that is known.
    pub fn engage(target: Window, max_tries: i32) -> (activation: Self)
        ensures
            activation@ == engaging(target, max_tries),
    {
        Activation {
            process_id: target.process_id,
            max_tries,
            stage: Stage::ReadingForeground(Purpose::Entry),
            target,
            original: Window::from_raw_handle(0),
            previous: None,
            current_thread: 0,
            guards: Vec::new(),
            tries: 0,
        }
    }

    /// The window being activated, as last observed.
    pub fn target(&self) -> (target: Window)
        ensures
            target == self@.target,
    {
        self.target
    }

    /// How many times the desktop was asked for the foreground so far.
    pub fn tries(&self) -> (tries: i32)
        ensures
            tries == self@.tries,
    {
        self.tries
    }

    /// What the activation wants next: the request to perform, or its outcome.
    pub fn pending(&self) -> (step: Step<ActivationOutcome>)
        ensures
            step == outlook(self@),
    {
        match self.stage {
            Stage::Enumerating => Step::Perform(Request::EnumerateWindows),
            Stage::ReadingForeground(_) => Step::Perform(Request::ForegroundWindow),
            Stage::ReadingTaskbar(_) => Step::Perform(Request::TaskbarWindow),
            Stage::ObservingTarget => Step::Perform(Request::ObserveWindow(self.target.handle)),
            Stage::IdentifyingThread => Step::Perform(Request::CurrentThread),
            Stage::JoiningForeground => Step::Perform(
                Request::Attach(
                    AttachmentGuard { from: self.current_thread, to: self.original.thread_id() },
                ),
            ),
            Stage::JoiningTarget => Step::Perform(
                Request::Attach(
                    AttachmentGuard {
                        from: self.original.thread_id(),
                        to: self.target.thread_id(),
                    },
                ),
            ),
            Stage::Restoring => Step::Perform(Request::Restore(self.target.handle)),
            Stage::Asserting => Step::Perform(Request::SetForeground(self.target.handle)),
            Stage::Settling => Step::Perform(Request::Settle(SLEEP_DURATION)),
            Stage::Detaching(guard, _) => Step::Perform(Request::Detach(guard)),
            Stage::RestoringOriginal(_) => Step::Perform(
                Request::SetForeground(self.original.handle),
            ),
            Stage::Finished(outcome) => Step::Finished(outcome),
        }
    }

    /// With the outcome decided, parts the queues joined last, or moves on
    /// where none is joined any more.
    fn release(&mut self, verdict: ActivationOutcome)
        ensures
            final(self)@ == release(old(self)@, verdict),
    {
        match self.guards.pop() {
            Some(guard) => {
                self.stage = Stage::Detaching(guard, verdict);
            },
            None => {
                match verdict {
                    ActivationOutcome::Failed(error) => {
                        self.stage = Stage::ReadingForeground(Purpose::Exit(error));
                    },
                    _ => {
                        self.stage = Stage::Finished(verdict);
                    },
                }
            },
        }
    }

    /// Asks for the foreground once more, if an attempt is left.
    fn attempt(&mut self)
        ensures
            final(self)@ == attempt(old(self)@),
    {
        if self.tries < self.max_tries {
            self.tries = self.tries + 1;
            self.stage = Stage::Asserting;
        } else {
            self.release(ActivationOutcome::Failed(Error::ForegroundAssertionFailed));
        }
    }

    /// Takes the window that has the focus: the foreground window, or the
    /// taskbar where there is none, or nothing where there is neither.
    fn get_foreground_window(&mut self, purpose: Purpose, sighting: Option<Window>)
        ensures
            final(self)@ == sighted(old(self)@, purpose, sighting),
    {
        match purpose {
            Purpose::Entry => {
                match sighting {
                    None => {
                        self.stage = Stage::Finished(
                            ActivationOutcome::Failed(Error::NoForegroundWindow),
                        );
                    },
                    Some(foreground) => {
                        if foreground.handle == self.target.handle {
                            self.stage = Stage::Finished(ActivationOutcome::AlreadyForeground);
                        } else {
                            self.original = foreground;
                            self.previous = Some(foreground.handle);
                            self.stage = Stage::ObservingTarget;
                        }
                    },
                }
            },
            Purpose::Attempt => {
                if self.inner_set_foreground(sighting) {
                    self.release(ActivationOutcome::Activated);
                } else {
                    self.previous = match sighting {
                        Some(window) => Some(window.handle),
                        None => None,
                    };
                    self.attempt();
                }
            },
            Purpose::Exit(error) => {
                let unchanged = match sighting {
                    Some(window) => window.handle == self.original.handle,
                    None => false,
                };
                if unchanged {
                    self.stage = Stage::Finished(ActivationOutcome::Failed(error));
                } else {
                    self.stage = Stage::RestoringOriginal(error);
                }
            },
        }
    }

    /// Judges an attempt by the window that is in the foreground after it.
    fn inner_set_foreground(&self, sighting: Option<Window>) -> (took_effect: bool)
        ensures
            took_effect == asserted(self@.target, self@.previous, sighting),
    {
        match sighting {
            Some(window) => {
                if window.handle == self.target.handle {
                    true
                } else {
                    let changed = match self.previous {
                        Some(previous) => previous != window.handle,
                        None => true,
                    };
                    let owned = match window.owner {
                        Some(owner) => owner == self.target.handle,
                        None => false,
                    };
                    changed && owned
                }
            },
            None => false,
        }
    }

    /// Takes the target as it was observed, before any input queue is
    /// touched.
    fn observe(&mut self, sighting: Option<Window>)
        ensures
            final(self)@ == observed(old(self)@, sighting),
    {
        match sighting {
            Some(window) => {
                if window.handle != self.target.handle {
                    self.stage = Stage::Finished(
                        ActivationOutcome::Failed(Error::WindowNotFound(self.process_id)),
                    );
                } else if window.is_hung() {
                    self.stage = Stage::Finished(ActivationOutcome::Failed(Error::TargetHung));
                } else {
                    self.target = window;
                    self.stage = Stage::IdentifyingThread;
                }
            },
            None => {
                self.stage = Stage::Finished(
                    ActivationOutcome::Failed(Error::WindowNotFound(self.process_id)),
                );
            },
        }
    }

    /// Takes the reply to a request to join two input queues: the join is
    /// recorded if it was made, and passed over if it was refused.
    fn attach_foreground(&mut self, guard: AttachmentGuard, attached: bool)
        ensures
            final(self)@ == recorded(old(self)@, guard, attached),
    {
        if attached {
            self.guards.push(guard);
        }
    }

    /// Takes the desktop's reply to the request under way, and says what the
    /// activation wants next.
    pub fn advance(&mut self, reply: &Reply) -> (step: Step<ActivationOutcome>)
        ensures
            final(self)@ == advance(old(self)@, *reply),
            step == outlook(final(self)@),
    {
        match self.stage {
            Stage::Enumerating => {
                let found = match reply {
                    Reply::Windows(windows) => get_top_level_window(
                        windows.as_slice(),
                        self.process_id,
                    ),
                    _ => {
                        proof {
                            assert(windows_in(*reply) =~= Seq::<Window>::empty());
                        }
                        Err(Error::WindowNotFound(self.process_id))
                    },
                };
                match found {
                    Ok(window) => {
                        self.target = window;
                        self.stage = Stage::ReadingForeground(Purpose::Entry);
                    },
                    Err(error) => {
                        self.stage = Stage::Finished(ActivationOutcome::Failed(error));
                    },
                }
            },
            Stage::ReadingForeground(purpose) => {
                match reply.window() {
                    Some(window) => {
                        self.get_foreground_window(purpose, Some(window));
                    },
                    None => {
                        self.stage = Stage::ReadingTaskbar(purpose);
                    },
                }
            },
            Stage::ReadingTaskbar(purpose) => {
                self.get_foreground_window(purpose, reply.window());
            },
            Stage::ObservingTarget => {
                self.observe(reply.window());
            },
            Stage::IdentifyingThread => {
                self.current_thread = reply.thread();
                if self.original.is_hung() {
                    self.stage = Stage::JoiningTarget;
                } else {
                    self.stage = Stage::JoiningForeground;
                }
            },
            Stage::JoiningForeground => {
                let guard = AttachmentGuard {
                    from: self.current_thread,
                    to: self.original.thread_id(),
                };
                self.attach_foreground(guard, reply.attached());
                self.stage = Stage::JoiningTarget;
            },
            Stage::JoiningTarget => {
                let guard = AttachmentGuard {
                    from: self.original.thread_id(),
                    to: self.target.thread_id(),
                };
                self.attach_foreground(guard, reply.attached());
                match self.target.restore_if_minimized() {
                    Some(_) => {
                        self.stage = Stage::Restoring;
                    },
                    None => {
                        self.attempt();
                    },
                }
            },
            Stage::Restoring => {
                self.attempt();
            },
            Stage::Asserting => {
                self.stage = Stage::Settling;
            },
            Stage::Settling => {
                self.stage = Stage::ReadingForeground(Purpose::Attempt);
            },
            Stage::Detaching(_, verdict) => {
                self.release(verdict);
            },
            Stage::RestoringOriginal(error) => {
                self.stage = Stage::Finished(ActivationOutcome::Failed(error));
            },
            Stage::Finished(_) => {},
        }
        self.pending()
    }

    /// Takes a sequence of replies, one after the other: the reply to the
    /// request under way, then the reply to the request that follows from it,
    /// and so on. Replies that come after the end are passed over.
    pub fn replay(&mut self, replies: &[Reply]) -> (step: Step<ActivationOutcome>)
        ensures
            final(self)@ == run(old(self)@, replies@),
            step == outlook(final(self)@),
    {
        let mut taken: usize = 0;
        while taken < replies.len()
            invariant
                taken <= replies@.len(),
                self@ == run(old(self)@, replies@.take(taken as int)),
            decreases replies@.len() - taken,
        {
            proof {
                let longer = replies@.take(taken + 1);
                assert(longer.drop_last() =~= replies@.take(taken as int));
                assert(longer.last() == replies@[taken as int]);
            }
            self.advance(&replies[taken]);
            taken += 1;
        }
        proof {
            assert(replies@.take(taken as int) =~= replies@);
        }
        self.pending()
    }
}

} // verus!
