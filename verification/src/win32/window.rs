//! Windows as the desktop reports them, and the search for the one that
//! belongs to a process.

use crate::win32::activation::engaging;
use crate::win32::activation::seeking;
use crate::win32::activation::Activation;
use crate::win32::platform::Request;
use vstd::prelude::*;

verus! {

/// Why a window could not be given the keyboard focus.
#[derive(Clone, Copy, Debug, PartialEq, Eq, Structural)]
pub enum Error {
    /// Every attempt to make the window the foreground window was made, and
    /// none took effect.
    ForegroundAssertionFailed,
    /// The process owns no visible top-level window.
    WindowNotFound(u32),
    /// The desktop reports no foreground window, and no taskbar in its place.
    NoForegroundWindow,
    /// The window does not answer; forcing it to the foreground could block
    /// the caller.
    TargetHung,
}

/// How an activation ended.
#[derive(Clone, Copy, Debug, PartialEq, Eq, Structural)]
pub enum ActivationOutcome {
    /// The window was brought to the foreground.
    Activated,
    /// The window was in the foreground already; nothing was touched.
    AlreadyForeground,
    /// The window is not in the foreground.
    Failed(Error),
}

/// The input queue of one thread joined to that of another, until released.
#[derive(Clone, Copy, Debug, PartialEq, Eq, Structural)]
pub struct AttachmentGuard {
    /// The thread whose queue was joined to the other.
    pub from: u32,
    /// The thread whose queue it was joined to.
    pub to: u32,
}

/// A top-level window: its identifier, and what the desktop said of it when it
/// was last asked. Two values are the same window if their identifiers are
/// equal, whatever else they hold.
#[derive(Clone, Copy, Debug)]
pub struct Window {
    pub handle: usize,
    pub process_id: u32,
    pub thread_id: u32,
    pub visible: bool,
    pub minimized: bool,
    pub hung: bool,
    /// The window that owns this one, if any.
    pub owner: Option<usize>,
}

impl PartialEq for Window {
    fn eq(&self, other: &Self) -> (equal: bool) {
        self.handle == other.handle
    }
}

impl Eq for Window {

}

impl vstd::std_specs::cmp::PartialEqSpecImpl for Window {
    open spec fn obeys_eq_spec() -> bool {
        true
    }

    open spec fn eq_spec(&self, other: &Self) -> bool {
        self.handle == other.handle
    }
}

impl Window {
    /// A window known by its identifier alone: of the rest nothing has been
    /// observed, so it counts as owned by no process and no thread, hidden,
    /// not minimized, responsive and unowned.
    pub fn from_raw_handle(handle: usize) -> (window: Self)
        ensures
            window == (Window {
                handle,
                process_id: 0,
                thread_id: 0,
                visible: false,
                minimized: false,
                hung: false,
                owner: None,
            }),
    {
        Window {
            handle,
            process_id: 0,
            thread_id: 0,
            visible: false,
            minimized: false,
            hung: false,
            owner: None,
        }
    }

    /// The process that owns the window.
    pub fn process_id(&self) -> (id: u32)
        ensures
            id == self.process_id,
    {
        self.process_id
    }

    /// The thread that owns the window, and with it the window's input queue.
    pub fn thread_id(&self) -> (id: u32)
        ensures
            id == self.thread_id,
    {
        self.thread_id
    }

    /// Whether the window is shown.
    pub fn is_visible(&self) -> (visible: bool)
        ensures
            visible == self.visible,
    {
        self.visible
    }

    /// Whether the window is reduced to its icon.
    pub fn is_minimized(&self) -> (minimized: bool)
        ensures
            minimized == self.minimized,
    {
        self.minimized
    }

    /// Whether the window's thread has stopped reading its message queue.
    pub fn is_hung(&self) -> (hung: bool)
        ensures
            hung == self.hung,
    {
        self.hung
    }

    /// The request that restores the window, if it is minimized; a window that
    /// is not minimized is left alone.
    pub fn restore_if_minimized(&self) -> (request: Option<Request>)
        ensures
            request == if self.minimized {
                Some(Request::Restore(self.handle))
            } else {
                None
            },
    {
        if self.is_minimized() {
            Some(Request::Restore(self.handle))
        } else {
            None
        }
    }

    /// Begins to bring this window to the foreground, with at most
    /// `max_tries` requests to the desktop to put it there. The activation
    /// starts by reading the foreground window: a window that has the focus
    /// already is left as it is.
    pub fn try_set_foreground(&self, max_tries: i32) -> (activation: Activation)
        ensures
            activation@ == engaging(*self, max_tries),
    {
        Activation::engage(*self, max_tries)
    }

    /// Whether this window is the one the desktop reported as its foreground
    /// window. Without such a report the question has no answer.
    pub fn is_foreground(&self, foreground: Option<&Window>) -> (answer: Result<bool, Error>)
        ensures
            answer == match foreground {
                Some(reported) => Ok::<bool, Error>(reported.handle == self.handle),
                None => Err::<bool, Error>(Error::NoForegroundWindow),
            },
    {
        match foreground {
            Some(reported) => Ok(reported.handle == self.handle),
            None => Err(Error::NoForegroundWindow),
        }
    }
}

/// Whether `window` can stand for the process `process_id`: it belongs to the
/// process and is visible.
pub open spec fn is_candidate(window: Window, process_id: u32) -> bool {
    window.process_id == process_id && window.visible
}

/// Whether `index` is the place of the first candidate in the enumeration.
pub open spec fn first_candidate_at(windows: Seq<Window>, process_id: u32, index: int) -> bool {
    &&& 0 <= index < windows.len()
    &&& is_candidate(windows[index], process_id)
    &&& forall|earlier: int|
        0 <= earlier < index ==> !is_candidate(#[trigger] windows[earlier], process_id)
}

/// The top-level window of a process: the first candidate in the order of the
/// enumeration, if there is one.
pub open spec fn top_level_window(windows: Seq<Window>, process_id: u32) -> Option<Window> {
    if exists|index: int| first_candidate_at(windows, process_id, index) {
        Some(windows[choose|index: int| first_candidate_at(windows, process_id, index)])
    } else {
        None
    }
}

/// An enumeration has at most one first candidate.
pub proof fn lemma_first_candidate_unique(
    windows: Seq<Window>,
    process_id: u32,
    index: int,
    other: int,
)
    requires
        first_candidate_at(windows, process_id, index),
        first_candidate_at(windows, process_id, other),
    ensures
        index == other,
{
    if index < other {
        assert(!is_candidate(windows[index], process_id));
    } else if other < index {
        assert(!is_candidate(windows[other], process_id));
    }
}

/// Picks the top-level window of a process out of an enumeration of all
/// top-level windows: the first that belongs to the process and is visible.
pub fn get_top_level_window(windows: &[Window], process_id: u32) -> (found: Result<Window, Error>)
    ensures
        found == match top_level_window(windows@, process_id) {
            Some(window) => Ok::<Window, Error>(window),
            None => Err::<Window, Error>(Error::WindowNotFound(process_id)),
        },
        found matches Ok(window) ==> is_candidate(window, process_id) && windows@.contains(window),
        found is Err <==> forall|index: int|
            0 <= index < windows@.len() ==> !is_candidate(#[trigger] windows@[index], process_id),
{
    let mut index: usize = 0;
    while index < windows.len()
        invariant
            index <= windows@.len(),
            forall|earlier: int|
                0 <= earlier < index ==> !is_candidate(#[trigger] windows@[earlier], process_id),
        decreases windows@.len() - index,
    {
        let window = windows[index];
        if window.process_id() == process_id && window.is_visible() {
            proof {
                let at = index as int;
                assert(first_candidate_at(windows@, process_id, at));
                let first = choose|i: int| first_candidate_at(windows@, process_id, i);
                lemma_first_candidate_unique(windows@, process_id, at, first);
            }
            return Ok(window);
        }
        index += 1;
    }
    Err(Error::WindowNotFound(process_id))
}

/// How many times the desktop is asked to put a window in the foreground
/// before the activation is given up.
pub const MAX_TRIES: i32 = 5;

/// Begins to bring the top-level window of a process to the foreground. The
/// activation starts by listing the top-level windows, to find the first
/// visible one of the process.
pub fn activate_top_level_window(process_id: u32) -> (activation: Activation)
    ensures
        activation@ == seeking(process_id, MAX_TRIES),
{
    Activation::seek(process_id, MAX_TRIES)
}

} // verus!
