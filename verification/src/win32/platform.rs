//! The seam between the protocol and the desktop: what the protocol asks to
//! have done, and what the desktop answered.

use crate::win32::keyboard::InputEvent;
use crate::win32::keyboard::NO_TRANSLATION;
use crate::win32::window::AttachmentGuard;
use crate::win32::window::Window;
use vstd::prelude::*;

verus! {

/// One operation on the desktop, to be performed by the caller. Each names
/// the call of the system that carries it out.
#[derive(Clone, Debug, PartialEq, Eq)]
pub enum Request {
    /// List every top-level window, each as it is now (`EnumWindows`).
    /// Answered by [`Reply::Windows`].
    EnumerateWindows,
    /// Report the window that has the keyboard focus, as it is now
    /// (`GetForegroundWindow`). Answered by [`Reply::Window`].
    ForegroundWindow,
    /// Report the taskbar's window (`FindWindow` of the class
    /// `Shell_TrayWnd`). Answered by [`Reply::Window`].
    TaskbarWindow,
    /// Report the window with this identifier as it is now: its process and
    /// thread, whether it is visible, minimized or hung, and its owner.
    /// Answered by [`Reply::Window`].
    ObserveWindow(usize),
    /// Report the identifier of the calling thread (`GetCurrentThreadId`).
    /// Answered by [`Reply::Thread`].
    CurrentThread,
    /// Join the input queue of one thread to that of another
    /// (`AttachThreadInput`). Answered by [`Reply::Attached`].
    Attach(AttachmentGuard),
    /// Part two input queues that were joined (`AttachThreadInput`). Answered
    /// by [`Reply::Done`].
    Detach(AttachmentGuard),
    /// Bring a minimized window back to its size (`ShowWindow`). Answered by
    /// [`Reply::Done`].
    Restore(usize),
    /// Ask the desktop to make this window the foreground window
    /// (`SetForegroundWindow`). Answered by [`Reply::Done`]: what the desktop
    /// says of its success is not relied on.
    SetForeground(usize),
    /// Wait this many milliseconds. Answered by [`Reply::Done`].
    Settle(u64),
    /// Ask the keyboard layout for the key of a UTF-16 code unit
    /// (`VkKeyScanW`). Answered by [`Reply::Scan`].
    Translate(u16),
    /// Inject these input events as one batch (`SendInput`). Answered by
    /// [`Reply::Done`]: the desktop queues the events, and does not report
    /// whether they were delivered.
    Submit(Vec<InputEvent>),
}

/// What the desktop answered to a [`Request`].
#[derive(Clone, Debug, PartialEq, Eq)]
pub enum Reply {
    /// The top-level windows, in the order of the enumeration.
    Windows(Vec<Window>),
    /// The window asked for, or `None` where there is no such window.
    Window(Option<Window>),
    /// A thread identifier.
    Thread(u32),
    /// Whether two input queues were joined.
    Attached(bool),
    /// The layout's packed answer for a code unit.
    Scan(i16),
    /// The operation was carried out; there is nothing to report.
    Done,
}

/// What a protocol wants next: an operation performed, or nothing more.
#[derive(Clone, Debug, PartialEq, Eq)]
pub enum Step<T> {
    /// Perform the request and hand back the desktop's reply.
    Perform(Request),
    /// The protocol has ended with this result.
    Finished(T),
}

/// The windows a reply lists. A reply of another kind lists none.
pub open spec fn windows_in(reply: Reply) -> Seq<Window> {
    match reply {
        Reply::Windows(windows) => windows@,
        _ => Seq::empty(),
    }
}

/// The window a reply reports. A reply of another kind reports none.
pub open spec fn window_in(reply: Reply) -> Option<Window> {
    match reply {
        Reply::Window(window) => window,
        _ => None,
    }
}

/// The thread a reply names. A reply of another kind names thread 0, which
/// no thread has.
pub open spec fn thread_in(reply: Reply) -> u32 {
    match reply {
        Reply::Thread(thread) => thread,
        _ => 0,
    }
}

/// Whether a reply reports two queues as joined. A reply of another kind
/// reports none.
pub open spec fn attached_in(reply: Reply) -> bool {
    reply == Reply::Attached(true)
}

/// The layout's answer in a reply. A reply of another kind holds no
/// translation.
pub open spec fn scan_in(reply: Reply) -> i16 {
    match reply {
        Reply::Scan(scan) => scan,
        _ => NO_TRANSLATION,
    }
}

impl Reply {
    /// The window this reply reports, if it reports one.
    pub fn window(&self) -> (window: Option<Window>)
        ensures
            window == window_in(*self),
    {
        match self {
            Reply::Window(window) => *window,
            _ => None,
        }
    }

    /// The thread this reply names, or 0.
    pub fn thread(&self) -> (thread: u32)
        ensures
            thread == thread_in(*self),
    {
        match self {
            Reply::Thread(thread) => *thread,
            _ => 0,
        }
    }

    /// Whether this reply reports two queues as joined.
    pub fn attached(&self) -> (attached: bool)
        ensures
            attached == attached_in(*self),
    {
        match self {
            Reply::Attached(attached) => *attached,
            _ => false,
        }
    }

    /// The layout's answer in this reply, or [`NO_TRANSLATION`].
    pub fn scan(&self) -> (scan: i16)
        ensures
            scan == scan_in(*self),
    {
        match self {
            Reply::Scan(scan) => *scan,
            _ => NO_TRANSLATION,
        }
    }
}

} // verus!
