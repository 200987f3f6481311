//! What holds of every activation, whatever the desktop answers.
//!
//! An activation is followed through the replies it is given; what it asked
//! for, and what it was told, is its history. The laws are stated of the
//! history and of the state it leads to.

use crate::win32::activation::advance;
use crate::win32::activation::asserted;
use crate::win32::activation::attempt;
use crate::win32::activation::engaging;
use crate::win32::activation::handle_of;
use crate::win32::activation::outlook;
use crate::win32::activation::recorded;
use crate::win32::activation::release;
use crate::win32::activation::run;
use crate::win32::activation::seeking;
use crate::win32::activation::sighted;
use crate::win32::activation::target_join;
use crate::win32::activation::Protocol;
use crate::win32::activation::Purpose;
use crate::win32::activation::Stage;
use crate::win32::platform::attached_in;
use crate::win32::platform::window_in;
use crate::win32::platform::windows_in;
use crate::win32::platform::Reply;
use crate::win32::platform::Request;
use crate::win32::platform::Step;
use crate::win32::window::first_candidate_at;
use crate::win32::window::is_candidate;
use crate::win32::window::top_level_window;
use crate::win32::window::ActivationOutcome;
use crate::win32::window::AttachmentGuard;
use crate::win32::window::Error;
use crate::win32::window::Window;
use vstd::prelude::*;

verus! {

/// A request the protocol made, and the reply it was given.
pub struct Exchange {
    pub request: Request,
    pub reply: Reply,
}

/// Whether the protocol is at its start: nothing joined, nothing tried, and
/// either the windows or the foreground window about to be read.
pub open spec fn initial(s: Protocol) -> bool {
    &&& s.guards.len() == 0
    &&& s.tries == 0
    &&& (s.stage == Stage::Enumerating || s.stage == Stage::ReadingForeground(Purpose::Entry))
}

/// The history `earlier`, with the reply added that was taken in state `s`:
/// it answers the request that was under way there. Once the protocol has
/// ended no request is under way, and the history stays as it is.
pub open spec fn extended(earlier: Seq<Exchange>, s: Protocol, reply: Reply) -> Seq<Exchange> {
    match outlook(s) {
        Step::Perform(request) => earlier.push(Exchange { request, reply }),
        Step::Finished(_) => earlier,
    }
}

/// The exchanges that took place while the replies were taken.
pub open spec fn history(start: Protocol, replies: Seq<Reply>) -> Seq<Exchange>
    decreases replies.len(),
{
    if replies.len() == 0 {
        Seq::empty()
    } else {
        extended(
            history(start, replies.drop_last()),
            run(start, replies.drop_last()),
            replies.last(),
        )
    }
}

/// Whether a request only reads the desktop: it joins or parts no queue,
/// restores no window and asks for no foreground.
pub open spec fn reads_only(request: Request) -> bool {
    match request {
        Request::EnumerateWindows => true,
        Request::ForegroundWindow => true,
        Request::TaskbarWindow => true,
        Request::ObserveWindow(_) => true,
        Request::CurrentThread => true,
        _ => false,
    }
}

/// Whether nothing in a history did more than read the desktop.
pub open spec fn untouched(past: Seq<Exchange>) -> bool {
    forall|index: int| 0 <= index < past.len() ==> reads_only(#[trigger] past[index].request)
}

/// The joins that were made: the guards of the attach requests that the
/// desktop granted, in the order of the requests.
pub open spec fn granted(past: Seq<Exchange>) -> Seq<AttachmentGuard>
    decreases past.len(),
{
    if past.len() == 0 {
        Seq::empty()
    } else {
        let earlier = granted(past.drop_last());
        match past.last().request {
            Request::Attach(guard) => if attached_in(past.last().reply) {
                earlier.push(guard)
            } else {
                earlier
            },
            _ => earlier,
        }
    }
}

/// The joins that were released: the guards of the detach requests, in the
/// order of the requests.
pub open spec fn parted(past: Seq<Exchange>) -> Seq<AttachmentGuard>
    decreases past.len(),
{
    if past.len() == 0 {
        Seq::empty()
    } else {
        let earlier = parted(past.drop_last());
        match past.last().request {
            Request::Detach(guard) => earlier.push(guard),
            _ => earlier,
        }
    }
}

/// How many times the desktop was asked to put the window `handle` in the
/// foreground.
pub open spec fn attempts(past: Seq<Exchange>, handle: usize) -> nat
    decreases past.len(),
{
    if past.len() == 0 {
        0
    } else {
        let earlier = attempts(past.drop_last(), handle);
        if past.last().request == Request::SetForeground(handle) {
            earlier + 1
        } else {
            earlier
        }
    }
}

/// The window that was last seen in the foreground: what the desktop answered
/// when it was last asked for the foreground window, or for the taskbar in
/// its place.
pub open spec fn last_sighting(past: Seq<Exchange>) -> Option<Window>
    decreases past.len(),
{
    if past.len() == 0 {
        None
    } else {
        match past.last().request {
            Request::ForegroundWindow => window_in(past.last().reply),
            Request::TaskbarWindow => window_in(past.last().reply),
            _ => last_sighting(past.drop_last()),
        }
    }
}

/// The attempts a protocol is allowed: none where the limit is negative.
pub open spec fn allowed(s: Protocol) -> nat {
    if s.max_tries > 0 {
        s.max_tries as nat
    } else {
        0
    }
}

/// The replies the protocol can still take before it must have ended.
pub open spec fn budget(s: Protocol) -> nat {
    let left: nat = if s.tries < s.max_tries {
        (s.max_tries - s.tries) as nat
    } else {
        0
    };
    let held = s.guards.len();
    match s.stage {
        Stage::Enumerating => 4 * left + held + 13,
        Stage::ReadingForeground(Purpose::Entry) => 4 * left + held + 12,
        Stage::ReadingTaskbar(Purpose::Entry) => 4 * left + held + 11,
        Stage::ObservingTarget => 4 * left + held + 10,
        Stage::IdentifyingThread => 4 * left + held + 9,
        Stage::JoiningForeground => 4 * left + held + 8,
        Stage::JoiningTarget => 4 * left + held + 6,
        Stage::Restoring => 4 * left + held + 4,
        Stage::Asserting => 4 * left + held + 7,
        Stage::Settling => 4 * left + held + 6,
        Stage::ReadingForeground(Purpose::Attempt) => 4 * left + held + 5,
        Stage::ReadingTaskbar(Purpose::Attempt) => 4 * left + held + 4,
        Stage::Detaching(_, _) => held + 4,
        Stage::ReadingForeground(Purpose::Exit(_)) => 3,
        Stage::ReadingTaskbar(Purpose::Exit(_)) => 2,
        Stage::RestoringOriginal(_) => 1,
        Stage::Finished(_) => 0,
    }
}

proof fn lemma_release_budget(s: Protocol, verdict: ActivationOutcome)
    ensures
        budget(release(s, verdict)) <= s.guards.len() + 3,
{
}

proof fn lemma_attempt_budget(s: Protocol)
    ensures
        budget(attempt(s)) <= 4 * (if s.tries < s.max_tries {
            (s.max_tries - s.tries) as nat
        } else {
            0
        }) + s.guards.len() + 3,
{
    lemma_release_budget(s, ActivationOutcome::Failed(Error::ForegroundAssertionFailed));
}

/// Every reply brings the end nearer.
pub proof fn lemma_budget_decreases(s: Protocol, reply: Reply)
    requires
        !(s.stage is Finished),
    ensures
        budget(advance(s, reply)) < budget(s),
{
    match s.stage {
        Stage::ReadingForeground(Purpose::Attempt) | Stage::ReadingTaskbar(Purpose::Attempt) => {
            let sighting = window_in(reply);
            if asserted(s.target, s.previous, sighting) {
                lemma_release_budget(s, ActivationOutcome::Activated);
            } else {
                lemma_attempt_budget(
                    Protocol {
                        previous: handle_of(sighting),
                        ..s
                    },
                );
            }
        },
        Stage::JoiningTarget => {
            let after = recorded(
                s,
                target_join(s),
                attached_in(reply),
            );
            lemma_attempt_budget(after);
        },
        Stage::Restoring => {
            lemma_attempt_budget(s);
        },
        Stage::Detaching(_, verdict) => {
            lemma_release_budget(s, verdict);
        },
        _ => {},
    }
}

proof fn lemma_run_budget(start: Protocol, replies: Seq<Reply>)
    ensures
        run(start, replies).stage is Finished || budget(run(start, replies)) + replies.len()
            <= budget(start),
    decreases replies.len(),
{
    if replies.len() > 0 {
        let before = run(start, replies.drop_last());
        lemma_run_budget(start, replies.drop_last());
        if !(before.stage is Finished) {
            lemma_budget_decreases(before, replies.last());
        }
    }
}

/// The limit on attempts and the process sought stay what they were.
proof fn lemma_run_keeps_limits(start: Protocol, replies: Seq<Reply>)
    ensures
        run(start, replies).max_tries == start.max_tries,
        run(start, replies).process_id == start.process_id,
    decreases replies.len(),
{
    if replies.len() > 0 {
        lemma_run_keeps_limits(start, replies.drop_last());
    }
}

/// What one more exchange adds to the tallies of a history.
pub proof fn lemma_tallies_push(past: Seq<Exchange>, exchange: Exchange, handle: usize)
    ensures
        granted(past.push(exchange)) == match exchange.request {
            Request::Attach(guard) => if attached_in(exchange.reply) {
                granted(past).push(guard)
            } else {
                granted(past)
            },
            _ => granted(past),
        },
        parted(past.push(exchange)) == match exchange.request {
            Request::Detach(guard) => parted(past).push(guard),
            _ => parted(past),
        },
        attempts(past.push(exchange), handle) == if exchange.request == Request::SetForeground(
            handle,
        ) {
            attempts(past, handle) + 1
        } else {
            attempts(past, handle)
        },
        last_sighting(past.push(exchange)) == match exchange.request {
            Request::ForegroundWindow => window_in(exchange.reply),
            Request::TaskbarWindow => window_in(exchange.reply),
            _ => last_sighting(past),
        },
        untouched(past.push(exchange)) <==> untouched(past) && reads_only(exchange.request),
        found_responsive(past, handle) ==> found_responsive(past.push(exchange), handle),
        reports_responsive(exchange, handle) ==> found_responsive(past.push(exchange), handle),
{
    let longer = past.push(exchange);
    assert(longer.drop_last() =~= past);
    assert(longer.last() == exchange);
    if found_responsive(past, handle) {
        let index = choose|index: int|
            0 <= index < past.len() && reports_responsive(#[trigger] past[index], handle);
        assert(longer[index] == past[index]);
    }
    if reports_responsive(exchange, handle) {
        assert(longer[past.len() as int] == exchange);
    }
    if untouched(longer) {
        assert forall|index: int| 0 <= index < past.len() implies reads_only(
            #[trigger] past[index].request,
        ) by {
            assert(longer[index] == past[index]);
        }
        assert(longer[past.len() as int] == exchange);
    }
}

/// A history of reads holds no join, no release and no attempt.
proof fn lemma_untouched_tallies(past: Seq<Exchange>, handle: usize)
    requires
        untouched(past),
    ensures
        granted(past) == Seq::<AttachmentGuard>::empty(),
        parted(past) == Seq::<AttachmentGuard>::empty(),
        attempts(past, handle) == 0,
    decreases past.len(),
{
    if past.len() > 0 {
        assert(reads_only(past[past.len() - 1].request));
        assert forall|index: int| 0 <= index < past.drop_last().len() implies reads_only(
            #[trigger] past.drop_last()[index].request,
        ) by {
            assert(past.drop_last()[index] == past[index]);
        }
        lemma_untouched_tallies(past.drop_last(), handle);
    }
}

/// Whether the joins that were made are those still held, followed by those
/// released, the one released last standing first among them.
spec fn mirrors(
    made: Seq<AttachmentGuard>,
    held: Seq<AttachmentGuard>,
    released: Seq<AttachmentGuard>,
) -> bool {
    &&& made.len() == held.len() + released.len()
    &&& forall|index: int| 0 <= index < held.len() ==> made[index] == held[index]
    &&& forall|index: int|
        0 <= index < released.len() ==> made[made.len() - 1 - index] == released[index]
}

/// Whether a window is the target or is owned by it.
pub open spec fn belongs_to(sighting: Option<Window>, target: usize) -> bool {
    sighting matches Some(window) && (window.handle == target || window.owner == Some(target))
}

/// Whether a decided outcome is borne out by the state and the history.
spec fn borne_out(s: Protocol, past: Seq<Exchange>, verdict: ActivationOutcome) -> bool {
    match verdict {
        ActivationOutcome::Activated => 1 <= s.tries <= s.max_tries && belongs_to(
            last_sighting(past),
            s.target.handle,
        ),
        ActivationOutcome::Failed(error) => error == Error::ForegroundAssertionFailed && s.tries
            == allowed(s),
        ActivationOutcome::AlreadyForeground => false,
    }
}

/// Whether an exchange is an observation of the window `handle` that found
/// it to answer.
pub open spec fn reports_responsive(exchange: Exchange, handle: usize) -> bool {
    &&& exchange.request == Request::ObserveWindow(handle)
    &&& window_in(exchange.reply) matches Some(window)
    &&& window.handle == handle
    &&& !window.hung
}

/// Whether the window `handle` was observed, and found to answer.
pub open spec fn found_responsive(past: Seq<Exchange>, handle: usize) -> bool {
    exists|index: int| 0 <= index < past.len() && reports_responsive(#[trigger] past[index], handle)
}

/// What holds of a state together with the history that led to it.
spec fn consistent(s: Protocol, past: Seq<Exchange>) -> bool {
    let target = s.target.handle;
    let engaged = {
        &&& s.original.handle != target
        &&& 0 <= s.tries <= allowed(s)
        &&& found_responsive(past, target)
    };
    match s.stage {
        Stage::Enumerating | Stage::ReadingForeground(Purpose::Entry) | Stage::ReadingTaskbar(
            Purpose::Entry,
        ) => {
            &&& untouched(past)
            &&& s.guards.len() == 0
            &&& s.tries == 0
        },
        Stage::ObservingTarget => {
            &&& untouched(past)
            &&& s.guards.len() == 0
            &&& s.tries == 0
            &&& s.original.handle != target
        },
        Stage::IdentifyingThread | Stage::JoiningForeground => {
            &&& untouched(past)
            &&& s.guards.len() == 0
            &&& s.tries == 0
            &&& engaged
        },
        Stage::JoiningTarget | Stage::Restoring => {
            &&& granted(past) == s.guards
            &&& parted(past).len() == 0
            &&& attempts(past, target) == 0
            &&& s.tries == 0
            &&& engaged
        },
        Stage::Asserting => {
            &&& granted(past) == s.guards
            &&& parted(past).len() == 0
            &&& attempts(past, target) == s.tries - 1
            &&& 1 <= s.tries
            &&& engaged
        },
        Stage::Settling | Stage::ReadingForeground(Purpose::Attempt) | Stage::ReadingTaskbar(
            Purpose::Attempt,
        ) => {
            &&& granted(past) == s.guards
            &&& parted(past).len() == 0
            &&& attempts(past, target) == s.tries
            &&& 1 <= s.tries
            &&& engaged
        },
        Stage::Detaching(guard, verdict) => {
            &&& mirrors(granted(past), s.guards.push(guard), parted(past))
            &&& attempts(past, target) == s.tries
            &&& borne_out(s, past, verdict)
            &&& engaged
        },
        Stage::ReadingForeground(Purpose::Exit(error)) | Stage::ReadingTaskbar(
            Purpose::Exit(error),
        ) | Stage::RestoringOriginal(error) => {
            &&& s.guards.len() == 0
            &&& mirrors(granted(past), s.guards, parted(past))
            &&& attempts(past, target) == s.tries
            &&& borne_out(s, past, ActivationOutcome::Failed(error))
            &&& engaged
        },
        Stage::Finished(ActivationOutcome::AlreadyForeground) => {
            &&& untouched(past)
            &&& last_sighting(past) matches Some(window)
            &&& window.handle == target
        },
        Stage::Finished(ActivationOutcome::Failed(Error::ForegroundAssertionFailed)) => {
            &&& s.guards.len() == 0
            &&& mirrors(granted(past), s.guards, parted(past))
            &&& attempts(past, target) == s.tries
            &&& s.tries == allowed(s)
            &&& engaged
        },
        Stage::Finished(ActivationOutcome::Failed(_)) => untouched(past),
        Stage::Finished(ActivationOutcome::Activated) => {
            &&& s.guards.len() == 0
            &&& mirrors(granted(past), s.guards, parted(past))
            &&& attempts(past, target) == s.tries
            &&& borne_out(s, past, ActivationOutcome::Activated)
            &&& engaged
        },
    }
}

/// With the outcome decided and the joins that were made all held, the release
/// leads to a consistent state.
proof fn lemma_release_consistent(s: Protocol, past: Seq<Exchange>, verdict: ActivationOutcome)
    requires
        granted(past) == s.guards,
        parted(past).len() == 0,
        attempts(past, s.target.handle) == s.tries,
        borne_out(s, past, verdict),
        s.original.handle != s.target.handle,
        0 <= s.tries <= allowed(s),
        found_responsive(past, s.target.handle),
    ensures
        consistent(release(s, verdict), past),
{
    if s.guards.len() > 0 {
        assert(s.guards.drop_last().push(s.guards.last()) =~= s.guards);
    }
}

/// With the joins that were made all held, the next attempt, or the end of
/// attempts, leads to a consistent state once the request before it is
/// answered.
proof fn lemma_attempt_consistent(s: Protocol, past: Seq<Exchange>)
    requires
        granted(past) == s.guards,
        parted(past).len() == 0,
        attempts(past, s.target.handle) == s.tries,
        s.original.handle != s.target.handle,
        0 <= s.tries <= allowed(s),
        found_responsive(past, s.target.handle),
    ensures
        consistent(attempt(s), past),
{
    if s.tries < s.max_tries {
    } else {
        lemma_release_consistent(
            s,
            past,
            ActivationOutcome::Failed(Error::ForegroundAssertionFailed),
        );
    }
}

/// One reply keeps state and history consistent.
proof fn lemma_step_consistent(s: Protocol, past: Seq<Exchange>, reply: Reply)
    requires
        consistent(s, past),
    ensures
        consistent(advance(s, reply), extended(past, s, reply)),
{
    let next = advance(s, reply);
    let longer = extended(past, s, reply);
    let target = s.target.handle;
    match outlook(s) {
        Step::Perform(request) => {
            lemma_tallies_push(past, Exchange { request, reply }, target);
            lemma_tallies_push(past, Exchange { request, reply }, next.target.handle);
        },
        Step::Finished(_) => {},
    }
    match s.stage {
        Stage::Enumerating => {},
        Stage::ReadingForeground(Purpose::Entry) | Stage::ReadingTaskbar(Purpose::Entry) => {},
        Stage::ObservingTarget => {},
        Stage::IdentifyingThread | Stage::JoiningForeground => {
            lemma_untouched_tallies(past, target);
            assert(s.guards =~= Seq::<AttachmentGuard>::empty());
        },
        Stage::JoiningTarget => {
            let after = recorded(
                s,
                target_join(s),
                attached_in(reply),
            );
            if !after.target.minimized {
                lemma_attempt_consistent(after, longer);
            }
        },
        Stage::Restoring => {
            lemma_attempt_consistent(s, longer);
        },
        Stage::Asserting => {},
        Stage::Settling => {},
        Stage::ReadingForeground(Purpose::Attempt) | Stage::ReadingTaskbar(Purpose::Attempt) => {
            let sighting = window_in(reply);
            if s.stage is ReadingForeground && sighting is None {
            } else if asserted(s.target, s.previous, sighting) {
                lemma_release_consistent(s, longer, ActivationOutcome::Activated);
            } else {
                lemma_attempt_consistent(
                    Protocol { previous: handle_of(sighting), ..s },
                    longer,
                );
            }
        },
        Stage::Detaching(guard, verdict) => {
            let made = granted(past);
            let released = parted(longer);
            assert(released == parted(past).push(guard));
            if s.guards.len() > 0 {
                assert(s.guards.drop_last().push(s.guards.last()) =~= s.guards);
            }
            assert(made[s.guards.len() as int] == s.guards.push(guard)[s.guards.len() as int]);
            assert forall|index: int| 0 <= index < released.len() implies made[made.len() - 1
                - index] == released[index] by {
                if index < parted(past).len() {
                    assert(released[index] == parted(past)[index]);
                }
            }
            assert forall|index: int| 0 <= index < s.guards.len() implies made[index]
                == s.guards[index] by {
                assert(s.guards.push(guard)[index] == s.guards[index]);
            }
        },
        Stage::ReadingForeground(Purpose::Exit(_)) | Stage::ReadingTaskbar(Purpose::Exit(_)) => {},
        Stage::RestoringOriginal(_) => {},
        Stage::Finished(_) => {},
    }
}

/// Every state a protocol reaches from its start is consistent with the
/// history that led to it.
proof fn lemma_run_consistent(start: Protocol, replies: Seq<Reply>)
    requires
        initial(start),
    ensures
        consistent(run(start, replies), history(start, replies)),
    decreases replies.len(),
{
    if replies.len() > 0 {
        lemma_run_consistent(start, replies.drop_last());
        lemma_step_consistent(
            run(start, replies.drop_last()),
            history(start, replies.drop_last()),
            replies.last(),
        );
    }
}

/// A run can be followed from its first reply as well as from its last.
proof fn lemma_run_from_first(start: Protocol, replies: Seq<Reply>)
    requires
        replies.len() > 0,
    ensures
        run(start, replies) == run(advance(start, replies.first()), replies.drop_first()),
    decreases replies.len(),
{
    if replies.len() == 1 {
        assert(replies.drop_last().len() == 0);
        assert(replies.drop_first().len() == 0);
        assert(replies.last() == replies.first());
    } else {
        let shorter = replies.drop_last();
        lemma_run_from_first(start, shorter);
        assert(shorter.first() == replies.first());
        assert(shorter.drop_first() =~= replies.drop_first().drop_last());
        assert(replies.drop_first().last() == replies.last());
    }
}

/// A protocol that has ended takes no notice of further replies.
proof fn lemma_finished_stays(start: Protocol, replies: Seq<Reply>)
    requires
        start.stage is Finished,
    ensures
        run(start, replies) == start,
    decreases replies.len(),
{
    if replies.len() > 0 {
        lemma_finished_stays(start, replies.drop_last());
    }
}

/// How many replies a reading of the foreground window takes: one, if the
/// first reports a window; else a second, on the taskbar.
pub open spec fn reading_length(replies: Seq<Reply>) -> int {
    if replies.len() > 0 && window_in(replies[0]) is Some {
        1
    } else {
        2
    }
}

/// What a reading of the foreground window yields from the replies it is
/// given: the window the first reply reports, or else the window the second
/// reports.
pub open spec fn reading(replies: Seq<Reply>) -> Option<Window> {
    if replies.len() > 0 && window_in(replies[0]) is Some {
        window_in(replies[0])
    } else if replies.len() > 1 {
        window_in(replies[1])
    } else {
        None
    }
}

/// The state after a reading of the foreground window at the start of an
/// activation.
proof fn lemma_entry_reading(target: Window, max_tries: i32, replies: Seq<Reply>)
    requires
        replies.len() >= reading_length(replies),
    ensures
        run(engaging(target, max_tries), replies) == run(
            sighted(
                engaging(target, max_tries),
                Purpose::Entry,
                reading(replies),
            ),
            replies.skip(reading_length(replies)),
        ),
{
    let start = engaging(target, max_tries);
    lemma_run_from_first(start, replies);
    if window_in(replies[0]) is Some {
        assert(replies.drop_first() =~= replies.skip(1));
    } else {
        let rest = replies.drop_first();
        lemma_run_from_first(advance(start, replies.first()), rest);
        assert(rest.first() == replies[1]);
        assert(rest.drop_first() =~= replies.skip(2));
    }
}

/// An activation ends, whatever the desktop answers: once it has been given
/// thirteen replies and four more for every attempt it is allowed, it has
/// ended.
pub proof fn law_activation_ends(start: Protocol, replies: Seq<Reply>)
    requires
        initial(start),
        replies.len() >= 4 * allowed(start) + 13,
    ensures
        run(start, replies).stage is Finished,
{
    lemma_run_budget(start, replies);
}

/// Every join of input queues that was made during an activation has been
/// released by the time the activation has ended, each one once, and the one
/// made last first.
pub proof fn law_attachments_released(start: Protocol, replies: Seq<Reply>)
    requires
        initial(start),
        run(start, replies).stage is Finished,
    ensures
        parted(history(start, replies)) == granted(history(start, replies)).reverse(),
{
    lemma_run_consistent(start, replies);
    let past = history(start, replies);
    let end = run(start, replies);
    match end.stage {
        Stage::Finished(ActivationOutcome::Activated) | Stage::Finished(
            ActivationOutcome::Failed(Error::ForegroundAssertionFailed),
        ) => {},
        _ => {
            lemma_untouched_tallies(past, end.target.handle);
        },
    }
    assert(parted(past) =~= granted(past).reverse());
}

/// The desktop is asked to put the target in the foreground no more often
/// than the activation is allowed to ask. An activation that fails for want
/// of effect has asked exactly as often as it was allowed; one that succeeds
/// has asked at least once.
pub proof fn law_attempts_bounded(start: Protocol, replies: Seq<Reply>)
    requires
        initial(start),
    ensures
        attempts(history(start, replies), run(start, replies).target.handle) <= allowed(start),
        run(start, replies).stage == Stage::Finished(
            ActivationOutcome::Failed(Error::ForegroundAssertionFailed),
        ) ==> attempts(history(start, replies), run(start, replies).target.handle) == allowed(
            start,
        ),
        run(start, replies).stage == Stage::Finished(ActivationOutcome::Activated) ==> attempts(
            history(start, replies),
            run(start, replies).target.handle,
        ) >= 1,
{
    lemma_run_consistent(start, replies);
    lemma_run_keeps_limits(start, replies);
    let past = history(start, replies);
    let end = run(start, replies);
    if untouched(past) {
        lemma_untouched_tallies(past, end.target.handle);
    }
}

/// An activation that ends because the target has the focus already, because
/// the target is hung or gone, or because no foreground window can be read,
/// has done nothing but read the desktop: it has joined no input queue,
/// restored no window and asked for no foreground.
pub proof fn law_early_exit_touches_nothing(start: Protocol, replies: Seq<Reply>)
    requires
        initial(start),
        run(start, replies).stage is Finished,
        run(start, replies).stage != Stage::Finished(ActivationOutcome::Activated),
        run(start, replies).stage != Stage::Finished(
            ActivationOutcome::Failed(Error::ForegroundAssertionFailed),
        ),
    ensures
        untouched(history(start, replies)),
{
    lemma_run_consistent(start, replies);
}

/// No input queue is joined, no window restored and no foreground asked for
/// unless the target was observed before, and found to answer: a window that
/// is hung is never forced to the foreground.
pub proof fn law_hung_window_is_never_forced(start: Protocol, replies: Seq<Reply>)
    requires
        initial(start),
    ensures
        untouched(history(start, replies)) || found_responsive(
            history(start, replies),
            run(start, replies).target.handle,
        ),
{
    lemma_run_consistent(start, replies);
}

/// After an activation that succeeded, the window last seen in the foreground
/// is the target or a window the target owns; after one that found the target
/// in the foreground already, it is the target.
pub proof fn law_success_was_seen(start: Protocol, replies: Seq<Reply>)
    requires
        initial(start),
    ensures
        run(start, replies).stage == Stage::Finished(ActivationOutcome::Activated) ==> belongs_to(
            last_sighting(history(start, replies)),
            run(start, replies).target.handle,
        ),
        run(start, replies).stage == Stage::Finished(ActivationOutcome::AlreadyForeground)
            ==> handle_of(last_sighting(history(start, replies))) == Some(
            run(start, replies).target.handle,
        ),
{
    lemma_run_consistent(start, replies);
}

/// The search for the window is the first step of an activation. Where the
/// enumeration holds a visible window of the process, the activation goes on
/// as the activation of the first such window; where it holds none, the
/// activation has failed.
pub proof fn law_search_engages_first_candidate(
    process_id: u32,
    max_tries: i32,
    replies: Seq<Reply>,
)
    requires
        replies.len() > 0,
    ensures
        match top_level_window(windows_in(replies.first()), process_id) {
            Some(window) => run(seeking(process_id, max_tries), replies) == run(
                engaging(window, max_tries),
                replies.drop_first(),
            ),
            None => run(seeking(process_id, max_tries), replies).stage == Stage::Finished(
                ActivationOutcome::Failed(Error::WindowNotFound(process_id)),
            ),
        },
{
    let start = seeking(process_id, max_tries);
    let windows = windows_in(replies.first());
    lemma_run_from_first(start, replies);
    if exists|index: int| first_candidate_at(windows, process_id, index) {
        let first = choose|index: int| first_candidate_at(windows, process_id, index);
        assert(is_candidate(windows[first], process_id));
    } else {
        lemma_finished_stays(advance(start, replies.first()), replies.drop_first());
    }
}

/// A target that has the focus when the activation reads the foreground
/// window is reported as being in the foreground already, and the activation
/// has done nothing but read the desktop.
pub proof fn law_already_foreground(target: Window, max_tries: i32, replies: Seq<Reply>)
    requires
        replies.len() >= reading_length(replies),
        handle_of(reading(replies)) == Some(target.handle),
    ensures
        run(engaging(target, max_tries), replies).stage
            == Stage::Finished(ActivationOutcome::AlreadyForeground),
        untouched(history(engaging(target, max_tries), replies)),
{
    let start = engaging(target, max_tries);
    lemma_entry_reading(target, max_tries, replies);
    let after = sighted(start, Purpose::Entry, reading(replies));
    lemma_finished_stays(after, replies.skip(reading_length(replies)));
    law_early_exit_touches_nothing(start, replies);
}

/// A target that is not in the foreground and is then observed to be hung
/// fails the activation as hung, and the activation has done nothing but read
/// the desktop.
pub proof fn law_hung_target(target: Window, max_tries: i32, replies: Seq<Reply>)
    requires
        replies.len() > reading_length(replies),
        reading(replies) is Some,
        handle_of(reading(replies)) != Some(target.handle),
        window_in(replies[reading_length(replies)]) matches Some(observed) && observed.handle
            == target.handle && observed.hung,
    ensures
        run(engaging(target, max_tries), replies).stage
            == Stage::Finished(ActivationOutcome::Failed(Error::TargetHung)),
        untouched(history(engaging(target, max_tries), replies)),
{
    let start = engaging(target, max_tries);
    lemma_entry_reading(target, max_tries, replies);
    let after = sighted(start, Purpose::Entry, reading(replies));
    let rest = replies.skip(reading_length(replies));
    lemma_run_from_first(after, rest);
    assert(rest.first() == replies[reading_length(replies)]);
    lemma_finished_stays(advance(after, rest.first()), rest.drop_first());
    law_early_exit_touches_nothing(start, replies);
}

} // verus!
