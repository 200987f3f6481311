//! The order in which an activation does what it does: which input queues it
//! joins, when it restores the target, how it paces its requests for the
//! foreground, and how it leaves the focus when it has failed.

use crate::win32::activation::advance;
use crate::win32::activation::foreground_join;
use crate::win32::activation::handle_of;
use crate::win32::activation::outlook;
use crate::win32::activation::run;
use crate::win32::activation::target_join;
use crate::win32::activation::Protocol;
use crate::win32::activation::Purpose;
use crate::win32::activation::Stage;
use crate::win32::activation::SLEEP_DURATION;
use crate::win32::activation_laws::attempts;
use crate::win32::activation_laws::extended;
use crate::win32::activation_laws::history;
use crate::win32::activation_laws::initial;
use crate::win32::activation_laws::last_sighting;
use crate::win32::activation_laws::lemma_tallies_push;
use crate::win32::activation_laws::reads_only;
use crate::win32::activation_laws::untouched;
use crate::win32::activation_laws::Exchange;
use crate::win32::platform::Reply;
use crate::win32::platform::Request;
use crate::win32::platform::Step;
use crate::win32::window::ActivationOutcome;
use crate::win32::window::AttachmentGuard;
use crate::win32::window::Error;
use vstd::prelude::*;

verus! {

/// The step of the protocol a request belongs to, for an activation of the
/// window `target`: the joining of queues is the first step, the restoring of
/// a window the second, the asking for the foreground the third, the parting
/// of queues the fourth, and the giving back of the focus to another window
/// the fifth. Reading and waiting belong to no step.
pub open spec fn step_of(request: Request, target: usize) -> nat {
    match request {
        Request::Attach(_) => 1,
        Request::Restore(_) => 2,
        Request::SetForeground(handle) => if handle == target {
            3
        } else {
            5
        },
        Request::Detach(_) => 4,
        _ => 0,
    }
}

/// Whether the steps of a history follow one another: no request of a step
/// comes after a request of a later step.
pub open spec fn in_order(past: Seq<Exchange>, target: usize) -> bool {
    forall|earlier: int, later: int|
        0 <= earlier < later < past.len() && step_of((#[trigger] past[later]).request, target) > 0
            ==> step_of((#[trigger] past[earlier]).request, target) <= step_of(
            past[later].request,
            target,
        )
}

/// Whether every request for the foreground of `target` is followed by the
/// wait for the desktop to settle, and the wait by a reading of the
/// foreground window, as far as the history goes.
pub open spec fn settled(past: Seq<Exchange>, target: usize) -> bool {
    forall|index: int|
        0 <= index < past.len() && (#[trigger] past[index]).request == Request::SetForeground(
            target,
        ) ==> {
            &&& index + 1 < past.len() ==> past[index + 1].request == Request::Settle(
                SLEEP_DURATION,
            )
            &&& index + 2 < past.len() ==> past[index + 2].request == Request::ForegroundWindow
        }
}

/// The latest step a history can hold when the protocol stands at a stage.
spec fn level(stage: Stage) -> nat {
    match stage {
        Stage::JoiningTarget | Stage::Restoring => 1,
        Stage::Asserting | Stage::Settling | Stage::ReadingForeground(Purpose::Attempt)
        | Stage::ReadingTaskbar(Purpose::Attempt) => 3,
        Stage::Detaching(_, _) | Stage::ReadingForeground(Purpose::Exit(_))
        | Stage::ReadingTaskbar(Purpose::Exit(_)) | Stage::RestoringOriginal(_) => 4,
        Stage::Finished(ActivationOutcome::Activated) => 4,
        Stage::Finished(ActivationOutcome::Failed(Error::ForegroundAssertionFailed)) => 5,
        _ => 0,
    }
}

/// Whether a stage is reached by reading alone.
spec fn quiet(stage: Stage) -> bool {
    match stage {
        Stage::Enumerating => true,
        Stage::ReadingForeground(Purpose::Entry) => true,
        Stage::ReadingTaskbar(Purpose::Entry) => true,
        Stage::ObservingTarget => true,
        Stage::IdentifyingThread => true,
        Stage::JoiningForeground => true,
        Stage::Finished(ActivationOutcome::AlreadyForeground) => true,
        Stage::Finished(ActivationOutcome::Failed(error)) => error
            != Error::ForegroundAssertionFailed,
        _ => false,
    }
}

/// Whether at a stage another window than the target is known to have had
/// the focus at the start.
spec fn parted_from_focus(stage: Stage) -> bool {
    match stage {
        Stage::ObservingTarget => true,
        Stage::IdentifyingThread => true,
        Stage::JoiningForeground => true,
        _ => !quiet(stage),
    }
}

/// Whether the focus went back to the window that had it at the start, or
/// never left it.
pub open spec fn given_back(past: Seq<Exchange>, original: usize) -> bool {
    if handle_of(last_sighting(past)) == Some(original) {
        attempts(past, original) == 0
    } else {
        &&& attempts(past, original) == 1
        &&& past.len() > 0
        &&& past.last().request == Request::SetForeground(original)
    }
}

/// Whether a stage that winds the protocol down does so for a success, or for
/// a failure for want of effect: nothing else is wound down.
spec fn sound(stage: Stage) -> bool {
    match stage {
        Stage::Detaching(_, verdict) => verdict == ActivationOutcome::Activated || verdict
            == ActivationOutcome::Failed(Error::ForegroundAssertionFailed),
        Stage::ReadingForeground(Purpose::Exit(error)) => error == Error::ForegroundAssertionFailed,
        Stage::ReadingTaskbar(Purpose::Exit(error)) => error == Error::ForegroundAssertionFailed,
        Stage::RestoringOriginal(error) => error == Error::ForegroundAssertionFailed,
        _ => true,
    }
}

/// What holds of the steps of a history, at the state it led to.
spec fn ranked(s: Protocol, past: Seq<Exchange>) -> bool {
    let target = s.target.handle;
    &&& sound(s.stage)
    &&& in_order(past, target)
    &&& forall|index: int|
        0 <= index < past.len() ==> step_of((#[trigger] past[index]).request, target) <= level(
            s.stage,
        )
    &&& quiet(s.stage) ==> untouched(past)
    &&& parted_from_focus(s.stage) ==> s.original.handle != target
}

/// What holds of the attempts of a history, at the state it led to.
spec fn paced(s: Protocol, past: Seq<Exchange>) -> bool {
    let target = s.target.handle;
    let count = past.len() as int;
    &&& settled(past, target)
    &&& if s.stage == Stage::Settling {
        count >= 1 && past[count - 1].request == Request::SetForeground(target)
    } else {
        count >= 1 ==> past[count - 1].request != Request::SetForeground(target)
    }
    &&& if s.stage == Stage::ReadingForeground(Purpose::Attempt) {
        &&& count >= 2
        &&& past[count - 2].request == Request::SetForeground(target)
        &&& past[count - 1].request == Request::Settle(SLEEP_DURATION)
    } else {
        count >= 2 ==> past[count - 2].request != Request::SetForeground(target)
    }
}

/// What holds of the window that had the focus at the start, at the state a
/// history led to.
spec fn minded(s: Protocol, past: Seq<Exchange>) -> bool {
    match s.stage {
        Stage::RestoringOriginal(_) => {
            &&& handle_of(last_sighting(past)) != Some(s.original.handle)
            &&& attempts(past, s.original.handle) == 0
        },
        Stage::Finished(ActivationOutcome::Failed(Error::ForegroundAssertionFailed)) => given_back(
            past,
            s.original.handle,
        ),
        _ => parted_from_focus(s.stage) ==> attempts(past, s.original.handle) == 0,
    }
}

/// A history of reads belongs to no step, whatever the target.
proof fn lemma_untouched_is_orderly(past: Seq<Exchange>, target: usize)
    requires
        untouched(past),
    ensures
        forall|index: int|
            0 <= index < past.len() ==> step_of((#[trigger] past[index]).request, target) == 0,
        forall|index: int|
            0 <= index < past.len() ==> (#[trigger] past[index]).request != Request::SetForeground(
                target,
            ),
        attempts(past, target) == 0,
        in_order(past, target),
        settled(past, target),
    decreases past.len(),
{
    assert forall|index: int| 0 <= index < past.len() implies step_of(
        (#[trigger] past[index]).request,
        target,
    ) == 0 && past[index].request != Request::SetForeground(target) by {
        assert(reads_only(past[index].request));
    }
    if past.len() > 0 {
        assert forall|index: int| 0 <= index < past.drop_last().len() implies reads_only(
            #[trigger] past.drop_last()[index].request,
        ) by {
            assert(past.drop_last()[index] == past[index]);
        }
        lemma_untouched_is_orderly(past.drop_last(), target);
    }
}

/// A request of the latest step so far, or of a later one, or of none, keeps
/// the steps of a history in order.
proof fn lemma_push_in_order(past: Seq<Exchange>, exchange: Exchange, target: usize, bound: nat)
    requires
        in_order(past, target),
        forall|index: int|
            0 <= index < past.len() ==> step_of((#[trigger] past[index]).request, target) <= bound,
        step_of(exchange.request, target) == 0 || bound <= step_of(exchange.request, target),
    ensures
        in_order(past.push(exchange), target),
        forall|index: int|
            0 <= index < past.len() + 1 ==> step_of(
                (#[trigger] past.push(exchange)[index]).request,
                target,
            ) <= if bound <= step_of(exchange.request, target) {
                step_of(exchange.request, target)
            } else {
                bound
            },
{
    let longer = past.push(exchange);
    assert forall|earlier: int, later: int|
        0 <= earlier < later < longer.len() && step_of(
            (#[trigger] longer[later]).request,
            target,
        ) > 0 implies step_of((#[trigger] longer[earlier]).request, target) <= step_of(
        longer[later].request,
        target,
    ) by {
        assert(longer[earlier] == past[earlier]);
        if later < past.len() {
            assert(longer[later] == past[later]);
        }
    }
    assert forall|index: int| 0 <= index < past.len() + 1 implies step_of(
        (#[trigger] longer[index]).request,
        target,
    ) <= if bound <= step_of(exchange.request, target) {
        step_of(exchange.request, target)
    } else {
        bound
    } by {
        if index < past.len() {
            assert(longer[index] == past[index]);
        }
    }
}

/// A request that is the wait after a request for the foreground, or the
/// reading after the wait, or that follows neither, keeps the attempts of a
/// history settled.
proof fn lemma_push_settled(past: Seq<Exchange>, exchange: Exchange, target: usize)
    requires
        settled(past, target),
        past.len() >= 1 && past[past.len() - 1].request == Request::SetForeground(target)
            ==> exchange.request == Request::Settle(SLEEP_DURATION),
        past.len() >= 2 && past[past.len() - 2].request == Request::SetForeground(target)
            ==> exchange.request == Request::ForegroundWindow,
    ensures
        settled(past.push(exchange), target),
{
    let longer = past.push(exchange);
    assert forall|index: int|
        0 <= index < longer.len() && (#[trigger] longer[index]).request == Request::SetForeground(
            target,
        ) implies {
        &&& index + 1 < longer.len() ==> longer[index + 1].request == Request::Settle(
            SLEEP_DURATION,
        )
        &&& index + 2 < longer.len() ==> longer[index + 2].request == Request::ForegroundWindow
    } by {
        if index < past.len() {
            assert(longer[index] == past[index]);
            if index + 1 < past.len() {
                assert(longer[index + 1] == past[index + 1]);
            }
            if index + 2 < past.len() {
                assert(longer[index + 2] == past[index + 2]);
            }
        }
    }
}

/// How a reply moves the protocol from stage to stage.
proof fn lemma_stages(s: Protocol, reply: Reply)
    requires
        sound(s.stage),
        parted_from_focus(s.stage) ==> s.original.handle != s.target.handle,
    ensures
        ({
            let next = advance(s, reply);
            &&& sound(next.stage)
            &&& quiet(next.stage) ==> quiet(s.stage)
            &&& parted_from_focus(next.stage) ==> next.original.handle != next.target.handle
            &&& parted_from_focus(s.stage) ==> next.original.handle == s.original.handle
            &&& s.stage != Stage::Enumerating ==> next.target.handle == s.target.handle
            &&& level(s.stage) <= level(next.stage)
            &&& match outlook(s) {
                Step::Perform(request) => {
                    &&& step_of(request, next.target.handle) <= level(next.stage)
                    &&& step_of(request, next.target.handle) > 0 ==> level(s.stage) <= step_of(
                        request,
                        next.target.handle,
                    )
                    &&& quiet(next.stage) ==> reads_only(request)
                    &&& s.stage == Stage::Settling <==> request == Request::Settle(SLEEP_DURATION)
                    &&& s.stage == Stage::Asserting <==> request == Request::SetForeground(
                        next.target.handle,
                    )
                    &&& s.stage is ReadingForeground <==> request == Request::ForegroundWindow
                    &&& s.stage is RestoringOriginal <==> request == Request::SetForeground(
                        next.original.handle,
                    )
                },
                Step::Finished(_) => next == s,
            }
            &&& next.stage == Stage::Settling <==> s.stage == Stage::Asserting
            &&& next.stage == Stage::ReadingForeground(Purpose::Attempt) <==> s.stage
                == Stage::Settling
        }),
{
}

/// One reply keeps the steps of a history in order.
proof fn lemma_step_ranked(s: Protocol, past: Seq<Exchange>, reply: Reply)
    requires
        ranked(s, past),
    ensures
        ranked(advance(s, reply), extended(past, s, reply)),
{
    let next = advance(s, reply);
    let target = next.target.handle;
    lemma_stages(s, reply);
    if quiet(s.stage) {
        lemma_untouched_is_orderly(past, target);
    }
    match outlook(s) {
        Step::Perform(request) => {
            let exchange = Exchange { request, reply };
            lemma_tallies_push(past, exchange, target);
            lemma_push_in_order(past, exchange, target, level(s.stage));
        },
        Step::Finished(_) => {},
    }
}

/// One reply keeps the attempts of a history settled.
proof fn lemma_step_paced(s: Protocol, past: Seq<Exchange>, reply: Reply)
    requires
        ranked(s, past),
        paced(s, past),
    ensures
        paced(advance(s, reply), extended(past, s, reply)),
{
    let next = advance(s, reply);
    let target = next.target.handle;
    lemma_stages(s, reply);
    if quiet(s.stage) {
        lemma_untouched_is_orderly(past, target);
    }
    match outlook(s) {
        Step::Perform(request) => {
            let exchange = Exchange { request, reply };
            let longer = past.push(exchange);
            lemma_push_settled(past, exchange, target);
            assert(longer[past.len() as int] == exchange);
            if past.len() >= 1 {
                assert(longer[past.len() - 1] == past[past.len() - 1]);
            }
        },
        Step::Finished(_) => {},
    }
}

/// One reply keeps the account of the window that had the focus.
proof fn lemma_step_minded(s: Protocol, past: Seq<Exchange>, reply: Reply)
    requires
        ranked(s, past),
        minded(s, past),
    ensures
        minded(advance(s, reply), extended(past, s, reply)),
{
    let next = advance(s, reply);
    let original = next.original.handle;
    lemma_stages(s, reply);
    if quiet(s.stage) {
        lemma_untouched_is_orderly(past, original);
    }
    match outlook(s) {
        Step::Perform(request) => {
            let exchange = Exchange { request, reply };
            let longer = past.push(exchange);
            lemma_tallies_push(past, exchange, original);
            assert(longer.last() == exchange);
        },
        Step::Finished(_) => {},
    }
}

/// How many times the window `handle` was restored.
pub open spec fn restores(past: Seq<Exchange>, handle: usize) -> nat
    decreases past.len(),
{
    if past.len() == 0 {
        0
    } else {
        let earlier = restores(past.drop_last(), handle);
        if past.last().request == Request::Restore(handle) {
            earlier + 1
        } else {
            earlier
        }
    }
}

/// Whether a request to join two queues asks for the join `first`, and that
/// only if it is `allowed`, or for the join `second`. A request of another
/// kind asks for no join.
pub open spec fn joins_one_of(
    request: Request,
    first: AttachmentGuard,
    allowed: bool,
    second: AttachmentGuard,
) -> bool {
    match request {
        Request::Attach(guard) => allowed && guard == first || guard == second,
        _ => true,
    }
}

/// Whether every join a history asked for is one of two: the join `first`,
/// and that only if it is `allowed`, or the join `second`.
pub open spec fn joins_within(
    past: Seq<Exchange>,
    first: AttachmentGuard,
    allowed: bool,
    second: AttachmentGuard,
) -> bool {
    forall|index: int|
        0 <= index < past.len() ==> joins_one_of(
            (#[trigger] past[index]).request,
            first,
            allowed,
            second,
        )
}

/// Whether a request to join two queues asks for the join `only`, and that
/// only if it is `allowed`.
spec fn joins_the_one(request: Request, only: AttachmentGuard, allowed: bool) -> bool {
    match request {
        Request::Attach(guard) => allowed && guard == only,
        _ => true,
    }
}

/// Whether every join a history asked for is the join `only`, and that only
/// if it is `allowed`.
spec fn joins_only(past: Seq<Exchange>, only: AttachmentGuard, allowed: bool) -> bool {
    forall|index: int|
        0 <= index < past.len() ==> joins_the_one((#[trigger] past[index]).request, only, allowed)
}

/// What holds of the joins and of the restoring of the target, at the state a
/// history led to.
spec fn prepared(s: Protocol, past: Seq<Exchange>) -> bool {
    let restored = restores(past, s.target.handle);
    match s.stage {
        Stage::JoiningForeground => !s.original.hung,
        Stage::JoiningTarget => {
            &&& joins_only(past, foreground_join(s), !s.original.hung)
            &&& restored == 0
        },
        Stage::Restoring => {
            &&& joins_within(past, foreground_join(s), !s.original.hung, target_join(s))
            &&& restored == 0
            &&& s.target.minimized
        },
        _ => !quiet(s.stage) ==> {
            &&& joins_within(past, foreground_join(s), !s.original.hung, target_join(s))
            &&& restored == if s.target.minimized {
                1nat
            } else {
                0nat
            }
        },
    }
}

/// What one more exchange adds to the restorings and the joins of a history.
proof fn lemma_push_prepared(
    past: Seq<Exchange>,
    exchange: Exchange,
    handle: usize,
    first: AttachmentGuard,
    allowed: bool,
    second: AttachmentGuard,
)
    ensures
        restores(past.push(exchange), handle) == if exchange.request == Request::Restore(handle) {
            restores(past, handle) + 1
        } else {
            restores(past, handle)
        },
        joins_within(past, first, allowed, second) && joins_one_of(
            exchange.request,
            first,
            allowed,
            second,
        ) ==> joins_within(past.push(exchange), first, allowed, second),
        joins_only(past, first, allowed) && joins_one_of(exchange.request, first, allowed, second)
            ==> joins_within(past.push(exchange), first, allowed, second),
        joins_only(past, first, allowed) && joins_the_one(exchange.request, first, allowed)
            ==> joins_only(past.push(exchange), first, allowed),
{
    let longer = past.push(exchange);
    assert(longer.drop_last() =~= past);
    assert(longer.last() == exchange);
    assert forall|index: int| 0 <= index < past.len() implies #[trigger] longer[index]
        == past[index] by {}
    assert(longer[past.len() as int] == exchange);
}

/// A history of reads asks for no join and restores nothing.
proof fn lemma_untouched_is_unprepared(
    past: Seq<Exchange>,
    handle: usize,
    only: AttachmentGuard,
    allowed: bool,
)
    requires
        untouched(past),
    ensures
        restores(past, handle) == 0,
        joins_only(past, only, allowed),
    decreases past.len(),
{
    assert forall|index: int| 0 <= index < past.len() implies joins_the_one(
        (#[trigger] past[index]).request,
        only,
        allowed,
    ) by {
        assert(reads_only(past[index].request));
    }
    if past.len() > 0 {
        assert(reads_only(past[past.len() - 1].request));
        assert forall|index: int| 0 <= index < past.drop_last().len() implies reads_only(
            #[trigger] past.drop_last()[index].request,
        ) by {
            assert(past.drop_last()[index] == past[index]);
        }
        lemma_untouched_is_unprepared(past.drop_last(), handle, only, allowed);
    }
}

/// What a reply leaves as it was, once the joining has begun.
proof fn lemma_frame(s: Protocol, reply: Reply)
    requires
        sound(s.stage),
    ensures
        ({
            let next = advance(s, reply);
            &&& s.stage == Stage::JoiningForeground || !quiet(s.stage) ==> {
                &&& next.original == s.original
                &&& next.current_thread == s.current_thread
                &&& next.target == s.target
                &&& !quiet(next.stage)
            }
            &&& next.stage == Stage::JoiningForeground ==> !next.original.hung
            &&& next.stage == Stage::JoiningForeground ==> s.stage == Stage::IdentifyingThread
            &&& next.stage == Stage::JoiningTarget ==> s.stage == Stage::IdentifyingThread
                || s.stage == Stage::JoiningForeground
            &&& next.stage == Stage::Restoring ==> s.stage == Stage::JoiningTarget
                && next.target.minimized
            &&& s.stage == Stage::JoiningTarget && next.stage != Stage::Restoring
                ==> !s.target.minimized
            &&& match outlook(s) {
                Step::Perform(Request::Attach(guard)) => if s.stage == Stage::JoiningForeground {
                    guard == foreground_join(s)
                } else {
                    s.stage == Stage::JoiningTarget && guard == target_join(s)
                },
                Step::Perform(Request::Restore(handle)) => s.stage == Stage::Restoring && handle
                    == s.target.handle,
                _ => true,
            }
        }),
{
}

/// One reply keeps the account of the joins and of the restoring.
proof fn lemma_step_prepared(s: Protocol, past: Seq<Exchange>, reply: Reply)
    requires
        ranked(s, past),
        prepared(s, past),
    ensures
        prepared(advance(s, reply), extended(past, s, reply)),
{
    let next = advance(s, reply);
    let first = foreground_join(next);
    let second = target_join(next);
    let allowed = !next.original.hung;
    lemma_stages(s, reply);
    lemma_frame(s, reply);
    if quiet(s.stage) {
        lemma_untouched_is_unprepared(past, next.target.handle, first, allowed);
    }
    match outlook(s) {
        Step::Perform(request) => {
            let exchange = Exchange { request, reply };
            lemma_push_prepared(past, exchange, next.target.handle, first, allowed, second);
        },
        Step::Finished(_) => {},
    }
}

/// Every state a protocol reaches from its start has an orderly history.
proof fn lemma_run_orderly(start: Protocol, replies: Seq<Reply>)
    requires
        initial(start),
    ensures
        ranked(run(start, replies), history(start, replies)),
        paced(run(start, replies), history(start, replies)),
        minded(run(start, replies), history(start, replies)),
        prepared(run(start, replies), history(start, replies)),
    decreases replies.len(),
{
    if replies.len() > 0 {
        let before = run(start, replies.drop_last());
        let past = history(start, replies.drop_last());
        lemma_run_orderly(start, replies.drop_last());
        lemma_step_ranked(before, past, replies.last());
        lemma_step_paced(before, past, replies.last());
        lemma_step_minded(before, past, replies.last());
        lemma_step_prepared(before, past, replies.last());
    }
}

/// The steps of an activation follow one another. First the input queues are
/// joined; then the target is restored, if it is minimized; then the desktop
/// is asked for the foreground; then the queues are parted; and only then is
/// the focus given back to the window that had it.
pub proof fn law_steps_follow_in_order(start: Protocol, replies: Seq<Reply>)
    requires
        initial(start),
    ensures
        in_order(history(start, replies), run(start, replies).target.handle),
{
    lemma_run_orderly(start, replies);
}

/// After every request for the foreground the desktop is given its time to
/// settle, and then the foreground window is read again.
pub proof fn law_attempt_is_settled_and_read(start: Protocol, replies: Seq<Reply>)
    requires
        initial(start),
    ensures
        settled(history(start, replies), run(start, replies).target.handle),
{
    lemma_run_orderly(start, replies);
}

/// An activation that has failed for want of effect leaves the focus where it
/// was. Either the window that had the focus at the start was last seen to
/// have it still, and was not touched; or the last thing the activation did
/// was to ask, once, for the focus to be given back to it.
pub proof fn law_focus_is_given_back(start: Protocol, replies: Seq<Reply>)
    requires
        initial(start),
        run(start, replies).stage == Stage::Finished(
            ActivationOutcome::Failed(Error::ForegroundAssertionFailed),
        ),
    ensures
        given_back(history(start, replies), run(start, replies).original.handle),
{
    lemma_run_orderly(start, replies);
}

/// The only input queues an activation asks to join are the caller's to the
/// foreground thread's, and the foreground thread's to the target's; and the
/// first of the two is not asked for where the foreground window is hung.
pub proof fn law_hung_foreground_is_not_joined(start: Protocol, replies: Seq<Reply>)
    requires
        initial(start),
    ensures
        joins_within(
            history(start, replies),
            foreground_join(run(start, replies)),
            !run(start, replies).original.hung,
            target_join(run(start, replies)),
        ),
{
    let end = run(start, replies);
    let past = history(start, replies);
    lemma_run_orderly(start, replies);
    if quiet(end.stage) {
        lemma_untouched_is_unprepared(past, 0, foreground_join(end), !end.original.hung);
    }
    if joins_only(past, foreground_join(end), !end.original.hung) {
        assert forall|index: int| 0 <= index < past.len() implies joins_one_of(
            (#[trigger] past[index]).request,
            foreground_join(end),
            !end.original.hung,
            target_join(end),
        ) by {}
    }
}

/// A target that was observed to be minimized is restored once, after the
/// joining of the queues and before the first request for the foreground; a
/// target that was not is never restored.
pub proof fn law_minimized_target_is_restored(start: Protocol, replies: Seq<Reply>)
    requires
        initial(start),
        attempts(history(start, replies), run(start, replies).target.handle) > 0,
    ensures
        restores(history(start, replies), run(start, replies).target.handle) == if run(
            start,
            replies,
        ).target.minimized {
            1nat
        } else {
            0nat
        },
        in_order(history(start, replies), run(start, replies).target.handle),
{
    let end = run(start, replies);
    let past = history(start, replies);
    lemma_run_orderly(start, replies);
    if quiet(end.stage) || end.stage == Stage::JoiningTarget || end.stage == Stage::Restoring {
        assert forall|index: int| 0 <= index < past.len() implies (
        #[trigger] past[index]).request != Request::SetForeground(end.target.handle) by {
            assert(step_of(past[index].request, end.target.handle) <= 1);
        }
        lemma_no_attempt(past, end.target.handle);
    }
}

/// A history that holds no request for the foreground of a window counts no
/// attempt on it.
proof fn lemma_no_attempt(past: Seq<Exchange>, handle: usize)
    requires
        forall|index: int|
            0 <= index < past.len() ==> (#[trigger] past[index]).request != Request::SetForeground(
                handle,
            ),
    ensures
        attempts(past, handle) == 0,
    decreases past.len(),
{
    if past.len() > 0 {
        assert(past[past.len() - 1].request != Request::SetForeground(handle));
        assert forall|index: int| 0 <= index < past.drop_last().len() implies (
        #[trigger] past.drop_last()[index]).request != Request::SetForeground(handle) by {
            assert(past.drop_last()[index] == past[index]);
        }
        lemma_no_attempt(past.drop_last(), handle);
    }
}

} // verus!
