//! What holds of every chord that is sent, whatever the desktop answers.

use crate::win32::activation::outlook;
use crate::win32::activation::run;
use crate::win32::activation::seeking;
use crate::win32::activation::Stage;
use crate::win32::activation_laws::budget;
use crate::win32::activation_laws::lemma_budget_decreases;
use crate::win32::chord_batch;
use crate::win32::chord_demand;
use crate::win32::course;
use crate::win32::deliver;
use crate::win32::demand;
use crate::win32::dispatching;
use crate::win32::keyboard;
use crate::win32::keyboard::first_unmappable;
use crate::win32::keyboard::first_unmappable_at;
use crate::win32::keyboard::keycode;
use crate::win32::keyboard::law_empty_chord_builds_nothing;
use crate::win32::keyboard::law_unmappable_key_fails_whole_chord;
use crate::win32::keyboard::lemma_first_unmappable_exists;
use crate::win32::keyboard::lemma_first_unmappable_unique;
use crate::win32::keyboard::scan_keycode;
use crate::win32::keyboard::unmappable_at;
use crate::win32::keyboard::InputEvent;
use crate::win32::keyboard::Phase;
use crate::win32::platform::scan_in;
use crate::win32::platform::Reply;
use crate::win32::platform::Request;
use crate::win32::platform::Step;
use crate::win32::unasked;
use crate::win32::window;
use crate::win32::window::ActivationOutcome;
use crate::win32::window::MAX_TRIES;
use crate::win32::Delivery;
use crate::win32::Demand;
use crate::win32::Error;
use crate::Key;
use vstd::prelude::*;

verus! {

/// What the sending asked for, and the reply it was given.
pub struct Dealing {
    pub demand: Demand,
    pub reply: Reply,
}

/// The dealings that took place while the replies were taken. Once the
/// sending has ended it asks for nothing, and a further reply adds no
/// dealing.
pub open spec fn record(start: Delivery, replies: Seq<Reply>) -> Seq<Dealing>
    decreases replies.len(),
{
    if replies.len() == 0 {
        Seq::empty()
    } else {
        let earlier = record(start, replies.drop_last());
        match demand(course(start, replies.drop_last())) {
            Demand::Finished(_) => earlier,
            asked => earlier.push(Dealing { demand: asked, reply: replies.last() }),
        }
    }
}

/// The batch of a chord holds two events for every key: in its first half the
/// presses, in its second half the releases, either half in the order of the
/// chord, and each event with the virtual-key code of its key. There is a
/// batch if and only if every key has a code.
pub proof fn law_batch_is_presses_then_releases(keys: Seq<Key>, layout: Map<u16, i16>)
    ensures
        chord_batch(keys, layout) is Ok <==> forall|index: int|
            0 <= index < keys.len() ==> (#[trigger] keycode(keys[index], layout)) is Ok,
        chord_batch(keys, layout) matches Ok(batch) ==> {
            &&& batch.len() == 2 * keys.len()
            &&& forall|index: int|
                0 <= index < keys.len() ==> #[trigger] batch[index] == (InputEvent {
                    code: keycode(keys[index], layout)->Ok_0,
                    phase: Phase::Press,
                })
            &&& forall|index: int|
                0 <= index < keys.len() ==> #[trigger] batch[keys.len() + index] == (InputEvent {
                    code: keycode(keys[index], layout)->Ok_0,
                    phase: Phase::Release,
                })
        },
{
    if exists|index: int| unmappable_at(keys, layout, index) {
        let bad = choose|index: int| unmappable_at(keys, layout, index);
        assert(keycode(keys[bad], layout) is Err);
    } else {
        assert forall|index: int| 0 <= index < keys.len() implies (#[trigger] keycode(
            keys[index],
            layout,
        )) is Ok by {
            assert(!unmappable_at(keys, layout, index));
        }
    }
}

/// The batch of a chord without keys is empty, and never an error.
pub proof fn law_empty_chord_has_empty_batch(layout: Map<u16, i16>)
    ensures
        chord_batch(Seq::<Key>::empty(), layout) == Ok::<
            Seq<InputEvent>,
            keyboard::Error,
        >(Seq::empty()),
{
    law_empty_chord_builds_nothing(Phase::Press, layout);
    law_empty_chord_builds_nothing(Phase::Release, layout);
    assert(Seq::<InputEvent>::empty() + Seq::<InputEvent>::empty() =~= Seq::<InputEvent>::empty());
}

/// A chord that holds a key without a virtual-key code has no batch: the
/// error is that of the first such key.
pub proof fn law_unmappable_key_leaves_no_batch(
    keys: Seq<Key>,
    layout: Map<u16, i16>,
    index: int,
)
    requires
        unmappable_at(keys, layout, index),
    ensures
        chord_batch(keys, layout) == Err::<Seq<InputEvent>, keyboard::Error>(
            keycode(keys[first_unmappable(keys, layout)], layout)->Err_0,
        ),
        first_unmappable_at(keys, layout, first_unmappable(keys, layout)),
{
    law_unmappable_key_fails_whole_chord(keys, Phase::Press, layout, index);
}

/// The batches that were handed to the desktop, in the order in which they
/// were handed over.
pub open spec fn submissions(past: Seq<Dealing>) -> Seq<Seq<InputEvent>>
    decreases past.len(),
{
    if past.len() == 0 {
        Seq::empty()
    } else {
        let earlier = submissions(past.drop_last());
        match past.last().demand {
            Demand::Submit(batch) => earlier.push(batch),
            _ => earlier,
        }
    }
}

/// What the keyboard layout answered: for every code unit it was asked about,
/// its latest answer.
pub open spec fn translations(past: Seq<Dealing>) -> Map<u16, i16>
    decreases past.len(),
{
    if past.len() == 0 {
        Map::empty()
    } else {
        let earlier = translations(past.drop_last());
        match past.last().demand {
            Demand::Perform(Request::Translate(unit)) => earlier.insert(
                unit,
                scan_in(past.last().reply),
            ),
            _ => earlier,
        }
    }
}

/// What one more dealing adds to the tallies of a record.
proof fn lemma_record_push(past: Seq<Dealing>, dealing: Dealing)
    ensures
        submissions(past.push(dealing)) == match dealing.demand {
            Demand::Submit(batch) => submissions(past).push(batch),
            _ => submissions(past),
        },
        translations(past.push(dealing)) == match dealing.demand {
            Demand::Perform(Request::Translate(unit)) => translations(past).insert(
                unit,
                scan_in(dealing.reply),
            ),
            _ => translations(past),
        },
{
    let longer = past.push(dealing);
    assert(longer.drop_last() =~= past);
    assert(longer.last() == dealing);
}

/// Whether the window of the chord is in the foreground: its activation has
/// ended, and did not fail.
pub open spec fn in_foreground(d: Delivery) -> bool {
    d.activation.stage == Stage::Finished(ActivationOutcome::Activated) || d.activation.stage
        == Stage::Finished(ActivationOutcome::AlreadyForeground)
}

/// What holds of the state of a sending together with the record that led to
/// it.
spec fn accounted(d: Delivery, past: Seq<Dealing>) -> bool {
    &&& d.layout == translations(past)
    &&& !in_foreground(d) ==> !d.submitted && d.layout == Map::<u16, i16>::empty()
    &&& if d.submitted {
        &&& chord_batch(d.keys, d.layout) matches Ok(batch)
        &&& submissions(past) == seq![batch]
    } else {
        submissions(past).len() == 0
    }
}

/// One reply keeps the state of a sending and its record in accord.
proof fn lemma_deliver_accounted(d: Delivery, past: Seq<Dealing>, reply: Reply)
    requires
        accounted(d, past),
    ensures
        accounted(
            deliver(d, reply),
            match demand(d) {
                Demand::Finished(_) => past,
                asked => past.push(Dealing { demand: asked, reply }),
            },
        ),
{
    let next = deliver(d, reply);
    match demand(d) {
        Demand::Finished(_) => {},
        asked => {
            lemma_record_push(past, Dealing { demand: asked, reply });
            match asked {
                Demand::Submit(batch) => {
                    assert(submissions(past) =~= Seq::<Seq<InputEvent>>::empty());
                    assert(submissions(past).push(batch) =~= seq![batch]);
                },
                _ => {},
            }
        },
    }
}

/// Every state a sending reaches is in accord with its record.
proof fn lemma_course_accounted(keys: Seq<Key>, process_id: u32, replies: Seq<Reply>)
    ensures
        accounted(
            course(dispatching(keys, process_id), replies),
            record(dispatching(keys, process_id), replies),
        ),
        course(dispatching(keys, process_id), replies).keys == keys,
        course(dispatching(keys, process_id), replies).activation == run(
            dispatching(keys, process_id).activation,
            replies,
        ),
    decreases replies.len(),
{
    let start = dispatching(keys, process_id);
    if replies.len() > 0 {
        lemma_course_accounted(keys, process_id, replies.drop_last());
        lemma_deliver_accounted(
            course(start, replies.drop_last()),
            record(start, replies.drop_last()),
            replies.last(),
        );
    }
}

/// The activation within a sending is the activation on its own: it takes
/// the replies until it has ended, and the chord is what it was.
pub proof fn law_sending_activates_first(keys: Seq<Key>, process_id: u32, replies: Seq<Reply>)
    ensures
        course(dispatching(keys, process_id), replies).keys == keys,
        course(dispatching(keys, process_id), replies).activation == run(
            seeking(process_id, MAX_TRIES),
            replies,
        ),
{
    lemma_course_accounted(keys, process_id, replies);
}

/// A chord is injected once or never, and whole or not at all. A sending that
/// ended well has handed the desktop one batch, the batch of the chord under
/// the answers of the layout; a sending that failed, or has not ended, has
/// handed over none. Nothing is handed over unless the window of the chord is
/// in the foreground.
pub proof fn law_chord_is_sent_whole_or_not_at_all(
    keys: Seq<Key>,
    process_id: u32,
    replies: Seq<Reply>,
)
    ensures
        ({
            let end = course(dispatching(keys, process_id), replies);
            let past = record(dispatching(keys, process_id), replies);
            &&& demand(end) == Demand::Finished(Ok(())) ==> {
                &&& in_foreground(end)
                &&& chord_batch(keys, end.layout) matches Ok(batch)
                &&& submissions(past) == seq![batch]
            }
            &&& demand(end) != Demand::Finished(Ok(())) ==> submissions(past).len() == 0
        }),
{
    lemma_course_accounted(keys, process_id, replies);
}

/// The codes of a chord's characters are the layout's own: what the sending
/// holds of the layout is what the desktop answered when it was asked, and
/// nothing else.
pub proof fn law_layout_is_what_was_answered(keys: Seq<Key>, process_id: u32, replies: Seq<Reply>)
    ensures
        course(dispatching(keys, process_id), replies).layout == translations(
            record(dispatching(keys, process_id), replies),
        ),
{
    lemma_course_accounted(keys, process_id, replies);
}

/// A failed activation fails the sending with the activation's own error.
pub proof fn law_activation_failure_is_passed_on(
    keys: Seq<Key>,
    process_id: u32,
    replies: Seq<Reply>,
    error: window::Error,
)
    requires
        run(seeking(process_id, MAX_TRIES), replies).stage
            == Stage::Finished(ActivationOutcome::Failed(error)),
    ensures
        demand(course(dispatching(keys, process_id), replies)) == Demand::Finished(
            Err(Error::Window { source: error }),
        ),
        submissions(record(dispatching(keys, process_id), replies)).len() == 0,
{
    lemma_course_accounted(keys, process_id, replies);
}

/// An answer for a code unit that the layout was not asked about before
/// changes the code of no key that had one.
proof fn lemma_answer_keeps_codes(key: Key, layout: Map<u16, i16>, unit: u16, scan: i16)
    requires
        keycode(key, layout) is Ok,
        !layout.dom().contains(unit),
    ensures
        keycode(key, layout.insert(unit, scan)) == keycode(key, layout),
{
}

/// The replies a sending can still take before it must have ended.
pub open spec fn ebb(d: Delivery) -> nat {
    match outlook(d.activation) {
        Step::Perform(_) => budget(d.activation) + d.keys.len() + 1,
        Step::Finished(_) => match demand(d) {
            Demand::Finished(_) => 0,
            Demand::Submit(_) => 1,
            Demand::Perform(_) => (d.keys.len() - first_unmappable(d.keys, d.layout) + 1) as nat,
        },
    }
}

/// What a chord wants, by the first of its keys that has no code.
proof fn lemma_chord_demand(keys: Seq<Key>, layout: Map<u16, i16>)
    ensures
        match chord_demand(keys, layout) {
            Demand::Submit(_) => forall|index: int| !unmappable_at(keys, layout, index),
            Demand::Perform(request) => {
                let first = first_unmappable(keys, layout);
                &&& first_unmappable_at(keys, layout, first)
                &&& keys[first] matches Key::Char(character)
                &&& unasked(character, layout) matches Some(unit)
                &&& request == Request::Translate(unit)
            },
            Demand::Finished(_) => true,
        },
{
    if exists|index: int| unmappable_at(keys, layout, index) {
        let bad = choose|index: int| unmappable_at(keys, layout, index);
        lemma_first_unmappable_exists(keys, layout, bad);
        let first = first_unmappable(keys, layout);
        assert(unmappable_at(keys, layout, first));
    }
}

/// Every reply brings the end of a sending nearer.
proof fn lemma_ebb_decreases(d: Delivery, reply: Reply)
    requires
        !(demand(d) is Finished),
    ensures
        ebb(deliver(d, reply)) < ebb(d),
{
    let next = deliver(d, reply);
    let keys = d.keys;
    match outlook(d.activation) {
        Step::Perform(_) => {
            lemma_budget_decreases(d.activation, reply);
            lemma_chord_demand(keys, next.layout);
            if next.activation.stage is Finished {
                match demand(next) {
                    Demand::Perform(_) => {
                        assert(0 <= first_unmappable(keys, next.layout));
                    },
                    _ => {},
                }
            }
        },
        Step::Finished(_) => {
            lemma_chord_demand(keys, d.layout);
            match demand(d) {
                Demand::Perform(Request::Translate(unit)) => {
                    let first = first_unmappable(keys, d.layout);
                    let answered = next.layout;
                    let character = keys[first]->Char_0;
                    assert(answered == d.layout.insert(unit, scan_in(reply)));
                    assert forall|earlier: int| 0 <= earlier < first implies !unmappable_at(
                        keys,
                        answered,
                        earlier,
                    ) by {
                        assert(!unmappable_at(keys, d.layout, earlier));
                        lemma_answer_keeps_codes(
                            keys[earlier],
                            d.layout,
                            unit,
                            scan_in(reply),
                        );
                    }
                    lemma_chord_demand(keys, answered);
                    if scan_keycode(scan_in(reply)) is None {
                        assert(first_unmappable_at(keys, answered, first));
                        lemma_first_unmappable_unique(
                            keys,
                            answered,
                            first,
                            first_unmappable(keys, answered),
                        );
                        assert(unmappable_at(keys, answered, first));
                        assert(unasked(character, answered) is None);
                    } else {
                        assert(!unmappable_at(keys, answered, first));
                        match demand(next) {
                            Demand::Perform(_) => {
                                let later = first_unmappable(keys, answered);
                                assert(unmappable_at(keys, answered, later));
                                if later < first {
                                    assert(!unmappable_at(keys, answered, later));
                                }
                            },
                            _ => {},
                        }
                    }
                },
                _ => {},
            }
        },
    }
}

proof fn lemma_course_ebb(start: Delivery, replies: Seq<Reply>)
    ensures
        demand(course(start, replies)) is Finished || ebb(course(start, replies)) + replies.len()
            <= ebb(start),
    decreases replies.len(),
{
    if replies.len() > 0 {
        let before = course(start, replies.drop_last());
        lemma_course_ebb(start, replies.drop_last());
        if !(demand(before) is Finished) {
            lemma_ebb_decreases(before, replies.last());
        }
    }
}

/// The sending of a chord ends, whatever the desktop answers: once it has
/// been given as many replies as an activation can take, one more for every
/// key, and one for the batch, it has ended.
pub proof fn law_sending_ends(keys: Seq<Key>, process_id: u32, replies: Seq<Reply>)
    requires
        replies.len() >= 4 * MAX_TRIES + 13 + keys.len() + 1,
    ensures
        demand(course(dispatching(keys, process_id), replies)) is Finished,
{
    let start = dispatching(keys, process_id);
    let end = course(start, replies);
    lemma_course_ebb(start, replies);
    assert(ebb(start) == 4 * MAX_TRIES + 13 + keys.len() + 1);
    if !(demand(end) is Finished) {
        lemma_chord_demand(end.keys, end.layout);
        assert(ebb(end) >= 1);
    }
}

} // verus!
