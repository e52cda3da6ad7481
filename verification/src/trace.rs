//! Runs of the connector: what it answers to a whole sequence of events,
//! and what holds of every such run.

use crate::backoff::{
    law_waits_never_shrink, lemma_advance_by_wf, lemma_advance_wf, lemma_waits_are_draws,
    BackoffModel,
};
use crate::connector::{
    answers, fatal_of, in_turn, ActionModel, ConnectorModel, EventModel, Fatal, Phase,
};
use crate::payload::{decode_bytes, PayloadModel};
use crate::sink::DeliveryOutcome;
use vstd::prelude::*;

verus! {

/// The state reached from `c` by the events, and the actions answered to
/// them, in order.
pub open spec fn run(c: ConnectorModel, events: Seq<EventModel>) -> (
    ConnectorModel,
    Seq<ActionModel>,
)
    decreases events.len(),
{
    if events.len() == 0 {
        (c, Seq::empty())
    } else {
        let first = c.step(events[0]);
        let rest = run(first.0, events.drop_first());
        (rest.0, seq![first.1] + rest.1)
    }
}

/// The waits of the sleeps among the actions, in order.
pub open spec fn sleeps(actions: Seq<ActionModel>) -> Seq<nat>
    decreases actions.len(),
{
    if actions.len() == 0 {
        Seq::empty()
    } else {
        let rest = sleeps(actions.drop_first());
        match actions[0] {
            ActionModel::Sleep { millis } => seq![millis] + rest,
            _ => rest,
        }
    }
}

/// The records handed to the sink among the actions, in order.
pub open spec fn deliveries(actions: Seq<ActionModel>) -> Seq<PayloadModel>
    decreases actions.len(),
{
    if actions.len() == 0 {
        Seq::empty()
    } else {
        let rest = deliveries(actions.drop_first());
        match actions[0] {
            ActionModel::Deliver(payload) => seq![payload] + rest,
            _ => rest,
        }
    }
}

/// What the caller reports when `n` connection attempts in a row fail: it
/// resumes, and the attempt fails, `n` times over.
pub open spec fn failed_attempts(n: nat) -> Seq<EventModel>
    decreases n,
{
    if n == 0 {
        Seq::empty()
    } else {
        seq![EventModel::Resume] + (seq![EventModel::ConnectFailed] + failed_attempts(
            (n - 1) as nat,
        ))
    }
}

/// What the caller reports when it resumes `n` times in a row.
pub open spec fn resumes(n: nat) -> Seq<EventModel>
    decreases n,
{
    if n == 0 {
        Seq::empty()
    } else {
        seq![EventModel::Resume] + resumes((n - 1) as nat)
    }
}

/// `SkipSleep`, `n` times.
pub open spec fn skips(n: nat) -> Seq<ActionModel>
    decreases n,
{
    if n == 0 {
        Seq::empty()
    } else {
        seq![ActionModel::SkipSleep] + skips((n - 1) as nat)
    }
}

/// What the caller reports after it has pulled an item and carried out the
/// action answered to it: the outcome of the delivery where the item was a
/// record, and nothing where it was not.
pub open spec fn after_item(bytes: Seq<u8>, outcome: DeliveryOutcome) -> EventModel {
    if decode_bytes(bytes) is Ok {
        EventModel::DeliveryReturned(outcome)
    } else {
        EventModel::Resume
    }
}

/// What the caller reports while the stream hands out `items` one after
/// the other and the deliveries end with `outcomes`.
pub open spec fn item_events(items: Seq<Seq<u8>>, outcomes: Seq<DeliveryOutcome>) -> Seq<
    EventModel,
>
    decreases items.len(),
{
    if items.len() == 0 {
        Seq::empty()
    } else {
        seq![EventModel::Item(items[0])] + (seq![after_item(items[0], outcomes[0])] + item_events(
            items.drop_first(),
            outcomes.drop_first(),
        ))
    }
}

/// The records among the items, in the order of the items.
pub open spec fn records(items: Seq<Seq<u8>>) -> Seq<PayloadModel>
    decreases items.len(),
{
    if items.len() == 0 {
        Seq::empty()
    } else {
        let rest = records(items.drop_first());
        match decode_bytes(items[0]) {
            Ok(payload) => seq![payload] + rest,
            Err(_) => rest,
        }
    }
}

/// A run over an event followed by others is one step and then the run
/// over the others.
pub proof fn lemma_run_first(c: ConnectorModel, event: EventModel, others: Seq<EventModel>)
    ensures
        run(c, seq![event] + others) == (
            run(c.step(event).0, others).0,
            seq![c.step(event).1] + run(c.step(event).0, others).1,
        ),
{
    let events = seq![event] + others;
    assert(events[0] == event);
    assert(events.drop_first() =~= others);
}

/// The sleeps of an action followed by others.
pub proof fn lemma_sleeps_first(action: ActionModel, others: Seq<ActionModel>)
    ensures
        sleeps(seq![action] + others) == match action {
            ActionModel::Sleep { millis } => seq![millis] + sleeps(others),
            _ => sleeps(others),
        },
{
    let actions = seq![action] + others;
    assert(actions[0] == action);
    assert(actions.drop_first() =~= others);
}

/// The deliveries of an action followed by others.
pub proof fn lemma_deliveries_first(action: ActionModel, others: Seq<ActionModel>)
    ensures
        deliveries(seq![action] + others) == match action {
            ActionModel::Deliver(payload) => seq![payload] + deliveries(others),
            _ => deliveries(others),
        },
{
    let actions = seq![action] + others;
    assert(actions[0] == action);
    assert(actions.drop_first() =~= others);
}

/// While the waits stay below the ceiling, `n` failed connection attempts
/// in a row lead to exactly `n` sleeps. Their waits are the first `n` waits
/// of the backoff policy, so none is shorter than the one before it, and
/// the connector is left without a connection, its policy `n` draws on.
pub proof fn law_failures_sleep_longer_each_time(c: ConnectorModel, n: nat)
    requires
        c.wf(),
        c.phase == (Phase::Reconnecting { attempt: None }),
        forall|k: nat| k < n ==> c.backoff.nth_wait(k) < c.backoff.max,
    ensures
        sleeps(run(c, failed_attempts(n)).1) == c.backoff.waits(n),
        c.backoff.waits(n).len() == n,
        forall|k: int| 0 <= k < n ==> #[trigger] c.backoff.waits(n)[k] == c.backoff.nth_wait(k as nat),
        forall|j: int, k: int|
            0 <= j <= k < n ==> c.backoff.waits(n)[j] <= c.backoff.waits(n)[k],
        run(c, failed_attempts(n)).0 == (ConnectorModel {
            phase: Phase::Reconnecting { attempt: None },
            backoff: c.backoff.advance_by(n),
        }),
    decreases n,
{
    lemma_waits_are_draws(c.backoff, n);
    assert forall|j: int, k: int| 0 <= j <= k < n implies c.backoff.waits(n)[j]
        <= c.backoff.waits(n)[k] by {
        law_waits_never_shrink(c.backoff, j as nat, k as nat);
    }
    if n > 0 {
        let wait = c.backoff.wait;
        assert(c.backoff.nth_wait(0) == wait);
        assert(!c.backoff.capped());
        lemma_advance_wf(c.backoff);
        let trying = c.step(EventModel::Resume).0;
        let idle = trying.step(EventModel::ConnectFailed).0;
        assert(c.step(EventModel::Resume).1 == ActionModel::Connect);
        assert(trying.step(EventModel::ConnectFailed).1 == (ActionModel::Sleep { millis: wait }));
        assert(idle == (ConnectorModel {
            phase: Phase::Reconnecting { attempt: None },
            backoff: c.backoff.advance(),
        }));
        let later = failed_attempts((n - 1) as nat);
        assert forall|k: nat| k < (n - 1) as nat implies idle.backoff.nth_wait(k)
            < idle.backoff.max by {
            assert(c.backoff.nth_wait(k + 1) == idle.backoff.nth_wait(k));
        }
        law_failures_sleep_longer_each_time(idle, (n - 1) as nat);
        lemma_run_first(c, EventModel::Resume, seq![EventModel::ConnectFailed] + later);
        lemma_run_first(trying, EventModel::ConnectFailed, later);
        let tail = run(idle, later).1;
        lemma_sleeps_first(ActionModel::Connect, seq![ActionModel::Sleep { millis: wait }] + tail);
        lemma_sleeps_first(ActionModel::Sleep { millis: wait }, tail);
        assert(c.backoff.advance_by(n) == c.backoff.advance().advance_by((n - 1) as nat));
    }
}

/// Once the wait has reached the ceiling the connector neither sleeps nor
/// tries to connect: however often it is resumed, it answers `SkipSleep`
/// and stays as it is.
pub proof fn law_no_sleep_at_the_ceiling(c: ConnectorModel, n: nat)
    requires
        c.wf(),
        c.phase == (Phase::Reconnecting { attempt: None }),
        c.backoff.capped(),
    ensures
        run(c, resumes(n)) == (c, skips(n)),
        sleeps(skips(n)) == Seq::<nat>::empty(),
    decreases n,
{
    if n > 0 {
        law_no_sleep_at_the_ceiling(c, (n - 1) as nat);
        lemma_run_first(c, EventModel::Resume, resumes((n - 1) as nat));
        lemma_sleeps_first(ActionModel::SkipSleep, skips((n - 1) as nat));
    }
}

/// The wait reaches the ceiling for good: when one draw hands out the
/// ceiling, so does every later one.
pub proof fn law_ceiling_is_final(m: BackoffModel, j: nat, k: nat)
    requires
        m.wf(),
        j <= k,
        m.nth_wait(j) >= m.max,
    ensures
        m.nth_wait(k) == m.max,
{
    law_waits_never_shrink(m, j, k);
    lemma_advance_by_wf(m, k);
}

/// A successful connection returns the wait to the floor and leaves the
/// connector connected, about to pull.
pub proof fn law_connect_resets_backoff(c: ConnectorModel, wait: u64)
    requires
        c.wf(),
        c.phase == (Phase::Reconnecting { attempt: Some(wait) }),
    ensures
        c.step(EventModel::ConnectSucceeded).0.backoff.wait == c.backoff.min,
        c.step(EventModel::ConnectSucceeded).0.backoff == BackoffModel::fresh(
            c.backoff.min,
            c.backoff.factor,
            c.backoff.max,
        ),
        c.step(EventModel::ConnectSucceeded).0.phase == (Phase::Connected { delivering: false }),
        c.step(EventModel::ConnectSucceeded).1 == ActionModel::Pull,
{
}

/// An item that is no record changes nothing: the connection stays, the
/// backoff policy stays, and the answer is to skip the item.
pub proof fn law_decode_failure_changes_nothing(c: ConnectorModel, bytes: Seq<u8>)
    requires
        c.phase == (Phase::Connected { delivering: false }),
        decode_bytes(bytes) is Err,
    ensures
        c.step(EventModel::Item(bytes)).0 == c,
        c.step(EventModel::Item(bytes)).1 == ActionModel::SkipRecord(decode_bytes(bytes)->Err_0),
        c.step(EventModel::Item(bytes)).0.step(EventModel::Resume) == (c, ActionModel::Pull),
{
}

/// The records reach the sink in the order in which the stream hands them
/// out: over any items and any outcomes of the deliveries, the records
/// handed to the sink are the records among the items, none left out, none
/// twice, none out of place. The connection and the backoff policy are
/// after it as they were before.
pub proof fn law_records_delivered_in_order(
    c: ConnectorModel,
    items: Seq<Seq<u8>>,
    outcomes: Seq<DeliveryOutcome>,
)
    requires
        c.phase == (Phase::Connected { delivering: false }),
        outcomes.len() == items.len(),
    ensures
        deliveries(run(c, item_events(items, outcomes)).1) == records(items),
        run(c, item_events(items, outcomes)).0 == c,
    decreases items.len(),
{
    if items.len() > 0 {
        let bytes = items[0];
        let reply = after_item(bytes, outcomes[0]);
        let later = item_events(items.drop_first(), outcomes.drop_first());
        let taken = c.step(EventModel::Item(bytes));
        let back = taken.0.step(reply);
        assert(back.0 == c);
        assert(back.1 == ActionModel::Pull);
        law_records_delivered_in_order(c, items.drop_first(), outcomes.drop_first());
        lemma_run_first(c, EventModel::Item(bytes), seq![reply] + later);
        lemma_run_first(taken.0, reply, later);
        let tail = run(c, later).1;
        lemma_deliveries_first(taken.1, seq![ActionModel::Pull] + tail);
        lemma_deliveries_first(ActionModel::Pull, tail);
    }
}

/// Whether the caller keeps its turn through all the events: each is one
/// that the connector can take in the phase in which it arrives.
pub open spec fn in_dialogue(c: ConnectorModel, events: Seq<EventModel>) -> bool
    decreases events.len(),
{
    events.len() == 0 || (in_turn(c.phase, events[0]) && in_dialogue(
        c.step(events[0]).0,
        events.drop_first(),
    ))
}

/// A step keeps the backoff policy well-formed.
pub proof fn lemma_step_keeps_wf(c: ConnectorModel, event: EventModel)
    requires
        c.wf(),
    ensures
        c.step(event).0.wf(),
{
    lemma_advance_wf(c.backoff);
}

/// A caller that answers each action with an event that can follow it is
/// never out of turn: whatever the connector was told before, an event that
/// answers the action it gave is one that its new phase takes. The first
/// event of all, `Resume`, is in turn at the start.
pub proof fn law_answers_are_in_turn(c: ConnectorModel, event: EventModel, answer: EventModel)
    requires
        answers(c.step(event).1, answer),
    ensures
        in_turn(c.step(event).0.phase, answer),
        c.step(event).0.step(answer).0.phase != Phase::Terminated(Fatal::OutOfTurn),
        forall|backoff: BackoffModel|
            in_turn(#[trigger] ConnectorModel::initial(backoff).phase, EventModel::Resume),
{
}

/// For a caller that keeps its turn, an event ends the connector with an
/// error exactly when it reports unusable settings, a failure of the stream
/// or a failure of the delivery call, and the error says which. No
/// connection failure, no item that is no record and no rejection by the
/// service does.
pub proof fn law_fatal_exactly_on_fatal_events(c: ConnectorModel, event: EventModel)
    requires
        c.wf(),
        in_turn(c.phase, event),
    ensures
        c.step(event).0.phase is Terminated <==> fatal_of(event) is Some,
        fatal_of(event) matches Some(fatal) ==> c.step(event) == c.halted(fatal),
        c.step(event).0.phase is Finished <==> event is SourceClosed,
{
}

/// Over a whole dialogue the connector ends with an error only through its
/// last event, and then with the error of that event.
pub proof fn law_dialogue_ends_only_on_fatal_events(c: ConnectorModel, events: Seq<EventModel>)
    requires
        c.wf(),
        in_dialogue(c, events),
    ensures
        run(c, events).0.wf(),
        events.len() == 0 ==> run(c, events).0 == c,
        events.len() > 0 ==> (run(c, events).0.phase is Terminated <==> fatal_of(events.last())
            is Some),
        events.len() > 0 ==> (fatal_of(events.last()) matches Some(fatal) ==> run(
            c,
            events,
        ).0.phase == Phase::Terminated(fatal)),
    decreases events.len(),
{
    if events.len() > 0 {
        let next = c.step(events[0]).0;
        let later = events.drop_first();
        lemma_step_keeps_wf(c, events[0]);
        law_fatal_exactly_on_fatal_events(c, events[0]);
        law_dialogue_ends_only_on_fatal_events(next, later);
        if later.len() > 0 {
            assert(later.last() == events.last());
        }
    }
}

} // verus!
