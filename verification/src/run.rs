//! Whole runs of a session: what holds of the actions that a session asks
//! for, whatever the events are that a driver answers with.

use vstd::prelude::*;
use crate::codec::{request_frame, FRAME_LEN};
use crate::config::ConfigurationView;
use crate::decimal::decimal_digits;
use crate::error::AcquisitionError;
use crate::hooks::{
    begun, hook_names, lemma_every_hook_runs_once, pending_hook, recorded_all, sorted_plan,
    HookEntryView, HookExitView,
};
use crate::session::{
    advanced, exit_of, start_view, step_view, ActionView, EventView, SessionView, SETTLE_MS,
};

verus! {

/// The state in which a session is after a run of events.
pub open spec fn run_state(from: SessionView, events: Seq<EventView>) -> SessionView
    decreases events.len(),
{
    if events.len() == 0 {
        from
    } else {
        step_view(run_state(from, events.drop_last()), events.last()).0
    }
}

/// The actions with which a session answers a run of events, one for each.
pub open spec fn run_actions(from: SessionView, events: Seq<EventView>) -> Seq<ActionView>
    decreases events.len(),
{
    if events.len() == 0 {
        Seq::empty()
    } else {
        run_actions(from, events.drop_last()).push(
            step_view(run_state(from, events.drop_last()), events.last()).1,
        )
    }
}

/// The state of a session that was started from a configuration and has
/// taken a run of events.
pub open spec fn state_after(config: ConfigurationView, events: Seq<EventView>) -> SessionView {
    run_state(start_view(config).0, events)
}

/// All actions of a session that was started from a configuration and has
/// taken a run of events: the first action, then one for each event. The
/// event at place `i` answers the action at place `i`.
pub open spec fn actions_of(config: ConfigurationView, events: Seq<EventView>) -> Seq<ActionView> {
    seq![start_view(config).1] + run_actions(start_view(config).0, events)
}

/// Whether a state holds the serial port open.
pub open spec fn holds_port(session: SessionView) -> bool {
    session is Flushing || session is Writing || session is Settling || session is Reading
        || session is Closing
}

/// Whether the serial port is open after a run of events, by the actions
/// that were answered: it is open from an `OpenPort` that was answered
/// with `Done` until a `ClosePort` is answered.
pub open spec fn port_held(config: ConfigurationView, events: Seq<EventView>) -> bool
    decreases events.len(),
{
    if events.len() == 0 {
        false
    } else {
        let before = events.drop_last();
        match actions_of(config, before).last() {
            ActionView::OpenPort { .. } => events.last() is Done,
            ActionView::ClosePort => false,
            _ => port_held(config, before),
        }
    }
}

/// Whether an action is the one that a state waits for the answer to.
pub open spec fn awaits(session: SessionView, action: ActionView) -> bool {
    match session {
        SessionView::Opening => action is OpenPort,
        SessionView::Flushing => action is FlushPort,
        SessionView::Writing => action == (ActionView::WritePort { bytes: request_frame() }),
        SessionView::Settling => action == (ActionView::Settle { millis: SETTLE_MS }),
        SessionView::Reading => action == (ActionView::ReadPort { len: FRAME_LEN }),
        SessionView::Closing { .. } => action is ClosePort,
        SessionView::Requesting { .. } => action is HttpGet,
        SessionView::Listing { .. } => action is ListHooks,
        SessionView::Dispatching { dispatcher } => action matches ActionView::RunHook {
            name,
            argument,
        } && pending_hook(dispatcher) == Some((name, argument)),
        SessionView::Finished { result, .. } => action == (ActionView::Finish { result }),
    }
}

/// The beginning of a run is the run of the beginning of the events.
pub proof fn lemma_run_prefix(from: SessionView, events: Seq<EventView>, k: int)
    requires
        0 <= k <= events.len(),
    ensures
        run_actions(from, events).len() == events.len(),
        run_actions(from, events.take(k)) == run_actions(from, events).take(k),
    decreases events.len(),
{
    if events.len() == 0 {
        assert(events.take(k) =~= events);
        assert(run_actions(from, events).take(k) =~= run_actions(from, events));
    } else {
        lemma_run_prefix(from, events.drop_last(), events.len() - 1);
        if k == events.len() {
            assert(events.take(k) =~= events);
            assert(run_actions(from, events).take(k) =~= run_actions(from, events));
        } else {
            lemma_run_prefix(from, events.drop_last(), k);
            assert(events.drop_last().take(k) =~= events.take(k));
            assert(run_actions(from, events).take(k) =~= run_actions(from, events.drop_last()).take(
                k,
            ));
        }
    }
}

/// The action at a place of a run is the last action of the run that ends
/// there.
pub proof fn lemma_action_at(config: ConfigurationView, events: Seq<EventView>, i: int)
    requires
        0 <= i <= events.len(),
    ensures
        actions_of(config, events).len() == events.len() + 1,
        actions_of(config, events.take(i)).len() == i + 1,
        actions_of(config, events.take(i)) == actions_of(config, events).take(i + 1),
        actions_of(config, events)[i] == actions_of(config, events.take(i)).last(),
{
    let from = start_view(config).0;
    lemma_run_prefix(from, events, i);
    lemma_run_prefix(from, events.take(i), i);
    assert(actions_of(config, events.take(i)) =~= actions_of(config, events).take(i + 1));
}

/// What holds of a session and its actions after every run.
proof fn lemma_run_invariant(config: ConfigurationView, events: Seq<EventView>)
    ensures
        ({
            let state = state_after(config, events);
            let actions = actions_of(config, events);
            let n = actions.len() as int;
            &&& n == events.len() + 1
            &&& awaits(state, actions.last())
            &&& state is Opening ==> events.len() == 0
            &&& state is Settling ==> n >= 2 && actions[n - 2] == (ActionView::WritePort {
                bytes: request_frame(),
            })
            &&& state is Reading ==> n >= 3 && actions[n - 3] == (ActionView::WritePort {
                bytes: request_frame(),
            }) && actions[n - 2] == (ActionView::Settle { millis: SETTLE_MS })
            &&& config is Serial ==> !(state is Requesting)
            &&& config is HttpGet ==> !holds_port(state) && !(state is Opening)
            &&& port_held(config, events) == holds_port(state)
        }),
    decreases events.len(),
{
    let from = start_view(config).0;
    lemma_run_prefix(from, events, 0);
    if events.len() > 0 {
        let before = events.drop_last();
        lemma_run_invariant(config, before);
        lemma_run_prefix(from, before, 0);
        let earlier = actions_of(config, before);
        let actions = actions_of(config, events);
        assert(actions =~= earlier.push(step_view(state_after(config, before), events.last()).1));
    }
}

/// The request frame goes out before any read, and nothing else is ever
/// written: an action that reads from the port is the third of three, of
/// which the first writes the request frame and the second lets the
/// sensor settle; it asks for one frame; and every write carries the
/// request frame.
pub proof fn lemma_request_precedes_read(
    config: ConfigurationView,
    events: Seq<EventView>,
    i: int,
)
    requires
        0 <= i <= events.len(),
    ensures
        ({
            let actions = actions_of(config, events);
            &&& actions[i] is ReadPort ==> i >= 2 && actions[i - 2] == (ActionView::WritePort {
                bytes: request_frame(),
            }) && actions[i - 1] == (ActionView::Settle { millis: SETTLE_MS }) && actions[i] == (
            ActionView::ReadPort { len: FRAME_LEN })
            &&& actions[i] is WritePort ==> actions[i] == (ActionView::WritePort {
                bytes: request_frame(),
            })
        }),
{
    lemma_action_at(config, events, i);
    lemma_run_invariant(config, events.take(i));
}

/// With a serial configuration no request goes to the network.
pub proof fn lemma_serial_uses_no_network(
    config: ConfigurationView,
    events: Seq<EventView>,
    i: int,
)
    requires
        config is Serial,
        0 <= i <= events.len(),
    ensures
        !(actions_of(config, events)[i] is HttpGet),
{
    lemma_action_at(config, events, i);
    lemma_run_invariant(config, events.take(i));
}

/// With an HTTP configuration the serial port is never opened, nor
/// touched in any other way.
pub proof fn lemma_http_uses_no_port(config: ConfigurationView, events: Seq<EventView>, i: int)
    requires
        config is HttpGet,
        0 <= i <= events.len(),
    ensures
        ({
            let action = actions_of(config, events)[i];
            !(action is OpenPort) && !(action is FlushPort) && !(action is WritePort) && !(action
                is Settle) && !(action is ReadPort) && !(action is ClosePort)
        }),
{
    lemma_action_at(config, events, i);
    lemma_run_invariant(config, events.take(i));
}

/// The port does not outlive the session: when a session says that it has
/// ended, the port is not open, on whichever path the end was reached;
/// and the port is opened at the start of a session only, so never while
/// it is open.
pub proof fn lemma_port_released(config: ConfigurationView, events: Seq<EventView>)
    ensures
        actions_of(config, events).last() is Finish ==> !port_held(config, events),
        actions_of(config, events).last() is OpenPort ==> events.len() == 0 && !port_held(
            config,
            events,
        ),
        port_held(config, events) == holds_port(state_after(config, events)),
{
    lemma_run_invariant(config, events);
}

/// After the port was opened, the session asks for nothing but work on
/// the port until it has asked to close it: while the port is open, the
/// next action is a flush, a write, a wait, a read or the close.
pub proof fn lemma_open_port_is_closed(config: ConfigurationView, events: Seq<EventView>)
    requires
        port_held(config, events),
    ensures
        ({
            let action = actions_of(config, events).last();
            action is FlushPort || action is WritePort || action is Settle || action is ReadPort
                || action is ClosePort
        }),
{
    lemma_run_invariant(config, events);
}

/// How the hooks ended, as a run of events reports it.
pub open spec fn exits_of(events: Seq<EventView>) -> Seq<HookExitView> {
    Seq::new(events.len(), |i: int| exit_of(events[i]))
}

/// Whether a state belongs to the dispatch of a reading or to the end
/// that follows it.
pub open spec fn serves(session: SessionView, reading: u16) -> bool {
    match session {
        SessionView::Listing { reading: r } => r == reading,
        SessionView::Dispatching { dispatcher } => dispatcher.reading == reading,
        SessionView::Finished { result, .. } => result == Ok::<u16, AcquisitionError>(reading),
        _ => false,
    }
}

/// A session lists the hook directory and then runs its hooks by the
/// plan: after the listing has been answered and `rest.len()` more events
/// have come in, whatever they are, the session stands where the
/// dispatcher stands that has recorded them as exits. So while hooks are
/// left it asks for the hook at the next place of the sorted names of the
/// regular files, with the reading in decimal; and from the moment at
/// which as many hooks have ended as there are regular files, it has
/// ended with the reading and with one record for each.
pub proof fn lemma_dispatch_follows_plan(
    reading: u16,
    listing: Seq<HookEntryView>,
    rest: Seq<EventView>,
)
    ensures
        ({
            let names = hook_names(listing);
            let events = seq![EventView::HookEntries(listing)] + rest;
            let from = SessionView::Listing { reading };
            let state = run_state(from, events);
            let action = run_actions(from, events).last();
            let d = recorded_all(begun(reading, names), exits_of(rest));
            &&& (state, action) == advanced(d)
            &&& rest.len() < names.len() ==> action == (ActionView::RunHook {
                name: sorted_plan(names)[rest.len() as int],
                argument: decimal_digits(reading as nat),
            })
            &&& rest.len() >= names.len() ==> action == (ActionView::Finish {
                result: Ok(reading),
            }) && state == (SessionView::Finished { result: Ok(reading), outcomes: d.outcomes })
                && d.outcomes.len() == names.len()
        }),
    decreases rest.len(),
{
    let names = hook_names(listing);
    let events = seq![EventView::HookEntries(listing)] + rest;
    let from = SessionView::Listing { reading };
    lemma_every_hook_runs_once(reading, names, exits_of(rest));
    if rest.len() == 0 {
        assert(events.drop_last() =~= Seq::empty());
        assert(exits_of(rest) =~= Seq::empty());
    } else {
        let shorter = rest.drop_last();
        lemma_dispatch_follows_plan(reading, listing, shorter);
        lemma_every_hook_runs_once(reading, names, exits_of(shorter));
        assert(events.drop_last() =~= seq![EventView::HookEntries(listing)] + shorter);
        assert(exits_of(rest).drop_last() =~= exits_of(shorter));
    }
}

/// Hooks cannot undo a reading: from the moment at which a session has
/// its reading, every action is the run of a hook with that reading in
/// decimal as its argument, or the end with that reading as the result.
pub proof fn lemma_hooks_keep_reading(reading: u16, events: Seq<EventView>, i: int)
    requires
        0 <= i < events.len(),
    ensures
        ({
            let action = run_actions(SessionView::Listing { reading }, events)[i];
            ||| action matches ActionView::RunHook { argument, .. } && argument == decimal_digits(
                reading as nat,
            )
            ||| action == (ActionView::Finish { result: Ok(reading) })
        }),
{
    let from = SessionView::Listing { reading };
    lemma_run_prefix(from, events, i + 1);
    lemma_serves(reading, events.take(i + 1));
}

proof fn lemma_serves(reading: u16, events: Seq<EventView>)
    ensures
        serves(run_state(SessionView::Listing { reading }, events), reading),
        events.len() > 0 ==> ({
            let action = run_actions(SessionView::Listing { reading }, events).last();
            ||| action matches ActionView::RunHook { argument, .. } && argument == decimal_digits(
                reading as nat,
            )
            ||| action == (ActionView::Finish { result: Ok(reading) })
        }),
    decreases events.len(),
{
    if events.len() > 0 {
        lemma_serves(reading, events.drop_last());
    }
}

} // verus!
