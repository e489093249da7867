//! What holds of the poller however the transport answers and whenever the
//! cancellation flag is set.

use crate::error::{Error, TransportError};
use crate::poller::{
    lemma_next_readable, lemma_polling_keeps_well_formed, next_readable, PollAction, PollPhase,
    PollerState, TransferResultView,
};
use crate::topology::InterfaceInfoView;
use vstd::prelude::*;

verus! {

/// One thing that happens to a poller: the caller asks what to do, with the
/// cancellation flag as it stands, or hands in the result of a read.
pub enum PollEvent {
    Ask(bool),
    Transfer(TransferResultView),
}

/// The number of input endpoints of the interfaces from index `from` on.
pub open spec fn inputs_from(interfaces: Seq<InterfaceInfoView>, from: int) -> nat
    decreases interfaces.len() - from,
{
    if from < 0 || from >= interfaces.len() {
        0
    } else {
        interfaces[from].endpoints_in.len() + inputs_from(interfaces, from + 1)
    }
}

/// The number of input endpoints of all watched interfaces: the most reads
/// that one pass can take.
pub open spec fn pass_budget(interfaces: Seq<InterfaceInfoView>) -> nat {
    inputs_from(interfaces, 0)
}

/// The number of reads that can still be handed out before the pass is over:
/// the endpoints from the cursor on, less the read that is outstanding.
pub open spec fn issuable(state: PollerState) -> nat {
    if state.between_passes() || state.phase is Cancelled || state.phase is Failed {
        0
    } else {
        let ahead = state.interfaces[state.interface].endpoints_in.len() - state.endpoint
            + inputs_from(state.interfaces, state.interface + 1);
        if state.phase is Reading {
            (ahead - 1) as nat
        } else {
            ahead as nat
        }
    }
}

/// The state after one event.
pub open spec fn step(state: PollerState, event: PollEvent) -> PollerState {
    match event {
        PollEvent::Ask(cancelled) => state.ask(cancelled),
        PollEvent::Transfer(result) => state.complete(result),
    }
}

/// The event hands a new read to the caller.
pub open spec fn issues_read(state: PollerState, event: PollEvent) -> bool {
    &&& event matches PollEvent::Ask(cancelled)
    &&& state.phase is Ready
    &&& state.ask(cancelled).phase is Reading
}

/// The event begins a new pass over the interfaces.
pub open spec fn begins_pass(state: PollerState, event: PollEvent) -> bool {
    &&& event matches PollEvent::Ask(cancelled)
    &&& state.phase is Ready
    &&& state.between_passes()
    &&& !cancelled
}

/// The state that `events` lead to from `state`.
pub open spec fn state_after(state: PollerState, events: Seq<PollEvent>) -> PollerState
    decreases events.len(),
{
    if events.len() == 0 {
        state
    } else {
        step(state_after(state, events.drop_last()), events.last())
    }
}

/// The number of reads handed out in the course of `events`.
pub open spec fn reads_issued(state: PollerState, events: Seq<PollEvent>) -> nat
    decreases events.len(),
{
    if events.len() == 0 {
        0
    } else {
        reads_issued(state, events.drop_last()) + if issues_read(
            state_after(state, events.drop_last()),
            events.last(),
        ) {
            1nat
        } else {
            0nat
        }
    }
}

/// The number of passes begun in the course of `events`.
pub open spec fn passes_begun(state: PollerState, events: Seq<PollEvent>) -> nat
    decreases events.len(),
{
    if events.len() == 0 {
        0
    } else {
        passes_begun(state, events.drop_last()) + if begins_pass(
            state_after(state, events.drop_last()),
            events.last(),
        ) {
            1nat
        } else {
            0nat
        }
    }
}

/// Interfaces without input endpoints add nothing to the count, so it is
/// the same from the next interface that has one.
pub proof fn lemma_inputs_from_readable(interfaces: Seq<InterfaceInfoView>, from: int)
    requires
        0 <= from,
    ensures
        inputs_from(interfaces, next_readable(interfaces, from)) == inputs_from(interfaces, from),
    decreases interfaces.len() - from,
{
    if from < interfaces.len() && interfaces[from].endpoints_in.len() == 0 {
        lemma_inputs_from_readable(interfaces, from + 1);
    }
}

/// Whatever happens, the poller stays well formed.
pub proof fn lemma_events_keep_well_formed(state: PollerState, events: Seq<PollEvent>)
    requires
        state.well_formed(),
    ensures
        state_after(state, events).well_formed(),
    decreases events.len(),
{
    if events.len() > 0 {
        lemma_events_keep_well_formed(state, events.drop_last());
        lemma_polling_keeps_well_formed(state_after(state, events.drop_last()));
    }
}

/// One event hands out at most one read, and pays for it out of what the
/// pass has left, or out of the budget of the pass that it begins.
pub proof fn lemma_step_accounts(state: PollerState, event: PollEvent)
    requires
        state.well_formed(),
    ensures
        (if issues_read(state, event) {
            1nat
        } else {
            0nat
        }) + issuable(step(state, event)) <= issuable(state) + if begins_pass(state, event) {
            pass_budget(state.interfaces)
        } else {
            0nat
        },
{
    let interfaces = state.interfaces;
    lemma_next_readable(interfaces, 0);
    lemma_inputs_from_readable(interfaces, 0);
    if !state.between_passes() {
        lemma_next_readable(interfaces, state.interface + 1);
        lemma_inputs_from_readable(interfaces, state.interface + 1);
    }
}

/// The reads handed out in the course of any events are covered by what the
/// pass had left at the start and one budget for every pass begun since. So
/// no pass takes more reads than the watched interfaces have input endpoints.
pub proof fn lemma_reads_are_budgeted(state: PollerState, events: Seq<PollEvent>)
    requires
        state.well_formed(),
    ensures
        reads_issued(state, events) + issuable(state_after(state, events)) <= issuable(state)
            + passes_begun(state, events) * pass_budget(state.interfaces),
    decreases events.len(),
{
    if events.len() > 0 {
        let earlier = events.drop_last();
        let before = state_after(state, earlier);
        lemma_reads_are_budgeted(state, earlier);
        lemma_events_keep_well_formed(state, earlier);
        lemma_watch_list_is_fixed(state, earlier);
        lemma_step_accounts(before, events.last());
        let budget = pass_budget(state.interfaces);
        let begun = passes_begun(state, earlier);
        assert((begun + 1) * budget == begun * budget + budget) by (nonlinear_arith);
    }
}

/// No event changes which interfaces are watched, how reads are sized, or
/// how long they may take.
pub proof fn lemma_watch_list_is_fixed(state: PollerState, events: Seq<PollEvent>)
    ensures
        state_after(state, events).interfaces == state.interfaces,
        state_after(state, events).read_size == state.read_size,
        state_after(state, events).timeout_ms == state.timeout_ms,
    decreases events.len(),
{
    if events.len() > 0 {
        lemma_watch_list_is_fixed(state, events.drop_last());
    }
}

/// The longest that the reads of one pass can block, in milliseconds: every
/// read of the pass running into its timeout.
pub open spec fn pass_blocking_bound_ms(state: PollerState) -> nat {
    pass_budget(state.interfaces) * state.timeout_ms as nat
}

/// Where no watched interface has more than one input endpoint, the
/// interfaces from `from` on take at most one read each.
pub proof fn lemma_one_read_per_interface(interfaces: Seq<InterfaceInfoView>, from: int)
    requires
        0 <= from <= interfaces.len(),
        forall|i: int|
            0 <= i < interfaces.len() ==> (#[trigger] interfaces[i]).endpoints_in.len() <= 1,
    ensures
        inputs_from(interfaces, from) <= interfaces.len() - from,
    decreases interfaces.len() - from,
{
    if from < interfaces.len() {
        lemma_one_read_per_interface(interfaces, from + 1);
    }
}

/// Where no watched interface has more than one input endpoint, a pass blocks
/// no longer than the timeout of one read multiplied by the number of watched
/// interfaces, however the device behaves.
pub proof fn lemma_pass_blocks_one_timeout_per_interface(state: PollerState)
    requires
        forall|i: int|
            0 <= i < state.interfaces.len() ==> (
            #[trigger] state.interfaces[i]).endpoints_in.len() <= 1,
    ensures
        pass_budget(state.interfaces) <= state.interfaces.len(),
        pass_blocking_bound_ms(state) <= state.timeout_ms * state.interfaces.len(),
{
    lemma_one_read_per_interface(state.interfaces, 0);
    let budget = pass_budget(state.interfaces) as int;
    let count = state.interfaces.len() as int;
    let timeout = state.timeout_ms as int;
    assert(budget <= count && 0 <= timeout ==> budget * timeout <= timeout * count)
        by (nonlinear_arith);
}

/// The state after every remaining input endpoint of the current interface
/// timed out, the caller asking for the next read each time.
pub open spec fn after_silence(state: PollerState) -> PollerState
    decreases state.interfaces[state.interface].endpoints_in.len() - state.endpoint,
{
    let timed_out = state.complete(TransferResultView::Failed(TransportError::Timeout));
    if state.phase is Reading && state.well_formed() && timed_out.interface == state.interface
        && timed_out.endpoint == state.endpoint + 1 {
        after_silence(timed_out.ask(false))
    } else {
        timed_out
    }
}

/// An interface on which every input endpoint times out only passes the
/// turn: the poller goes on exactly as if the interface had delivered data at
/// once. Nothing else is altered, and it makes no difference whether the
/// cancellation flag was set in the meantime.
pub proof fn lemma_silence_passes_the_turn(
    state: PollerState,
    buffer: Seq<u8>,
    transferred: usize,
)
    requires
        state.well_formed(),
        state.phase is Reading,
    ensures
        after_silence(state) == state.pass_the_turn(),
        after_silence(state) == state.complete(
            TransferResultView::Received { buffer, transferred },
        ),
    decreases state.interfaces[state.interface].endpoints_in.len() - state.endpoint,
{
    let timed_out = state.complete(TransferResultView::Failed(TransportError::Timeout));
    if state.endpoint + 1 < state.interfaces[state.interface].endpoints_in.len() {
        let asked = timed_out.ask(false);
        lemma_silence_passes_the_turn(asked, buffer, transferred);
    }
}

/// All the asks among the events come with the cancellation flag set.
pub open spec fn cancelled_throughout(events: Seq<PollEvent>) -> bool {
    forall|k: int|
        0 <= k < events.len() ==> ((#[trigger] events[k]) matches PollEvent::Ask(cancelled)
            ==> cancelled)
}

/// Once the cancellation flag is set, no further pass begins: the reads still
/// handed out are those that the current pass had left, and the first ask
/// between passes ends polling normally.
pub proof fn lemma_cancellation_ends_polling(state: PollerState, events: Seq<PollEvent>)
    requires
        state.well_formed(),
        cancelled_throughout(events),
    ensures
        passes_begun(state, events) == 0,
        reads_issued(state, events) <= issuable(state),
        state.phase is Ready && state.between_passes() ==> state.action(true)
            == PollAction::Finished && state.ask(true).phase is Cancelled,
    decreases events.len(),
{
    if events.len() > 0 {
        let earlier = events.drop_last();
        lemma_cancellation_ends_polling(state, earlier);
    }
    lemma_reads_are_budgeted(state, events);
    assert(0 * pass_budget(state.interfaces) == 0) by (nonlinear_arith);
}

/// Polling that has ended stays ended: no event changes the state, no read is
/// handed out, and every ask gets the same final answer. After a failed read
/// that answer is the failure, with the interface it occurred on.
pub proof fn lemma_end_is_final(state: PollerState, events: Seq<PollEvent>)
    requires
        state.phase is Cancelled || state.phase is Failed,
    ensures
        state_after(state, events) == state,
        reads_issued(state, events) == 0,
        forall|cancelled: bool|
            #[trigger] state.action(cancelled) == match state.phase {
                PollPhase::Failed(interface, cause) => PollAction::Failed(
                    Error::TransferFatal(interface, cause),
                ),
                _ => PollAction::Finished,
            },
    decreases events.len(),
{
    if events.len() > 0 {
        lemma_end_is_final(state, events.drop_last());
    }
}

/// A timeout never ends polling and never reaches the caller as a failure:
/// the only failure that polling reports is a read that failed otherwise.
pub proof fn lemma_timeouts_stay_inside(state: PollerState, cancelled: bool)
    requires
        state.well_formed(),
    ensures
        state.action(cancelled) matches PollAction::Failed(error) ==> error matches Error::TransferFatal(
            _,
            cause,
        ) && cause != TransportError::Timeout,
        forall|result: TransferResultView|
            state.phase is Reading && result == TransferResultView::Failed(TransportError::Timeout)
                ==> #[trigger] state.complete(result).phase is Ready,
{
}

/// A read that fails for any reason but a timeout ends polling at once,
/// whichever interface it was on and whatever was left of the pass.
pub proof fn lemma_failure_ends_polling(state: PollerState, cause: TransportError)
    requires
        state.well_formed(),
        state.phase is Reading,
        cause != TransportError::Timeout,
    ensures
        state.complete(TransferResultView::Failed(cause)).phase == PollPhase::Failed(
            state.interfaces[state.interface].number,
            cause,
        ),
        issuable(state.complete(TransferResultView::Failed(cause))) == 0,
{
}

} // verus!
