//! What holds of every run of a lookup.

use vstd::prelude::*;
use crate::entry::EntryWithMeta;
use crate::network::{
    Phase, Poll, ResolutionError, deadline_fires, is_resolved, phase_after_deadline,
    phase_after_poll, poll_outcome,
};

verus! {

/// Something that happens to a lookup, with what the shared state held
/// for its address at that moment.
pub enum BridgeEvent {
    Polled {
        initialized: bool,
        status: Option<Option<Result<Option<EntryWithMeta>, ResolutionError>>>,
    },
    Deadline { status: Option<Option<Result<Option<EntryWithMeta>, ResolutionError>>> },
}

/// The phase after one event.
pub open spec fn phase_after_event(phase: Phase, event: BridgeEvent) -> Phase {
    match event {
        BridgeEvent::Polled { initialized, status } => phase_after_poll(initialized, phase, status),
        BridgeEvent::Deadline { status } => phase_after_deadline(phase, status),
    }
}

/// The phase after a run of events.
pub open spec fn phase_after_run(phase: Phase, events: Seq<BridgeEvent>) -> Phase
    decreases events.len(),
{
    if events.len() == 0 {
        phase
    } else {
        phase_after_event(phase_after_run(phase, events.drop_last()), events.last())
    }
}

/// How many timeout actions a run of events produces.
pub open spec fn timeouts_in_run(phase: Phase, events: Seq<BridgeEvent>) -> nat
    decreases events.len(),
{
    if events.len() == 0 {
        0
    } else {
        let before = phase_after_run(phase, events.drop_last());
        let fired: nat = match events.last() {
            BridgeEvent::Deadline { status } => if deadline_fires(before, status) {
                1
            } else {
                0
            },
            _ => 0,
        };
        timeouts_in_run(phase, events.drop_last()) + fired
    }
}

/// The state is initialized and holds no result at the event.
pub open spec fn unresolved_at(event: BridgeEvent) -> bool {
    match event {
        BridgeEvent::Polled { initialized, status } => initialized && !is_resolved(status),
        BridgeEvent::Deadline { status } => !is_resolved(status),
    }
}

/// Whatever happens, a lookup produces at most one timeout action, and
/// none once it has left the pending phase by a result. A lookup that is
/// still pending has produced none.
pub proof fn law_timeout_at_most_once(phase: Phase, events: Seq<BridgeEvent>)
    ensures
        timeouts_in_run(phase, events) <= 1,
        !(phase is Pending) ==> timeouts_in_run(phase, events) == 0 && phase_after_run(
            phase,
            events,
        ) == phase,
        phase_after_run(phase, events) is Pending ==> timeouts_in_run(phase, events) == 0,
        timeouts_in_run(phase, events) == 1 ==> phase_after_run(phase, events) is TimedOut,
    decreases events.len(),
{
    if events.len() > 0 {
        law_timeout_at_most_once(phase, events.drop_last());
    }
}

/// An uninitialized state fails every poll at once, whatever the
/// address holds and however far the lookup has come.
pub proof fn law_uninitialized_fails_at_once(
    phase: Phase,
    status: Option<Option<Result<Option<EntryWithMeta>, ResolutionError>>>,
)
    ensures
        poll_outcome(false, phase, status) == Poll::Ready(
            Err(ResolutionError::NetworkUninitialized),
        ),
{
}

/// While the state is initialized and holds no result, polls leave a
/// new lookup pending and return `Pending`; the first poll that finds a
/// result returns exactly that result, and settles the lookup.
pub proof fn law_pending_until_resolved(
    polls: Seq<BridgeEvent>,
    result: Result<Option<EntryWithMeta>, ResolutionError>,
)
    requires
        forall|i: int| 0 <= i < polls.len() ==> (#[trigger] polls[i]) is Polled && unresolved_at(
            polls[i],
        ),
    ensures
        phase_after_run(Phase::Pending, polls) is Pending,
        forall|i: int|
            0 <= i < polls.len() ==> poll_outcome(
                true,
                phase_after_run(Phase::Pending, polls.take(i)),
                (#[trigger] polls[i])->Polled_status,
            ) is Pending,
        poll_outcome(true, phase_after_run(Phase::Pending, polls), Some(Some(result)))
            == Poll::Ready(result),
        phase_after_event(
            phase_after_run(Phase::Pending, polls),
            BridgeEvent::Polled { initialized: true, status: Some(Some(result)) },
        ) == (if result is Ok {
            Phase::ResolvedOk
        } else {
            Phase::ResolvedErr
        }),
    decreases polls.len(),
{
    lemma_unresolved_polls_stay_pending(polls);
    assert forall|i: int| 0 <= i < polls.len() implies poll_outcome(
        true,
        phase_after_run(Phase::Pending, polls.take(i)),
        (#[trigger] polls[i])->Polled_status,
    ) is Pending by {
        let prefix = polls.take(i);
        assert forall|j: int| 0 <= j < prefix.len() implies (#[trigger] prefix[j]) is Polled
            && unresolved_at(prefix[j]) by {
            assert(prefix[j] == polls[j]);
        }
        lemma_unresolved_polls_stay_pending(prefix);
    }
}

proof fn lemma_unresolved_polls_stay_pending(polls: Seq<BridgeEvent>)
    requires
        forall|i: int| 0 <= i < polls.len() ==> (#[trigger] polls[i]) is Polled && unresolved_at(
            polls[i],
        ),
    ensures
        phase_after_run(Phase::Pending, polls) is Pending,
    decreases polls.len(),
{
    if polls.len() > 0 {
        let prefix = polls.drop_last();
        assert forall|j: int| 0 <= j < prefix.len() implies (#[trigger] prefix[j]) is Polled
            && unresolved_at(prefix[j]) by {
            assert(prefix[j] == polls[j]);
        }
        lemma_unresolved_polls_stay_pending(prefix);
        assert(polls.last() == polls[polls.len() - 1]);
    }
}

/// If the state is initialized and never holds a result, then after a
/// run in which the deadline comes the lookup has timed out, exactly one
/// timeout action was produced, and every later poll of an initialized
/// state returns the timeout error.
pub proof fn law_unresolved_times_out(
    events: Seq<BridgeEvent>,
    d: int,
    status: Option<Option<Result<Option<EntryWithMeta>, ResolutionError>>>,
)
    requires
        forall|i: int| 0 <= i < events.len() ==> unresolved_at(#[trigger] events[i]),
        0 <= d < events.len(),
        events[d] is Deadline,
    ensures
        phase_after_run(Phase::Pending, events) is TimedOut,
        timeouts_in_run(Phase::Pending, events) == 1,
        poll_outcome(true, phase_after_run(Phase::Pending, events), status) == Poll::Ready(
            Err(ResolutionError::Timeout),
        ),
    decreases events.len(),
{
    let prefix = events.drop_last();
    assert forall|j: int| 0 <= j < prefix.len() implies unresolved_at(#[trigger] prefix[j]) by {
        assert(prefix[j] == events[j]);
    }
    lemma_unresolved_run(prefix);
    law_timeout_at_most_once(Phase::Pending, prefix);
    assert(events.last() == events[events.len() - 1]);
    if d < events.len() - 1 {
        assert(prefix[d] == events[d]);
        law_unresolved_times_out(prefix, d, status);
    }
}

proof fn lemma_unresolved_run(events: Seq<BridgeEvent>)
    requires
        forall|i: int| 0 <= i < events.len() ==> unresolved_at(#[trigger] events[i]),
    ensures
        phase_after_run(Phase::Pending, events) is Pending || phase_after_run(
            Phase::Pending,
            events,
        ) is TimedOut,
        phase_after_run(Phase::Pending, events) is Pending ==> timeouts_in_run(
            Phase::Pending,
            events,
        ) == 0,
        phase_after_run(Phase::Pending, events) is TimedOut ==> timeouts_in_run(
            Phase::Pending,
            events,
        ) == 1,
    decreases events.len(),
{
    if events.len() > 0 {
        let prefix = events.drop_last();
        assert forall|j: int| 0 <= j < prefix.len() implies unresolved_at(#[trigger] prefix[j]) by {
            assert(prefix[j] == events[j]);
        }
        lemma_unresolved_run(prefix);
        assert(events.last() == events[events.len() - 1]);
    }
}

} // verus!
