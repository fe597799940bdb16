//! Resolving an entry through shared network state: what to dispatch,
//! what a poll returns, and when the timeout fires.

use std::collections::HashMap;
use vstd::prelude::*;
use crate::address::Address;
use crate::entry::EntryWithMeta;

verus! {

broadcast use vstd::std_specs::hash::group_hash_axioms;

/// Seconds after which an unresolved lookup times out.
pub const GET_ENTRY_TIMEOUT_SECS: u64 = 60;

/// Why a lookup failed.
#[derive(Debug, PartialEq, Eq)]
pub enum ResolutionError {
    /// The shared state lacks the network handle or an identity marker.
    NetworkUninitialized,
    /// Nothing was recorded for the address within the bound.
    Timeout,
    /// The failure that was recorded for the address, passed on as it is.
    Propagated(String),
}

impl Clone for ResolutionError {
    fn clone(&self) -> (r: Self)
        ensures
            r == *self,
    {
        match self {
            ResolutionError::NetworkUninitialized => ResolutionError::NetworkUninitialized,
            ResolutionError::Timeout => ResolutionError::Timeout,
            ResolutionError::Propagated(s) => ResolutionError::Propagated(s.clone()),
        }
    }
}

/// A message for the action channel.
#[derive(Clone, Copy, Debug, PartialEq, Eq, Structural)]
pub enum Action {
    /// Look this address up.
    GetEntry(Address),
    /// The lookup of this address has timed out.
    GetEntryTimeout(Address),
}

/// What a poll returns.
#[derive(Debug, PartialEq, Eq)]
pub enum Poll {
    Ready(Result<Option<EntryWithMeta>, ResolutionError>),
    Pending,
}

/// How far a lookup has come. `Pending` is the only phase that a lookup
/// ever leaves.
#[derive(Clone, Copy, Debug, PartialEq, Eq, Structural)]
pub enum Phase {
    /// No poll has returned a result yet, and the deadline has not fired.
    Pending,
    /// A poll found the shared state uninitialized.
    Uninitialized,
    /// A poll returned the recorded result: an entry, or "not found".
    ResolvedOk,
    /// A poll returned the recorded failure.
    ResolvedErr,
    /// The deadline fired while the lookup was pending.
    TimedOut,
}

/// What the shared state holds for an address: `None` where the address
/// is unknown, `Some(None)` where a lookup is under way, `Some(Some(_))`
/// where its result is recorded.
pub open spec fn is_resolved(
    status: Option<Option<Result<Option<EntryWithMeta>, ResolutionError>>>,
) -> bool {
    status matches Some(Some(_))
}

/// What a poll returns, given whether the state is initialized, the
/// lookup's phase, and what the state holds for its address.
pub open spec fn poll_outcome(
    initialized: bool,
    phase: Phase,
    status: Option<Option<Result<Option<EntryWithMeta>, ResolutionError>>>,
) -> Poll {
    if !initialized {
        Poll::Ready(Err(ResolutionError::NetworkUninitialized))
    } else if phase is TimedOut {
        Poll::Ready(Err(ResolutionError::Timeout))
    } else {
        match status {
            Some(Some(result)) => Poll::Ready(result),
            _ => Poll::Pending,
        }
    }
}

/// The phase after a poll: a pending lookup leaves its phase as soon as
/// a poll returns a result, and no other lookup changes its phase.
pub open spec fn phase_after_poll(
    initialized: bool,
    phase: Phase,
    status: Option<Option<Result<Option<EntryWithMeta>, ResolutionError>>>,
) -> Phase {
    if !(phase is Pending) {
        phase
    } else if !initialized {
        Phase::Uninitialized
    } else {
        match status {
            Some(Some(Ok(_))) => Phase::ResolvedOk,
            Some(Some(Err(_))) => Phase::ResolvedErr,
            _ => Phase::Pending,
        }
    }
}

/// Whether the deadline fires: only on a pending lookup whose address
/// has no recorded result.
pub open spec fn deadline_fires(
    phase: Phase,
    status: Option<Option<Result<Option<EntryWithMeta>, ResolutionError>>>,
) -> bool {
    phase is Pending && !is_resolved(status)
}

/// The phase after the deadline.
pub open spec fn phase_after_deadline(
    phase: Phase,
    status: Option<Option<Result<Option<EntryWithMeta>, ResolutionError>>>,
) -> Phase {
    if deadline_fires(phase, status) {
        Phase::TimedOut
    } else {
        phase
    }
}

fn clone_result(result: &Result<Option<EntryWithMeta>, ResolutionError>) -> (r: Result<
    Option<EntryWithMeta>,
    ResolutionError,
>)
    ensures
        r == *result,
{
    match result {
        Ok(Some(entry)) => Ok(Some(entry.clone())),
        Ok(None) => Ok(None),
        Err(e) => Err(e.clone()),
    }
}

/// A snapshot of the network part of the shared state.
pub struct NetworkState {
    network: Option<String>,
    dna_hash: Option<String>,
    agent_id: Option<String>,
    results: HashMap<u64, Option<Result<Option<EntryWithMeta>, ResolutionError>>>,
}

impl NetworkState {
    /// What the state holds for each address that it knows.
    pub closed spec fn resolutions(&self) -> Map<
        Address,
        Option<Result<Option<EntryWithMeta>, ResolutionError>>,
    > {
        Map::new(
            |a: Address| self.results@.contains_key(a.digest),
            |a: Address| self.results@[a.digest],
        )
    }

    /// The network handle and both identity markers are there.
    pub closed spec fn is_initialized(&self) -> bool {
        self.network is Some && self.dna_hash is Some && self.agent_id is Some
    }

    /// The three-valued status of `address`.
    pub open spec fn status_of(&self, address: Address) -> Option<
        Option<Result<Option<EntryWithMeta>, ResolutionError>>,
    > {
        if self.resolutions().contains_key(address) {
            Some(self.resolutions()[address])
        } else {
            None
        }
    }

    /// A state that knows no address.
    pub fn new(network: Option<String>, dna_hash: Option<String>, agent_id: Option<String>) -> (r:
        NetworkState)
        ensures
            r.is_initialized() == (network is Some && dna_hash is Some && agent_id is Some),
            r.resolutions() == Map::<
                Address,
                Option<Result<Option<EntryWithMeta>, ResolutionError>>,
            >::empty(),
    {
        let r = NetworkState { network, dna_hash, agent_id, results: HashMap::new() };
        proof {
            assert(r.resolutions() =~= Map::<
                Address,
                Option<Result<Option<EntryWithMeta>, ResolutionError>>,
            >::empty());
        }
        r
    }

    /// Record `status` for `address`: `None` for a lookup under way,
    /// `Some(_)` for its result.
    pub fn record(
        &mut self,
        address: &Address,
        status: Option<Result<Option<EntryWithMeta>, ResolutionError>>,
    )
        ensures
            final(self).resolutions() == old(self).resolutions().insert(*address, status),
            final(self).is_initialized() == old(self).is_initialized(),
    {
        self.results.insert(address.digest, status);
        proof {
            assert(self.resolutions() =~= old(self).resolutions().insert(*address, status));
        }
    }

    pub fn initialized(&self) -> (r: bool)
        ensures
            r == self.is_initialized(),
    {
        self.network.is_some() && self.dna_hash.is_some() && self.agent_id.is_some()
    }

    pub fn resolution_of(&self, address: &Address) -> (r: Option<
        Option<Result<Option<EntryWithMeta>, ResolutionError>>,
    >)
        ensures
            r == self.status_of(*address),
    {
        match self.results.get(&address.digest) {
            None => None,
            Some(None) => Some(None),
            Some(Some(result)) => Some(Some(clone_result(result))),
        }
    }
}

/// The lookup of one address, as its caller holds it.
pub struct GetEntryFuture {
    address: Address,
    phase: Phase,
}

impl GetEntryFuture {
    /// The address that is looked up.
    pub closed spec fn address(&self) -> Address {
        self.address
    }

    /// How far the lookup has come.
    pub closed spec fn phase(&self) -> Phase {
        self.phase
    }

    pub fn requested_address(&self) -> (r: Address)
        ensures
            r == self.address(),
    {
        self.address
    }

    pub fn current_phase(&self) -> (r: Phase)
        ensures
            r == self.phase(),
    {
        self.phase
    }

    /// Read the snapshot `state`. An uninitialized state fails the lookup
    /// at once. A lookup that has timed out stays timed out. Otherwise
    /// the result recorded for the address is returned as it is, and the
    /// lookup is pending while there is none. No action is ever produced.
    pub fn poll(&mut self, state: &NetworkState) -> (r: Poll)
        ensures
            r == poll_outcome(
                state.is_initialized(),
                old(self).phase(),
                state.status_of(old(self).address()),
            ),
            !state.is_initialized() ==> r == Poll::Ready(
                Err(ResolutionError::NetworkUninitialized),
            ),
            final(self).phase() == phase_after_poll(
                state.is_initialized(),
                old(self).phase(),
                state.status_of(old(self).address()),
            ),
            final(self).address() == old(self).address(),
    {
        if !state.initialized() {
            if self.phase == Phase::Pending {
                self.phase = Phase::Uninitialized;
            }
            return Poll::Ready(Err(ResolutionError::NetworkUninitialized));
        }
        if self.phase == Phase::TimedOut {
            return Poll::Ready(Err(ResolutionError::Timeout));
        }
        match state.resolution_of(&self.address) {
            Some(Some(result)) => {
                if self.phase == Phase::Pending {
                    self.phase = if result.is_ok() {
                        Phase::ResolvedOk
                    } else {
                        Phase::ResolvedErr
                    };
                }
                Poll::Ready(result)
            },
            _ => Poll::Pending,
        }
    }

    /// The deadline has come. If the lookup is still pending and `state`
    /// holds no result for its address, the lookup times out and the
    /// timeout action is returned for dispatch. Otherwise nothing
    /// happens: a result that has landed supersedes the timeout.
    pub fn deadline(&mut self, state: &NetworkState) -> (r: Option<Action>)
        ensures
            r == if deadline_fires(old(self).phase(), state.status_of(old(self).address())) {
                Some(Action::GetEntryTimeout(old(self).address()))
            } else {
                None
            },
            final(self).phase() == phase_after_deadline(
                old(self).phase(),
                state.status_of(old(self).address()),
            ),
            final(self).address() == old(self).address(),
    {
        match self.phase {
            Phase::Pending => match state.resolution_of(&self.address) {
                Some(Some(_)) => None,
                _ => {
                    self.phase = Phase::TimedOut;
                    Some(Action::GetEntryTimeout(self.address))
                },
            },
            _ => None,
        }
    }
}

/// Start the lookup of `address`: the action to dispatch, once, and the
/// lookup to poll. The caller arms the deadline beside it.
pub fn get_entry(address: &Address) -> (r: (Action, GetEntryFuture))
    ensures
        r.0 == Action::GetEntry(*address),
        r.1.address() == *address,
        r.1.phase() is Pending,
{
    (Action::GetEntry(*address), GetEntryFuture { address: *address, phase: Phase::Pending })
}

} // verus!
