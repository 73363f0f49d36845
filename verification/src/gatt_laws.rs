//! What holds of the connection manager in every state it can reach.

use crate::gatt_manipulator::{ActionView, EventView, Model, OutcomeView, Phase, Request};
use vstd::prelude::*;

verus! {

/// The manager is searching the lamp for the characteristic.
pub open spec fn searching(phase: Phase) -> bool {
    phase == Phase::Services || phase == Phase::Characteristics || phase == Phase::Identifier
}

/// The action asks the lamp to list or to identify something.
pub open spec fn is_search(action: ActionView) -> bool {
    action is ListServices || action is ListCharacteristics || action is QueryIdentifier
}

/// The states that a manager reaches from `GattManipulator::new`: it
/// searches only for what is not cached, and transfers only through the
/// handle cached for the identifier of a write or a read.
pub open spec fn coherent(m: Model) -> bool {
    &&& searching(m.phase) ==> !m.cache.contains_key(m.id) && m.request != Request::Establish
    &&& m.phase == Phase::Transfer ==> {
        &&& m.cache.contains_key(m.id)
        &&& m.cache[m.id] == m.at
        &&& (m.request == Request::Write || m.request == Request::Read)
    }
}

/// A manager that waits for nothing is coherent, and so is one that has
/// just been given a request.
pub proof fn lemma_begin_is_coherent(m: Model, request: Request, id: u128, data: Seq<u8>)
    ensures
        m.phase == Phase::Idle ==> coherent(m),
        coherent(m.begin(request, id, data).0),
        m.begin(request, id, data).1 == ActionView::QueryLink,
        m.begin(request, id, data).0.cache == m.cache,
{
}

/// No event leads out of the coherent states.
pub proof fn lemma_coherence_is_kept(m: Model, event: EventView)
    requires
        coherent(m),
    ensures
        coherent(m.after(event).0),
{
}

/// An event leaves the request as it is: its kind, its identifier and its
/// bytes.
pub proof fn lemma_request_is_kept(m: Model, event: EventView)
    ensures
        m.after(event).0.request == m.request,
        m.after(event).0.id == m.id,
        m.after(event).0.data == m.data,
{
}

/// The cache only grows, and only at the identifier of the request: every
/// other identifier keeps its handle, or its absence.
pub proof fn lemma_cache_grows(m: Model, event: EventView, id: u128)
    ensures
        m.cache.contains_key(id) ==> m.after(event).0.cache.contains_key(id),
        id != m.id ==> m.after(event).0.cache.contains_key(id) == m.cache.contains_key(id),
        id != m.id && m.cache.contains_key(id) ==> m.after(event).0.cache[id] == m.cache[id],
        coherent(m) && m.cache.contains_key(id) ==> m.after(event).0.cache[id] == m.cache[id],
{
}

/// A handle enters the cache only when the lamp reports the identifier of
/// the request for the characteristic under examination, and it is the
/// handle of that characteristic.
pub proof fn lemma_cached_on_report_only(m: Model, event: EventView)
    requires
        !m.cache.contains_key(m.id),
        m.after(event).0.cache.contains_key(m.id),
    ensures
        m.phase == Phase::Identifier,
        event == EventView::Identifier(Some(m.id)),
        m.after(event).0.cache[m.id] == m.at,
{
}

/// A write that failed is made again, through the same handle and with the
/// same bytes, as soon as the link has been found up twice; nothing is
/// searched for in between.
pub proof fn lemma_failed_write_is_retried(m: Model)
    requires
        coherent(m),
        m.phase == Phase::Transfer,
        m.request == Request::Write,
    ensures
        ({
            let (m1, a1) = m.after(EventView::Written(false));
            let (m2, a2) = m1.after(EventView::Link(Some(true)));
            let (m3, a3) = m2.after(EventView::Link(Some(true)));
            &&& a1 == ActionView::QueryLink
            &&& a2 == ActionView::QueryLink
            &&& a3 == ActionView::Write { handle: m.at, data: m.data }
            &&& m3 == m
        }),
{
    let (m1, a1) = m.after(EventView::Written(false));
    let (m2, a2) = m1.after(EventView::Link(Some(true)));
    let (m3, a3) = m2.after(EventView::Link(Some(true)));
    assert(m3.cache =~= m.cache);
}

/// A manager that waits for nothing stays so, whatever it is told.
pub proof fn lemma_idle_stays_idle(m: Model, event: EventView)
    requires
        m.phase == Phase::Idle,
    ensures
        m.after(event) == (m, ActionView::Idle),
{
}

/// What is cached is not searched for again: with the identifier in the
/// cache, no event has the lamp listed or a characteristic identified.
pub proof fn lemma_cached_is_not_searched(m: Model, event: EventView)
    requires
        coherent(m),
        m.cache.contains_key(m.id),
    ensures
        !is_search(m.after(event).1),
        !searching(m.after(event).0.phase),
{
}

/// Bytes are written, and a value is read, only through the handle cached
/// for the identifier of the request, and the bytes are those of the
/// request.
pub proof fn lemma_transfer_goes_through_the_cache(m: Model, event: EventView)
    requires
        coherent(m),
    ensures
        match m.after(event).1 {
            ActionView::Write { handle, data } => {
                &&& m.request == Request::Write
                &&& m.after(event).0.cache.contains_key(m.id)
                &&& m.after(event).0.cache[m.id] == handle
                &&& data == m.data
            },
            ActionView::Read { handle } => {
                &&& m.request == Request::Read
                &&& m.after(event).0.cache.contains_key(m.id)
                &&& m.after(event).0.cache[m.id] == handle
            },
            _ => true,
        },
{
}

/// A request ends as not found only where the lamp's list of services has
/// been gone through to its end with nothing cached for the identifier.
pub proof fn lemma_not_found_is_a_finished_search(m: Model, event: EventView)
    requires
        coherent(m),
        m.after(event).1 == ActionView::Done(OutcomeView::NotFound),
    ensures
        m.phase == Phase::Services || m.phase == Phase::Characteristics || m.phase
            == Phase::Identifier,
        m.after(event).0.services.len() == 0,
        !m.after(event).0.cache.contains_key(m.id),
        m.after(event).0.phase == Phase::Idle,
{
}

/// A request ends with the outcome of its kind: a link that is up for
/// `Establish`, a handle or nothing for `Resolve`, the write or nothing for
/// `Write`, the bytes or nothing for `Read`.
pub proof fn lemma_outcome_fits_the_request(m: Model, event: EventView)
    requires
        coherent(m),
    ensures
        match m.after(event).1 {
            ActionView::Done(OutcomeView::Connected) => m.request == Request::Establish,
            ActionView::Done(OutcomeView::Resolved(handle)) => {
                &&& m.request == Request::Resolve
                &&& m.after(event).0.cache.contains_key(m.id)
                &&& m.after(event).0.cache[m.id] == handle
            },
            ActionView::Done(OutcomeView::Written) => m.request == Request::Write,
            ActionView::Done(OutcomeView::Data(_)) => m.request == Request::Read,
            ActionView::Done(OutcomeView::NotFound) => m.request != Request::Establish,
            _ => true,
        },
        m.after(event).1 is Done ==> m.after(event).0.phase == Phase::Idle,
{
}

/// Every failure is met by asking for the link again: after a failed
/// answer the manager never stops and never acts on the lamp unasked.
pub proof fn lemma_failure_asks_again(m: Model, event: EventView)
    requires
        m.phase != Phase::Idle,
        match event {
            EventView::Link(up) => up is None && m.phase is Link,
            EventView::Connected(ok) => !ok && m.phase is Connecting,
            EventView::Services(list) => list is None && m.phase == Phase::Services,
            EventView::Characteristics(list) => list is None && m.phase == Phase::Characteristics,
            EventView::Identifier(found) => found is None && m.phase == Phase::Identifier,
            EventView::Written(ok) => !ok && m.phase == Phase::Transfer && m.request
                == Request::Write,
            EventView::Read(answer) => answer is None && m.phase == Phase::Transfer && m.request
                == Request::Read,
        },
    ensures
        m.after(event).1 == ActionView::QueryLink,
        m.after(event).0.phase is Link,
        m.after(event).0.cache == m.cache,
{
}

} // verus!
