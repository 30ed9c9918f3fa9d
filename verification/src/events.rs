//! The events capability: the set of observables a guest listens to. Each
//! observable names a resource by its descriptor and a key of that
//! resource whose changes are reported.

use vstd::prelude::*;
use vstd::string::*;
use crate::resource::{parse_uuid, uuid_accepts};

verus! {

/// Errors of the events capability.
#[derive(Debug)]
pub enum Error {
    ErrorWithDescription(String),
}

/// An observable as the guest passes it: a resource descriptor and a key.
pub struct ObservableParam<'a> {
    pub rd: &'a str,
    pub key: &'a str,
}

/// An owned observable.
#[derive(Debug)]
pub struct Observable {
    pub rd: String,
    pub key: String,
}

/// The observables a guest listens to, in the order it added them.
#[derive(Debug)]
pub struct EventsGuest {
    pub observables: Vec<Observable>,
}

impl Default for EventsGuest {
    fn default() -> (r: EventsGuest)
        ensures
            r.observables@ == Seq::<Observable>::empty(),
    {
        EventsGuest { observables: Vec::new() }
    }
}

/// The message reported for an observable whose descriptor is not a UUID.
pub open spec fn bad_descriptor_message() -> Seq<char> {
    "internal error: failed to parse internal handle to this resource"@
}

/// A guest that listens to nothing yet.
pub fn events_get() -> (r: Result<EventsGuest, Error>)
    ensures
        r matches Ok(g) && g.observables@ == Seq::<Observable>::empty(),
{
    Ok(EventsGuest::default())
}

fn duplicate_observables(obs: &Vec<Observable>) -> (r: Vec<Observable>)
    ensures
        r@.len() == obs@.len(),
        forall|i: int| 0 <= i < obs@.len() ==> (#[trigger] r@[i]).rd == obs@[i].rd && r@[i].key == obs@[i].key,
{
    let mut r: Vec<Observable> = Vec::new();
    let mut i: usize = 0;
    while i < obs.len()
        invariant
            i <= obs.len(),
            r@.len() == i,
            forall|j: int| 0 <= j < i ==> (#[trigger] r@[j]).rd == obs@[j].rd && r@[j].key == obs@[j].key,
        decreases obs.len() - i,
    {
        r.push(Observable { rd: obs[i].rd.clone(), key: obs[i].key.clone() });
        i = i + 1;
    }
    r
}

/// Adds an observable to the ones `self_` listens to, on a copy; an
/// observable whose descriptor is not a UUID is refused.
pub fn events_listen(self_: &EventsGuest, ob: ObservableParam) -> (r: Result<EventsGuest, Error>)
    ensures
        uuid_accepts(ob.rd@) ==> (r matches Ok(g) && g.observables@.len() == self_.observables@.len() + 1
            && (forall|i: int| 0 <= i < self_.observables@.len() ==> (#[trigger] g.observables@[i]).rd
                == self_.observables@[i].rd && g.observables@[i].key == self_.observables@[i].key)
            && g.observables@.last().rd@ == ob.rd@ && g.observables@.last().key@ == ob.key@),
        !uuid_accepts(ob.rd@) ==> (r matches Err(Error::ErrorWithDescription(m)) && m@
            == bad_descriptor_message()),
{
    if !parse_uuid(ob.rd) {
        return Err(
            Error::ErrorWithDescription(
                String::from_str("internal error: failed to parse internal handle to this resource"),
            ),
        );
    }
    let mut observables = duplicate_observables(&self_.observables);
    observables.push(Observable { rd: String::from_str(ob.rd), key: String::from_str(ob.key) });
    Ok(EventsGuest { observables })
}

/// What one wait for an event of an observable gave: an event, with what
/// the guest's handler made of it, or no event before the deadline.
#[derive(Debug)]
pub enum ReceiveOutcome {
    Handled(Result<(), String>),
    TimedOut,
}

/// What the receiver of an observable does next.
#[derive(Debug)]
pub enum ReceiveStep {
    /// Wait for the next event.
    Continue,
    /// Stop receiving, with this result.
    Finish(Result<(), Error>),
}

/// The message of an event that the guest's handler failed on.
pub open spec fn handler_error_message(e: Seq<char>) -> Seq<char> {
    "event handler error "@ + e
}

/// The step after one wait for an event: an event the handler accepted
/// leads to the next wait; one it failed on stops the receiver with the
/// handler's error; no event before the deadline stops it without error.
pub fn receive_step(outcome: ReceiveOutcome) -> (r: ReceiveStep)
    ensures
        match outcome {
            ReceiveOutcome::Handled(Ok(())) => r is Continue,
            ReceiveOutcome::Handled(Err(e)) => (r matches ReceiveStep::Finish(
                Err(Error::ErrorWithDescription(m)),
            ) && m@ == handler_error_message(e@)),
            ReceiveOutcome::TimedOut => (r matches ReceiveStep::Finish(Ok(()))),
        },
{
    match outcome {
        ReceiveOutcome::Handled(Ok(())) => ReceiveStep::Continue,
        ReceiveOutcome::Handled(Err(e)) => ReceiveStep::Finish(
            Err(Error::ErrorWithDescription(String::from_str("event handler error ").concat(e.as_str()))),
        ),
        ReceiveOutcome::TimedOut => ReceiveStep::Finish(Ok(())),
    }
}

/// The data of an event as the guest receives it: text stays as it is,
/// data that is not text is replaced by an empty JSON object, and an event
/// without data has none.
pub fn event_data_text(data: Option<Result<String, ()>>) -> (r: Option<String>)
    ensures
        match data {
            None => r is None,
            Some(Ok(t)) => (r matches Some(x) && x@ == t@),
            Some(Err(())) => (r matches Some(x) && x@ == "{}"@),
        },
{
    match data {
        None => None,
        Some(Ok(t)) => Some(t),
        Some(Err(())) => Some(String::from_str("{}")),
    }
}

/// What the host does next while it sets up the watches of a guest's
/// observables, before it starts receiving their events.
#[derive(Debug)]
pub enum WatchAction {
    /// Watch `key` of the resource named by the descriptor `rd`.
    Watch { rd: String, key: String },
    /// Stop: a watch failed, with this error.
    Failed(Error),
    /// Every observable is watched; start receiving events.
    Done,
}

/// The step of setting up watches: the observables are watched in order,
/// `next` being the position of the next one, and `previous` what the
/// last watch gave. The first watch that failed stops the setup with its
/// message.
pub fn watch_step(self_: &EventsGuest, next: usize, previous: Result<(), String>) -> (r: WatchAction)
    requires
        next <= self_.observables@.len(),
    ensures
        match previous {
            Err(m) => (r matches WatchAction::Failed(Error::ErrorWithDescription(e)) && e@ == m@),
            Ok(()) => if next < self_.observables@.len() {
                r matches WatchAction::Watch { rd, key } && rd@ == self_.observables@[next as int].rd@
                    && key@ == self_.observables@[next as int].key@
            } else {
                r is Done
            },
        },
{
    match previous {
        Err(m) => WatchAction::Failed(Error::ErrorWithDescription(m)),
        Ok(()) => if next < self_.observables.len() {
            WatchAction::Watch {
                rd: self_.observables[next].rd.clone(),
                key: self_.observables[next].key.clone(),
            }
        } else {
            WatchAction::Done
        },
    }
}

} // verus!
