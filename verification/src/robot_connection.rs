//! The link to the trajectory service: what to do at startup while the
//! connection is not made yet, and what to keep of the service's answers.

use vstd::prelude::*;
use crate::field::FieldPosition;

verus! {

/// How long to wait before another attempt to connect, in milliseconds.
pub const RETRY_DELAY_MS: u64 = 200;

/// Whether the link is made.
#[derive(Clone, Copy, Debug, PartialEq, Eq, Structural)]
pub enum LinkState {
    Connecting,
    Connected,
}

/// What the network reports while the link is being made.
#[derive(Clone, Copy, Debug, PartialEq, Eq, Structural)]
pub enum LinkEvent {
    /// An attempt to connect has ended, well or not.
    Attempt { succeeded: bool },
    /// Anything else.
    Other,
}

/// What to do next at startup.
#[derive(Clone, Copy, Debug, PartialEq, Eq, Structural)]
pub enum LinkAction {
    /// The link is made: stop listening and go on with startup.
    Proceed,
    /// The attempt failed: wait this many milliseconds, then connect again.
    RetryAfter(u64),
    /// Keep listening.
    Wait,
}

/// The state and the action that follow an event at startup. Startup goes
/// on only once an attempt has succeeded; every failed attempt is followed
/// by another one after the same delay.
pub open spec fn link_step(state: LinkState, event: LinkEvent) -> (LinkState, LinkAction) {
    match state {
        LinkState::Connected => (LinkState::Connected, LinkAction::Proceed),
        LinkState::Connecting => match event {
            LinkEvent::Attempt { succeeded: true } => (LinkState::Connected, LinkAction::Proceed),
            LinkEvent::Attempt { succeeded: false } => (
                LinkState::Connecting,
                LinkAction::RetryAfter(RETRY_DELAY_MS),
            ),
            LinkEvent::Other => (LinkState::Connecting, LinkAction::Wait),
        },
    }
}

/// Decides what follows an event at startup.
pub fn on_link_event(state: LinkState, event: LinkEvent) -> (next: (LinkState, LinkAction))
    ensures
        next == link_step(state, event),
{
    match state {
        LinkState::Connected => (LinkState::Connected, LinkAction::Proceed),
        LinkState::Connecting => match event {
            LinkEvent::Attempt { succeeded } => {
                if succeeded {
                    (LinkState::Connected, LinkAction::Proceed)
                } else {
                    (LinkState::Connecting, LinkAction::RetryAfter(RETRY_DELAY_MS))
                }
            },
            LinkEvent::Other => (LinkState::Connecting, LinkAction::Wait),
        },
    }
}

/// The state after a series of events, taken in order from `state`.
pub open spec fn link_after(state: LinkState, events: Seq<LinkEvent>) -> LinkState
    decreases events.len(),
{
    if events.len() == 0 {
        state
    } else {
        link_step(link_after(state, events.drop_last()), events.last()).0
    }
}

/// Startup goes on exactly when the link is made: while connecting, only a
/// successful attempt lets it proceed; and a link once made stays made.
pub proof fn lemma_proceeds_only_when_connected(state: LinkState, event: LinkEvent)
    ensures
        link_step(state, event).1 is Proceed <==> link_step(state, event).0 is Connected,
        link_step(state, event).0 is Connected <==> (state is Connected || event == (LinkEvent::Attempt {
            succeeded: true,
        })),
        state is Connected ==> link_step(state, event).0 is Connected,
{
}

/// From `Connecting`, the link is made after a series of events exactly when
/// one of them is a successful attempt.
pub proof fn lemma_connected_after_success(events: Seq<LinkEvent>)
    ensures
        link_after(LinkState::Connecting, events) is Connected <==> exists|k: int|
            0 <= k < events.len() && #[trigger] events[k] == (LinkEvent::Attempt { succeeded: true }),
    decreases events.len(),
{
    let success = LinkEvent::Attempt { succeeded: true };
    if events.len() > 0 {
        let earlier = events.drop_last();
        lemma_connected_after_success(earlier);
        if link_after(LinkState::Connecting, events) is Connected {
            if link_after(LinkState::Connecting, earlier) is Connected {
                let k = choose|k: int| 0 <= k < earlier.len() && #[trigger] earlier[k] == success;
                assert(events[k] == success);
            } else {
                assert(events[events.len() - 1] == success);
            }
        }
        if exists|k: int| 0 <= k < events.len() && #[trigger] events[k] == success {
            let k = choose|k: int| 0 <= k < events.len() && #[trigger] events[k] == success;
            if k < events.len() - 1 {
                assert(earlier[k] == success);
            }
        }
    }
}

/// The polyline last received for a routine, and whether it may be out of
/// date because a later request failed.
#[derive(Clone, Debug)]
pub struct TrajectoryCache {
    pub points: Vec<FieldPosition>,
    pub stale: bool,
}

impl TrajectoryCache {
    /// A cache that has received nothing yet.
    pub fn new() -> (cache: TrajectoryCache)
        ensures
            cache.points@.len() == 0,
            !cache.stale,
    {
        TrajectoryCache { points: Vec::new(), stale: false }
    }

    /// Takes the outcome of a request: a polyline replaces the one held; a
    /// failure leaves it in place and marks it as possibly out of date.
    pub fn record(&mut self, response: Option<Vec<FieldPosition>>)
        ensures
            match response {
                Some(points) => final(self).points@ == points@ && !final(self).stale,
                None => final(self).points@ == old(self).points@ && final(self).stale,
            },
    {
        match response {
            Some(points) => {
                self.points = points;
                self.stale = false;
            },
            None => {
                self.stale = true;
            },
        }
    }
}

} // verus!
