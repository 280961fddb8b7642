//! The scrape endpoint: what it answers, and the phases it lives through.

use vstd::prelude::*;
use crate::exposition::{content_type, encode, exposition};
use crate::registry::{InstrumentModel, Registry};
use crate::route::{get_bytes, metrics_path, root_path, route, route_of, Route};

verus! {

/// An answer to one request.
#[derive(Debug)]
pub struct Reply {
    /// The status code.
    pub status: u16,
    /// The media type of the body, where one is declared.
    pub content_type: Option<Vec<u8>>,
    /// The body.
    pub body: Vec<u8>,
}

/// An answer as mathematical values.
pub ghost struct ReplyModel {
    pub status: int,
    pub content_type: Option<Seq<u8>>,
    pub body: Seq<u8>,
}

impl View for Reply {
    type V = ReplyModel;

    open spec fn view(&self) -> ReplyModel {
        ReplyModel {
            status: self.status as int,
            content_type: match self.content_type {
                Some(t) => Some(t@),
                None => None,
            },
            body: self.body@,
        }
    }
}

/// An answer with an empty body and no declared type.
pub open spec fn bare_reply(status: int) -> ReplyModel {
    ReplyModel { status, content_type: None, body: Seq::empty() }
}

/// The answer owed on a route. `text` is the exposition of the registry,
/// or `None` where it could not be had.
pub open spec fn reply_of(r: Route, text: Option<Seq<u8>>) -> ReplyModel {
    match r {
        Route::Metrics => match text {
            Some(t) => ReplyModel { status: 200, content_type: Some(content_type()), body: t },
            None => bare_reply(500),
        },
        Route::Liveness => bare_reply(200),
        Route::NotFound => bare_reply(404),
    }
}

/// Builds the answer owed on a route. `text` is the exposition of the
/// registry, or `None` where it could not be had: a scrape is then answered
/// with 500.
pub fn respond(r: Route, text: Option<Vec<u8>>) -> (reply: Reply)
    ensures
        reply@ == reply_of(
            r,
            match text {
                Some(t) => Some(t@),
                None => None,
            },
        ),
{
    match r {
        Route::Metrics => match text {
            Some(t) => {
                let word: [u8; 25] = [
                    116,
                    101,
                    120,
                    116,
                    47,
                    112,
                    108,
                    97,
                    105,
                    110,
                    59,
                    32,
                    118,
                    101,
                    114,
                    115,
                    105,
                    111,
                    110,
                    61,
                    48,
                    46,
                    48,
                    46,
                    52,
                ];
                assert(word@ =~= content_type());
                let mut kind: Vec<u8> = Vec::new();
                crate::bytes::push_bytes(&mut kind, word.as_slice());
                assert(kind@ =~= content_type());
                Reply { status: 200, content_type: Some(kind), body: t }
            },
            None => Reply { status: 500, content_type: None, body: Vec::new() },
        },
        Route::Liveness => Reply { status: 200, content_type: None, body: Vec::new() },
        Route::NotFound => Reply { status: 404, content_type: None, body: Vec::new() },
    }
}

/// Answers one request against the registry: `GET /metrics` with the
/// exposition text, `GET /` with an empty 200, anything else with an empty
/// 404.
pub fn serve(method: &[u8], path: &[u8], registry: &Registry) -> (reply: Reply)
    requires
        registry.wf(),
    ensures
        reply@ == reply_of(route_of(method@, path@), Some(exposition(registry@))),
{
    let r = route(method, path);
    match r {
        Route::Metrics => respond(r, Some(encode(registry))),
        _ => respond(r, None),
    }
}

/// Whatever the registry holds or fails to give, a request that is neither
/// `GET /metrics` nor `GET /` is answered with 404 and an empty body.
pub proof fn lemma_unknown_is_not_found(method: Seq<u8>, path: Seq<u8>, text: Option<Seq<u8>>)
    requires
        !(method == get_bytes() && (path == metrics_path() || path == root_path())),
    ensures
        reply_of(route_of(method, path), text) == bare_reply(404),
        reply_of(route_of(method, path), text).status == 404,
        reply_of(route_of(method, path), text).body.len() == 0,
{
}

/// A scrape of instruments that could be read is answered with 200, the
/// declared media type and the exposition as body.
pub proof fn lemma_scrape_reply(s: Seq<InstrumentModel>)
    ensures
        reply_of(route_of(get_bytes(), metrics_path()), Some(exposition(s))) == (ReplyModel {
            status: 200,
            content_type: Some(content_type()),
            body: exposition(s),
        }),
{
}

/// The phase of the endpoint's life.
#[derive(Clone, Copy, Debug, PartialEq, Eq, Structural)]
pub enum Phase {
    /// Not yet bound.
    Created,
    /// Bound and accepting.
    Running,
    /// No longer accepting; accepted requests run to their end.
    ShuttingDown,
    /// Everything released.
    Stopped,
}

/// What happens to the endpoint.
#[derive(Clone, Copy, Debug, PartialEq, Eq, Structural)]
pub enum Event {
    /// The one call that starts it.
    Start,
    /// A request arrives.
    Accept,
    /// An accepted request has been answered.
    Complete,
    /// The shutdown trigger fires or is dropped.
    Shutdown,
}

/// What the endpoint's driver has to do after an event.
#[derive(Clone, Copy, Debug, PartialEq, Eq, Structural)]
pub enum Action {
    /// Bind the listener and hand out the shutdown trigger.
    Bind,
    /// Answer the request.
    Serve,
    /// Turn the request away.
    Refuse,
    /// Stop accepting; let accepted requests finish.
    StopAccepting,
    /// Release the listener.
    Release,
    /// Nothing.
    Nothing,
}

/// The endpoint's phase and the number of accepted requests not yet answered.
#[derive(Clone, Copy, Debug, PartialEq, Eq, Structural)]
pub struct Lifecycle {
    pub phase: Phase,
    pub in_flight: u64,
}

/// The state and the action that follow an event.
pub open spec fn next(s: Lifecycle, e: Event) -> (Lifecycle, Action) {
    match (s.phase, e) {
        (Phase::Created, Event::Start) => (
            Lifecycle { phase: Phase::Running, in_flight: 0 },
            Action::Bind,
        ),
        (Phase::Running, Event::Accept) => if s.in_flight < u64::MAX {
            (Lifecycle { phase: Phase::Running, in_flight: (s.in_flight + 1) as u64 }, Action::Serve)
        } else {
            (s, Action::Refuse)
        },
        (Phase::Running, Event::Complete) => if s.in_flight > 0 {
            (
                Lifecycle { phase: Phase::Running, in_flight: (s.in_flight - 1) as u64 },
                Action::Nothing,
            )
        } else {
            (s, Action::Nothing)
        },
        (Phase::Running, Event::Shutdown) => if s.in_flight > 0 {
            (Lifecycle { phase: Phase::ShuttingDown, in_flight: s.in_flight }, Action::StopAccepting)
        } else {
            (Lifecycle { phase: Phase::Stopped, in_flight: 0 }, Action::Release)
        },
        (Phase::ShuttingDown, Event::Complete) => if s.in_flight > 1 {
            (
                Lifecycle { phase: Phase::ShuttingDown, in_flight: (s.in_flight - 1) as u64 },
                Action::Nothing,
            )
        } else {
            (Lifecycle { phase: Phase::Stopped, in_flight: 0 }, Action::Release)
        },
        (Phase::ShuttingDown, Event::Accept) => (s, Action::Refuse),
        (Phase::Stopped, Event::Accept) => (s, Action::Refuse),
        (Phase::Created, Event::Accept) => (s, Action::Refuse),
        _ => (s, Action::Nothing),
    }
}

/// The state after a sequence of events.
pub open spec fn after(s: Lifecycle, events: Seq<Event>) -> Lifecycle
    decreases events.len(),
{
    if events.len() == 0 {
        s
    } else {
        next(after(s, events.drop_last()), events.last()).0
    }
}

/// `k` completions in a row.
pub open spec fn completions(k: nat) -> Seq<Event> {
    Seq::new(k, |i: int| Event::Complete)
}

impl Lifecycle {
    /// The invariant of the lifecycle: requests are in flight only while
    /// running or shutting down, and shutting down lasts only as long as
    /// one is.
    pub open spec fn wf(&self) -> bool {
        match self.phase {
            Phase::Created => self.in_flight == 0,
            Phase::Running => true,
            Phase::ShuttingDown => self.in_flight > 0,
            Phase::Stopped => self.in_flight == 0,
        }
    }

    /// Whether the invariant holds of this state.
    pub fn is_well_formed(&self) -> (r: bool)
        ensures
            r == self.wf(),
    {
        match self.phase {
            Phase::Created => self.in_flight == 0,
            Phase::Running => true,
            Phase::ShuttingDown => self.in_flight > 0,
            Phase::Stopped => self.in_flight == 0,
        }
    }

    /// An endpoint that has not been started.
    pub fn new() -> (s: Lifecycle)
        ensures
            s.wf(),
            s == (Lifecycle { phase: Phase::Created, in_flight: 0 }),
    {
        Lifecycle { phase: Phase::Created, in_flight: 0 }
    }

    /// Takes one event: the state that follows, and what the driver has to
    /// do. A request accepted before the shutdown is still counted until it
    /// completes, and `Stopped` is entered only when none is left.
    pub fn step(self, e: Event) -> (r: (Lifecycle, Action))
        requires
            self.wf(),
        ensures
            r == next(self, e),
            r.0.wf(),
            r.0.phase == Phase::Stopped ==> r.0.in_flight == 0,
    {
        match self.phase {
            Phase::Created => match e {
                Event::Start => (Lifecycle { phase: Phase::Running, in_flight: 0 }, Action::Bind),
                Event::Accept => (self, Action::Refuse),
                _ => (self, Action::Nothing),
            },
            Phase::Running => match e {
                Event::Accept => if self.in_flight < u64::MAX {
                    (
                        Lifecycle { phase: Phase::Running, in_flight: self.in_flight + 1 },
                        Action::Serve,
                    )
                } else {
                    (self, Action::Refuse)
                },
                Event::Complete => if self.in_flight > 0 {
                    (
                        Lifecycle { phase: Phase::Running, in_flight: self.in_flight - 1 },
                        Action::Nothing,
                    )
                } else {
                    (self, Action::Nothing)
                },
                Event::Shutdown => if self.in_flight > 0 {
                    (
                        Lifecycle { phase: Phase::ShuttingDown, in_flight: self.in_flight },
                        Action::StopAccepting,
                    )
                } else {
                    (Lifecycle { phase: Phase::Stopped, in_flight: 0 }, Action::Release)
                },
                Event::Start => (self, Action::Nothing),
            },
            Phase::ShuttingDown => match e {
                Event::Complete => if self.in_flight > 1 {
                    (
                        Lifecycle { phase: Phase::ShuttingDown, in_flight: self.in_flight - 1 },
                        Action::Nothing,
                    )
                } else {
                    (Lifecycle { phase: Phase::Stopped, in_flight: 0 }, Action::Release)
                },
                Event::Accept => (self, Action::Refuse),
                _ => (self, Action::Nothing),
            },
            Phase::Stopped => match e {
                Event::Accept => (self, Action::Refuse),
                _ => (self, Action::Nothing),
            },
        }
    }
}

/// Every state that events lead to from a valid one is valid: the endpoint
/// is never stopped with a request in flight.
pub proof fn lemma_after_wf(s: Lifecycle, events: Seq<Event>)
    requires
        s.wf(),
    ensures
        after(s, events).wf(),
        after(s, events).phase == Phase::Stopped ==> after(s, events).in_flight == 0,
    decreases events.len(),
{
    if events.len() > 0 {
        lemma_after_wf(s, events.drop_last());
    }
}

/// Once stopped, the endpoint stays stopped, whatever happens.
pub proof fn lemma_stopped_is_final(s: Lifecycle, events: Seq<Event>)
    requires
        s.phase == Phase::Stopped,
    ensures
        after(s, events) == s,
    decreases events.len(),
{
    if events.len() > 0 {
        lemma_stopped_is_final(s, events.drop_last());
    }
}

/// A shutdown with `k` requests in flight waits for all of them: after
/// fewer than `k` completions the endpoint is still shutting down, with
/// the rest in flight, and the `k`-th completion stops it. Each request
/// taken before the trigger fired is thus answered before `Stopped`.
pub proof fn lemma_drain(s: Lifecycle, j: nat)
    requires
        s.phase == Phase::Running,
        s.in_flight > 0,
        j <= s.in_flight,
    ensures
        next(s, Event::Shutdown).0.phase == Phase::ShuttingDown,
        j < s.in_flight ==> after(next(s, Event::Shutdown).0, completions(j)) == (Lifecycle {
            phase: Phase::ShuttingDown,
            in_flight: (s.in_flight - j) as u64,
        }),
        j == s.in_flight ==> after(next(s, Event::Shutdown).0, completions(j)) == (Lifecycle {
            phase: Phase::Stopped,
            in_flight: 0,
        }),
    decreases j,
{
    if j > 0 {
        lemma_drain(s, (j - 1) as nat);
        assert(completions(j).drop_last() =~= completions((j - 1) as nat));
        assert(completions(j).last() == Event::Complete);
    }
}

} // verus!
