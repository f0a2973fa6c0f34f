//! The host's end of a running scan.

use std::sync::mpsc::Receiver;
use vstd::prelude::*;

use super::PluginScanEvent;
use crate::channel::{self, lemma_since, listens_on, may_offer, since, Tap};
use crate::scan::state::{listening_to, silence, Listening, ScanState};

verus! {

/// What the channel of a scan has to offer at the moment.
pub type Poll = channel::Poll<PluginScanEvent>;

/// Background plugin scan state.
pub struct PluginScanState {
    tap: Tap<PluginScanEvent>,
    active: bool,
}

impl View for PluginScanState {
    type V = Listening<PluginScanEvent>;

    closed spec fn view(&self) -> Listening<PluginScanEvent> {
        Listening {
            state: ScanState { listening: self.tap@.receiver is Some, active: self.active },
            heard: self.tap@,
        }
    }
}

impl Default for PluginScanState {
    fn default() -> (state: Self)
        ensures
            state@ == silence::<PluginScanEvent>(),
    {
        PluginScanState { tap: Tap::idle(), active: false }
    }
}

/// The events of some polls that each yielded one.
pub open spec fn polled_events(polls: Seq<Poll>) -> Seq<PluginScanEvent> {
    polls.map_values(|poll: Poll| poll->Event_0)
}

/// Whether some events end the scan.
pub open spec fn ends_scan(events: Seq<PluginScanEvent>) -> bool {
    exists|i: int| 0 <= i < events.len() && (#[trigger] events[i]) is Finished
}

/// Whether a drain that makes these polls leads from one state to the other and yields these
/// events: it polls until nothing is there, up to the largest number of events that can be held.
/// Without a channel no poll is made.
pub open spec fn is_drain(
    before: ScanState,
    polls: Seq<Poll>,
    events: Seq<PluginScanEvent>,
    after: ScanState,
) -> bool {
    if before.listening {
        let n = events.len();
        &&& n <= usize::MAX
        &&& if n < usize::MAX {
            polls.len() == n + 1 && !(polls.last() is Event)
        } else {
            polls.len() == n
        }
        &&& forall|i: int| 0 <= i < n ==> (#[trigger] polls[i]) is Event
        &&& events == polled_events(polls.take(n as int))
        &&& after.active == (before.active && !ends_scan(events))
        &&& after.listening == after.active
    } else {
        polls.len() == 0 && events.len() == 0 && after == before
    }
}

/// A drain in progress.
pub struct Drain {
    events: Vec<PluginScanEvent>,
    active: bool,
    open: bool,
}

/// The contents of a [`Drain`].
pub struct Draining {
    /// The events so far.
    pub events: Seq<PluginScanEvent>,
    /// Whether the scan still runs.
    pub active: bool,
    /// Whether another poll is wanted.
    pub open: bool,
}

impl View for Drain {
    type V = Draining;

    closed spec fn view(&self) -> Draining {
        Draining { events: self.events@, active: self.active, open: self.open }
    }
}

impl Draining {
    /// The drain after one more poll.
    pub open spec fn after(self, poll: Poll) -> Draining {
        if !self.open {
            self
        } else {
            match poll {
                Poll::Event(event) => Draining {
                    events: self.events.push(event),
                    active: self.active && !(event is Finished),
                    open: self.events.len() + 1 < usize::MAX,
                },
                _ => Draining { open: false, ..self },
            }
        }
    }

    /// Whether this is a drain that started in a scan that ran or not, and has made these polls.
    spec fn has_made(self, active: bool, polls: Seq<Poll>) -> bool {
        let n = self.events.len();
        &&& n <= usize::MAX
        &&& if self.open {
            polls.len() == n && n < usize::MAX
        } else if n < usize::MAX {
            polls.len() == n + 1 && !(polls.last() is Event)
        } else {
            polls.len() == n
        }
        &&& forall|i: int| 0 <= i < n ==> (#[trigger] polls[i]) is Event
        &&& self.events == polled_events(polls.take(n as int))
        &&& self.active == (active && !ends_scan(self.events))
    }
}

proof fn lemma_drain_step(drain: Draining, active: bool, polls: Seq<Poll>, poll: Poll)
    requires
        drain.open,
        drain.has_made(active, polls),
    ensures
        drain.after(poll).has_made(active, polls.push(poll)),
{
    let next = drain.after(poll);
    let all = polls.push(poll);
    let n = drain.events.len() as int;
    assert(polls.take(n) =~= polls);
    assert(all.take(n) =~= polls);
    match poll {
        Poll::Event(event) => {
            assert(all.take(n + 1) =~= all);
            assert(next.events =~= polled_events(all));
            assert(next.events[n] == event);
            assert forall|i: int| 0 <= i < n implies (#[trigger] drain.events[i])
                == next.events[i] by {}
            if ends_scan(drain.events) {
                let i = choose|i: int| 0 <= i < n && (#[trigger] drain.events[i]) is Finished;
                assert(next.events[i] is Finished);
            }
            if ends_scan(next.events) && !(event is Finished) {
                let i = choose|i: int|
                    0 <= i < next.events.len() && (#[trigger] next.events[i]) is Finished;
                assert(drain.events[i] is Finished);
            }
        },
        _ => {},
    }
}

impl Drain {
    /// Starts to drain the events of a scan that runs or not.
    pub fn new(active: bool) -> (drain: Self)
        ensures
            drain@ == (Draining { events: seq![], active, open: true }),
    {
        Drain { events: Vec::new(), active, open: true }
    }

    /// Returns whether another poll is wanted.
    pub fn wants_more(&self) -> (r: bool)
        ensures
            r == self@.open,
    {
        self.open
    }

    /// Takes the outcome of a poll. It is ignored when none is wanted.
    pub fn accept(&mut self, poll: Poll)
        ensures
            final(self)@ == old(self)@.after(poll),
    {
        if !self.open {
            return ;
        }
        match poll {
            channel::Poll::Event(event) => {
                if matches!(event, PluginScanEvent::Finished { .. }) {
                    self.active = false;
                }
                self.events.push(event);
                self.open = self.events.len() < usize::MAX;
            },
            _ => {
                self.open = false;
            },
        }
    }

    /// Ends the drain: returns its events and whether the scan still runs.
    pub fn finish(self) -> (r: (Vec<PluginScanEvent>, bool))
        ensures
            r.0@ == self@.events,
            r.1 == self@.active,
    {
        (self.events, self.active)
    }
}

impl PluginScanState {
    /// Starts to listen to the background scan that sends to this channel.
    pub fn start(&mut self, receiver: Receiver<PluginScanEvent>)
        ensures
            final(self)@ == listening_to(receiver),
    {
        self.tap = Tap::open(receiver);
        self.active = true;
    }

    /// Returns whether a scan is currently running.
    pub fn is_active(&self) -> (active: bool)
        ensures
            active == self@.state.active,
    {
        self.active
    }

    /// Drains pending scan events.
    pub fn drain_events(&mut self) -> (events: Vec<PluginScanEvent>)
        ensures
            is_drain(
                old(self)@.state,
                since(old(self)@.heard.polls, final(self)@.heard.polls),
                events@,
                final(self)@.state,
            ),
            final(self)@.state.listening == (final(self)@.heard.receiver is Some),
            listens_on(old(self)@.heard, final(self)@.heard),
    {
        let ghost before = self@.state;
        let ghost earlier = self.tap.polls();
        let ghost mut polls: Seq<Poll> = seq![];
        let mut drain = Drain::new(self.active);
        proof {
            assert(polls.take(0) =~= polls);
            assert(polled_events(polls) =~= seq![]);
            assert(earlier + polls =~= earlier);
            lemma_since(earlier, polls);
        }
        if !self.tap.is_open() {
            assert(is_drain(before, polls, drain@.events, self@.state));
            return drain.finish().0;
        }
        while drain.wants_more()
            invariant
                drain@.has_made(before.active, polls),
                self.tap.receiver() is Some,
                self.tap.receiver() == old(self).tap.receiver(),
                self.active == before.active,
                self.tap.polls() == earlier + polls,
                forall|i: int|
                    0 <= i < polls.len() ==> may_offer(
                        self.tap.receiver()->Some_0,
                        #[trigger] polls[i],
                    ),
            decreases
                usize::MAX - drain@.events.len(),
                if drain@.open {
                    1int
                } else {
                    0
                },
        {
            if let Some(next) = self.tap.poll() {
                proof {
                    lemma_drain_step(drain@, before.active, polls, next);
                    assert((earlier + polls).push(next) =~= earlier + polls.push(next));
                    polls = polls.push(next);
                }
                drain.accept(next);
            }
        }
        let (events, active) = drain.finish();
        self.active = active;
        if !active {
            self.tap.close();
        }
        proof {
            lemma_since(earlier, polls);
            assert(is_drain(before, polls, events@, self@.state));
        }
        events
    }
}

/// A drain hands out what its polls yield, each event as it came and in order, until a poll yields
/// none. The scan goes on running unless its end is among the events, and is listened to as long
/// as it runs; a sender that is gone does not end it.
pub proof fn law_drain_hands_out_each_event(
    before: ScanState,
    polls: Seq<Poll>,
    events: Seq<PluginScanEvent>,
    after: ScanState,
)
    requires
        is_drain(before, polls, events, after),
    ensures
        forall|i: int| 0 <= i < events.len() ==> polls[i] == Poll::Event(#[trigger] events[i]),
        before.listening && events.len() < usize::MAX ==> polls.len() == events.len() + 1
            && !(polls.last() is Event),
        before.listening && before.active ==> (!after.active <==> exists|i: int|
            0 <= i < events.len() && (#[trigger] events[i]) is Finished),
        before.listening && !before.active ==> !after.active,
        before.listening ==> after.listening == after.active,
        !before.listening ==> events.len() == 0 && after == before,
{
    if before.listening {
        let n = events.len() as int;
        assert forall|i: int| 0 <= i < n implies polls[i] == Poll::Event(#[trigger] events[i]) by {
            assert(polls[i] is Event);
            assert(polls.take(n)[i] == polls[i]);
        }
    }
}

} // verus!
