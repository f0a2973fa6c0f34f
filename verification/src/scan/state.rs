//! The host's end of a running scan.

use std::sync::mpsc::Receiver;
use vstd::prelude::*;

use super::PluginScanEvent;
use crate::channel::{self, lemma_since, listens_on, may_offer, since, Heard, Tap};

verus! {

/// What the channel of a scan has to offer at the moment.
pub type Poll = channel::Poll<PluginScanEvent>;

/// Background plugin scan state.
pub struct PluginScanState {
    tap: Tap<PluginScanEvent>,
    active: bool,
}

/// How far a scan has come for the host.
pub struct ScanState {
    /// Whether there is a channel to receive from.
    pub listening: bool,
    /// Whether the scan is running.
    pub active: bool,
}

/// The contents of the host's end of a scan that sends events of type `E`.
#[verifier::reject_recursive_types(E)]
pub struct Listening<E> {
    /// How far the scan has come.
    pub state: ScanState,
    /// The channel that is listened to, and what was polled since the last start.
    pub heard: Heard<E>,
}

/// A host's end that never heard of a scan.
pub open spec fn silence<E>() -> Listening<E> {
    Listening {
        state: ScanState { listening: false, active: false },
        heard: Heard { receiver: None, polls: seq![] },
    }
}

/// A host's end that has started to listen to a channel.
pub open spec fn listening_to<E>(receiver: Receiver<E>) -> Listening<E> {
    Listening {
        state: ScanState { listening: true, active: true },
        heard: Heard { receiver: Some(receiver), polls: seq![] },
    }
}

impl View for PluginScanState {
    type V = Listening<PluginScanEvent>;

    closed spec fn view(&self) -> Listening<PluginScanEvent> {
        Listening {
            state: ScanState { listening: self.tap@.receiver is Some, active: self.active },
            heard: self.tap@,
        }
    }
}

impl Default for PluginScanState {
    fn default() -> (state: Self)
        ensures
            state@ == silence::<PluginScanEvent>(),
    {
        PluginScanState { tap: Tap::idle(), active: false }
    }
}

/// Whether the scan still runs after a poll.
pub open spec fn active_after(active: bool, poll: Poll) -> bool {
    match poll {
        Poll::Event(event) => active && !(event is Finished),
        Poll::Empty => active,
        Poll::Disconnected => false,
    }
}

/// Whether polling goes on after a poll.
pub open spec fn goes_on(active: bool, poll: Poll) -> bool {
    poll is Event && active_after(active, poll)
}

/// The events that up to `limit` polls yield, and whether the scan still runs after them.
pub open spec fn drained(active: bool, limit: nat, polls: Seq<Poll>) -> (
    Seq<PluginScanEvent>,
    bool,
)
    decreases polls.len(),
{
    if limit == 0 || polls.len() == 0 {
        (seq![], active)
    } else {
        let now = active_after(active, polls[0]);
        let rest = if goes_on(active, polls[0]) {
            drained(now, (limit - 1) as nat, polls.drop_first())
        } else {
            (seq![], now)
        };
        match polls[0] {
            Poll::Event(event) => (seq![event] + rest.0, rest.1),
            _ => rest,
        }
    }
}

/// Whether these are all the polls that a drain with this limit makes.
pub open spec fn is_complete(active: bool, limit: nat, polls: Seq<Poll>) -> bool
    decreases polls.len(),
{
    if limit == 0 {
        polls.len() == 0
    } else {
        &&& polls.len() > 0
        &&& if goes_on(active, polls[0]) {
            is_complete(active_after(active, polls[0]), (limit - 1) as nat, polls.drop_first())
        } else {
            polls.len() == 1
        }
    }
}

/// The state after a drain.
pub open spec fn state_after(before: ScanState, limit: nat, polls: Seq<Poll>) -> ScanState {
    if limit == 0 || !before.listening {
        before
    } else {
        let active = drained(before.active, limit, polls).1;
        ScanState { listening: active, active }
    }
}

/// The events of a drain.
pub open spec fn events_of(before: ScanState, limit: nat, polls: Seq<Poll>) -> Seq<
    PluginScanEvent,
> {
    if before.listening {
        drained(before.active, limit, polls).0
    } else {
        seq![]
    }
}

/// Whether a drain that makes these polls, and no others, leads from one state to the other and
/// yields these events. Without a channel no poll is made.
pub open spec fn is_drain(
    before: ScanState,
    limit: nat,
    polls: Seq<Poll>,
    events: Seq<PluginScanEvent>,
    after: ScanState,
) -> bool {
    &&& if before.listening {
        is_complete(before.active, limit, polls)
    } else {
        polls.len() == 0
    }
    &&& events == events_of(before, limit, polls)
    &&& after == state_after(before, limit, polls)
}

/// Polls that each yield an event which does not end the scan.
pub open spec fn all_go_on(polls: Seq<Poll>) -> bool {
    forall|i: int| 0 <= i < polls.len() ==> goes_on(true, #[trigger] polls[i])
}

/// The events of such polls.
pub open spec fn polled_events(polls: Seq<Poll>) -> Seq<PluginScanEvent> {
    polls.map_values(|poll: Poll| poll->Event_0)
}

proof fn lemma_drained_prefix(limit: nat, polls: Seq<Poll>, rest: Seq<Poll>)
    requires
        polls.len() <= limit,
        all_go_on(polls),
    ensures
        ({
            let tail = drained(true, (limit - polls.len()) as nat, rest);
            drained(true, limit, polls + rest) == (polled_events(polls) + tail.0, tail.1)
        }),
        is_complete(true, limit, polls + rest) == is_complete(
            true,
            (limit - polls.len()) as nat,
            rest,
        ),
    decreases polls.len(),
{
    if polls.len() == 0 {
        assert(polls + rest =~= rest);
        assert(polled_events(polls) =~= seq![]);
        let tail = drained(true, limit, rest);
        assert(Seq::<PluginScanEvent>::empty() + tail.0 =~= tail.0);
    } else {
        let later = polls.drop_first();
        lemma_drained_prefix((limit - 1) as nat, later, rest);
        assert((polls + rest).drop_first() =~= later + rest);
        assert(goes_on(true, polls[0]));
        let tail = drained(true, (limit - polls.len()) as nat, rest);
        assert(seq![polls[0]->Event_0] + (polled_events(later) + tail.0) =~= polled_events(polls)
            + tail.0);
    }
}

/// A drain in progress.
pub struct Drain {
    events: Vec<PluginScanEvent>,
    active: bool,
    limit: usize,
    open: bool,
}

/// The contents of a [`Drain`].
pub struct Draining {
    /// The events so far.
    pub events: Seq<PluginScanEvent>,
    /// Whether the scan still runs.
    pub active: bool,
    /// The largest number of events.
    pub limit: nat,
    /// Whether another poll is wanted.
    pub open: bool,
}

impl View for Drain {
    type V = Draining;

    closed spec fn view(&self) -> Draining {
        Draining {
            events: self.events@,
            active: self.active,
            limit: self.limit as nat,
            open: self.open,
        }
    }
}

impl Draining {
    /// The drain after one more poll.
    pub open spec fn after(self, poll: Poll) -> Draining {
        if !self.open {
            self
        } else {
            match poll {
                Poll::Event(event) => {
                    let active = self.active && !(event is Finished);
                    Draining {
                        events: self.events.push(event),
                        active,
                        limit: self.limit,
                        open: active && self.events.len() + 1 < self.limit,
                    }
                },
                Poll::Empty => Draining { open: false, ..self },
                Poll::Disconnected => Draining { active: false, open: false, ..self },
            }
        }
    }

    /// Whether this is a drain that started in a scan that ran or not, and has made these polls.
    spec fn has_made(self, active: bool, polls: Seq<Poll>) -> bool {
        if self.open {
            &&& polls.len() < self.limit
            &&& all_go_on(polls)
            &&& self.events == polled_events(polls)
            &&& self.active == active
            &&& polls.len() > 0 ==> active
        } else {
            &&& is_complete(active, self.limit, polls)
            &&& drained(active, self.limit, polls) == (self.events, self.active)
        }
    }
}

proof fn lemma_drain_step(drain: Draining, active: bool, polls: Seq<Poll>, poll: Poll)
    requires
        drain.open,
        drain.has_made(active, polls),
    ensures
        drain.after(poll).has_made(active, polls.push(poll)),
{
    let next = drain.after(poll);
    let all = polls.push(poll);
    assert(all =~= polls + seq![poll]);
    let one = seq![poll];
    assert(one.drop_first() =~= seq![]);
    let left = (drain.limit - polls.len()) as nat;
    let nothing: Seq<Poll> = seq![];
    if next.open {
        assert(all_go_on(all)) by {
            assert forall|i: int| 0 <= i < all.len() implies goes_on(true, #[trigger] all[i]) by {
                if i < polls.len() {
                    assert(all[i] == polls[i]);
                }
            }
        }
        assert(polled_events(all) =~= polled_events(polls).push(poll->Event_0));
    } else if active {
        lemma_drained_prefix(drain.limit, polls, one);
        if goes_on(true, poll) {
            assert(left == 1);
            assert(is_complete(true, 0, nothing));
            assert(drained(true, 0, nothing) == (Seq::<PluginScanEvent>::empty(), true));
        }
        let tail = drained(true, left, one);
        match poll {
            Poll::Event(event) => {
                assert(tail.0 =~= seq![event]);
                assert(polled_events(polls) + tail.0 =~= next.events);
            },
            _ => {
                assert(polled_events(polls) + tail.0 =~= next.events);
            },
        }
    } else {
        assert(polls =~= nothing);
        assert(polled_events(polls) =~= seq![]);
        assert(all =~= one);
        match poll {
            Poll::Event(event) => {
                assert(drained(active, drain.limit, all).0 =~= seq![event]);
                assert(next.events =~= seq![event]);
            },
            _ => {},
        }
    }
}

impl Drain {
    /// Starts to drain up to `limit` events of a scan that runs or not.
    pub fn new(active: bool, limit: usize) -> (drain: Self)
        ensures
            drain@ == (Draining {
                events: seq![],
                active,
                limit: limit as nat,
                open: limit > 0,
            }),
    {
        Drain { events: Vec::new(), active, limit, open: limit > 0 }
    }

    /// Returns whether another poll is wanted.
    pub fn wants_more(&self) -> (r: bool)
        ensures
            r == self@.open,
    {
        self.open
    }

    /// Takes the outcome of a poll. It is ignored when none is wanted.
    pub fn accept(&mut self, poll: Poll)
        ensures
            final(self)@ == old(self)@.after(poll),
    {
        if !self.open {
            return ;
        }
        match poll {
            Poll::Event(event) => {
                if matches!(event, PluginScanEvent::Finished { .. }) {
                    self.active = false;
                }
                self.events.push(event);
                self.open = self.active && self.events.len() < self.limit;
            },
            Poll::Empty => {
                self.open = false;
            },
            Poll::Disconnected => {
                self.active = false;
                self.open = false;
            },
        }
    }

    /// Ends the drain: returns its events and whether the scan still runs.
    pub fn finish(self) -> (r: (Vec<PluginScanEvent>, bool))
        ensures
            r.0@ == self@.events,
            r.1 == self@.active,
    {
        (self.events, self.active)
    }
}

impl PluginScanState {
    /// Starts to listen to the background scan that sends to this channel.
    pub fn start(&mut self, receiver: Receiver<PluginScanEvent>)
        ensures
            final(self)@ == listening_to(receiver),
    {
        self.tap = Tap::open(receiver);
        self.active = true;
    }

    /// Returns whether a scan is currently running.
    #[must_use]
    pub fn is_active(&self) -> (active: bool)
        ensures
            active == self@.state.active,
    {
        self.active
    }

    /// Drains pending scan events.
    pub fn drain_events(&mut self) -> (events: Vec<PluginScanEvent>)
        ensures
            is_drain(
                old(self)@.state,
                usize::MAX as nat,
                since(old(self)@.heard.polls, final(self)@.heard.polls),
                events@,
                final(self)@.state,
            ),
            final(self)@.state.listening == (final(self)@.heard.receiver is Some),
            listens_on(old(self)@.heard, final(self)@.heard),
    {
        self.drain_events_with_limit(usize::MAX)
    }

    /// Drains up to `limit` pending scan events.
    pub fn drain_events_with_limit(&mut self, limit: usize) -> (events: Vec<PluginScanEvent>)
        ensures
            is_drain(
                old(self)@.state,
                limit as nat,
                since(old(self)@.heard.polls, final(self)@.heard.polls),
                events@,
                final(self)@.state,
            ),
            final(self)@.state.listening == (final(self)@.heard.receiver is Some),
            listens_on(old(self)@.heard, final(self)@.heard),
    {
        let mut drain = Drain::new(self.active, limit);
        let ghost before = self@.state;
        let ghost earlier = self.tap.polls();
        let ghost mut polls: Seq<Poll> = seq![];
        proof {
            assert(polled_events(polls) =~= seq![]);
            assert(earlier + polls =~= earlier);
            lemma_since(earlier, polls);
        }
        if !self.tap.is_open() {
            assert(is_drain(before, limit as nat, polls, drain@.events, self@.state));
            return drain.finish().0;
        }
        while drain.wants_more()
            invariant
                drain@.limit == limit,
                drain@.has_made(before.active, polls),
                self.tap.receiver() is Some,
                self.tap.receiver() == old(self).tap.receiver(),
                self.active == before.active,
                self.tap.polls() == earlier + polls,
                forall|i: int|
                    0 <= i < polls.len() ==> may_offer(
                        self.tap.receiver()->Some_0,
                        #[trigger] polls[i],
                    ),
            decreases
                drain@.limit - drain@.events.len(),
                if drain@.open {
                    1int
                } else {
                    0
                },
        {
            if let Some(next) = self.tap.poll() {
                proof {
                    lemma_drain_step(drain@, before.active, polls, next);
                    assert((earlier + polls).push(next) =~= earlier + polls.push(next));
                    polls = polls.push(next);
                }
                drain.accept(next);
            }
        }
        let (events, active) = drain.finish();
        self.active = active;
        if limit > 0 && !active {
            self.tap.close();
        }
        proof {
            lemma_since(earlier, polls);
            assert(is_drain(before, limit as nat, polls, events@, self@.state));
        }
        events
    }
}

/// A drain yields no more events than its limit, and none with the limit zero.
pub proof fn law_drain_keeps_limit(active: bool, limit: nat, polls: Seq<Poll>)
    ensures
        drained(active, limit, polls).0.len() <= limit,
        drained(active, 0, polls) == (Seq::<PluginScanEvent>::empty(), active),
    decreases limit,
{
    if limit > 0 && polls.len() > 0 && goes_on(active, polls[0]) {
        law_drain_keeps_limit(
            active_after(active, polls[0]),
            (limit - 1) as nat,
            polls.drop_first(),
        );
    }
}

/// The polls that a drain makes of a channel with these events pending, while nothing is sent.
pub open spec fn polls_of(pending: Seq<PluginScanEvent>, sender_gone: bool, limit: nat) -> Seq<Poll>
    decreases limit,
{
    if limit == 0 {
        seq![]
    } else if pending.len() == 0 {
        seq![
            if sender_gone {
                Poll::Disconnected
            } else {
                Poll::Empty
            },
        ]
    } else if pending[0] is Finished {
        seq![Poll::Event(pending[0])]
    } else {
        seq![Poll::Event(pending[0])] + polls_of(
            pending.skip(1),
            sender_gone,
            (limit - 1) as nat,
        )
    }
}

/// What a drain of a running scan with these events pending comes to, while nothing is sent: the
/// events, the state after it, and what is still pending.
pub open spec fn drain_of(
    before: ScanState,
    pending: Seq<PluginScanEvent>,
    sender_gone: bool,
    limit: nat,
) -> (Seq<PluginScanEvent>, ScanState, Seq<PluginScanEvent>) {
    let polls = if before.listening {
        polls_of(pending, sender_gone, limit)
    } else {
        seq![]
    };
    let events = events_of(before, limit, polls);
    (events, state_after(before, limit, polls), pending.skip(events.len() as int))
}

/// The state of a scan that runs.
pub open spec fn running() -> ScanState {
    ScanState { listening: true, active: true }
}

proof fn lemma_polls_of(pending: Seq<PluginScanEvent>, sender_gone: bool, limit: nat)
    ensures
        is_complete(true, limit, polls_of(pending, sender_gone, limit)),
        limit > 0 && pending.len() > 0 && !(pending[0] is Finished) ==> ({
            let polls = polls_of(pending, sender_gone, limit);
            let rest = polls_of(pending.skip(1), sender_gone, (limit - 1) as nat);
            &&& polls.len() > 0
            &&& polls[0] == Poll::Event(pending[0])
            &&& polls.drop_first() == rest
        }),
    decreases limit,
{
    if limit > 0 && pending.len() > 0 && !(pending[0] is Finished) {
        let rest = polls_of(pending.skip(1), sender_gone, (limit - 1) as nat);
        lemma_polls_of(pending.skip(1), sender_gone, (limit - 1) as nat);
        assert(polls_of(pending, sender_gone, limit).drop_first() =~= rest);
    }
}

proof fn lemma_drain_one(pending: Seq<PluginScanEvent>, sender_gone: bool, limit: nat)
    requires
        limit > 0,
        pending.len() > 0,
        !(pending[0] is Finished),
    ensures
        ({
            let all = drain_of(running(), pending, sender_gone, limit);
            let less = (limit - 1) as nat;
            let rest = drained(true, less, polls_of(pending.skip(1), sender_gone, less));
            &&& all.0 == seq![pending[0]] + rest.0
            &&& all.1 == (ScanState { listening: rest.1, active: rest.1 })
        }),
{
    lemma_polls_of(pending, sender_gone, limit);
}

proof fn lemma_drains_add_up(
    pending: Seq<PluginScanEvent>,
    sender_gone: bool,
    limit: nat,
    more: nat,
)
    ensures
        ({
            let first = drain_of(running(), pending, sender_gone, limit);
            let second = drain_of(first.1, first.2, sender_gone, more);
            let single = drain_of(running(), pending, sender_gone, limit + more);
            &&& single.0 == first.0 + second.0
            &&& single.1 == second.1
            &&& single.2 == second.2
        }),
    decreases limit,
{
    let first = drain_of(running(), pending, sender_gone, limit);
    let second = drain_of(first.1, first.2, sender_gone, more);
    let single = drain_of(running(), pending, sender_gone, limit + more);
    let nothing: Seq<PluginScanEvent> = seq![];
    if limit == 0 {
        assert(pending.skip(0) =~= pending);
        assert(single.0 =~= first.0 + second.0);
    } else if pending.len() == 0 {
        assert(polls_of(pending, sender_gone, limit).drop_first() =~= seq![]);
        assert(first.0 =~= nothing);
        assert(single.0 =~= nothing);
        assert(first.2 =~= nothing);
        assert(second.0 =~= nothing);
        assert(single.2 =~= nothing);
        assert(second.2 =~= nothing);
    } else if pending[0] is Finished {
        assert(first.0 =~= seq![pending[0]]);
        assert(single.0 =~= seq![pending[0]]);
        assert(second.0 =~= nothing);
        assert(single.0 =~= first.0 + second.0);
        assert(first.2.skip(0) =~= first.2);
    } else {
        let rest = pending.skip(1);
        let less = (limit - 1) as nat;
        lemma_drains_add_up(rest, sender_gone, less, more);
        lemma_drain_one(pending, sender_gone, limit);
        lemma_drain_one(pending, sender_gone, limit + more);
        assert((limit + more - 1) as nat == less + more);
        let first_rest = drain_of(running(), rest, sender_gone, less);
        let single_rest = drain_of(running(), rest, sender_gone, less + more);
        lemma_running_state(rest, sender_gone, less);
        lemma_running_state(rest, sender_gone, less + more);
        lemma_drained_is_pending(rest, sender_gone, less);
        lemma_drained_is_pending(rest, sender_gone, less + more);
        assert(first.2 =~= first_rest.2);
        assert(single.2 =~= single_rest.2);
        assert(single.0 =~= first.0 + second.0);
    }
}

proof fn lemma_drained_is_pending(pending: Seq<PluginScanEvent>, sender_gone: bool, limit: nat)
    ensures
        ({
            let events = drained(true, limit, polls_of(pending, sender_gone, limit)).0;
            events.len() <= pending.len() && events == pending.take(events.len() as int)
        }),
    decreases limit,
{
    let events = drained(true, limit, polls_of(pending, sender_gone, limit)).0;
    if limit > 0 && pending.len() > 0 {
        if pending[0] is Finished {
            assert(events =~= seq![pending[0]]);
            assert(pending.take(1) =~= seq![pending[0]]);
        } else {
            let rest = pending.skip(1);
            let less = (limit - 1) as nat;
            lemma_drained_is_pending(rest, sender_gone, less);
            lemma_polls_of(pending, sender_gone, limit);
            let later = drained(true, less, polls_of(rest, sender_gone, less)).0;
            assert(events =~= seq![pending[0]] + later);
            assert(events =~= pending.take(events.len() as int));
        }
    } else {
        assert(events =~= pending.take(0));
    }
}

proof fn lemma_running_state(pending: Seq<PluginScanEvent>, sender_gone: bool, limit: nat)
    ensures
        ({
            let active = drained(true, limit, polls_of(pending, sender_gone, limit)).1;
            drain_of(running(), pending, sender_gone, limit).1 == (ScanState {
                listening: active,
                active,
            })
        }),
{
}

proof fn lemma_limit_beyond_pending(
    pending: Seq<PluginScanEvent>,
    sender_gone: bool,
    a: nat,
    b: nat,
)
    requires
        pending.len() < a,
        pending.len() < b,
    ensures
        drained(true, a, polls_of(pending, sender_gone, a)) == drained(
            true,
            b,
            polls_of(pending, sender_gone, b),
        ),
    decreases pending.len(),
{
    if pending.len() > 0 && !(pending[0] is Finished) {
        lemma_limit_beyond_pending(
            pending.skip(1),
            sender_gone,
            (a - 1) as nat,
            (b - 1) as nat,
        );
        lemma_polls_of(pending, sender_gone, a);
        lemma_polls_of(pending, sender_gone, b);
    } else if pending.len() > 0 {
        assert(drained(true, a, polls_of(pending, sender_gone, a)).0 =~= seq![pending[0]]);
        assert(drained(true, b, polls_of(pending, sender_gone, b)).0 =~= seq![pending[0]]);
    }
}

/// Nothing is lost between two drains of a running scan, whatever is pending: a drain with any
/// limit and another one yield together what a single drain with both limits does, and leave the
/// same state. With fewer events pending than can be counted, that is also what a single drain
/// without a limit does after one with any.
pub proof fn law_drains_add_up(
    pending: Seq<PluginScanEvent>,
    sender_gone: bool,
    limit: nat,
    more: nat,
)
    ensures
        is_complete(true, limit, polls_of(pending, sender_gone, limit)),
        ({
            let first = drain_of(running(), pending, sender_gone, limit);
            let second = drain_of(first.1, first.2, sender_gone, more);
            let single = drain_of(running(), pending, sender_gone, limit + more);
            &&& single.0 == first.0 + second.0
            &&& single.1 == second.1
        }),
        pending.len() < usize::MAX ==> ({
            let first = drain_of(running(), pending, sender_gone, limit);
            let second = drain_of(first.1, first.2, sender_gone, usize::MAX as nat);
            let single = drain_of(running(), pending, sender_gone, usize::MAX as nat);
            &&& single.0 == first.0 + second.0
            &&& single.1 == second.1
        }),
{
    lemma_polls_of(pending, sender_gone, limit);
    lemma_drains_add_up(pending, sender_gone, limit, more);
    if pending.len() < usize::MAX {
        lemma_drains_add_up(pending, sender_gone, limit, usize::MAX as nat);
        lemma_limit_beyond_pending(
            pending,
            sender_gone,
            usize::MAX as nat,
            limit + usize::MAX as nat,
        );
    }
}

/// One call on the host's end of a scan.
pub enum Call {
    /// A start.
    Start,
    /// A drain that made these polls.
    Drain { limit: nat, polls: Seq<Poll> },
}

/// The state that some calls lead to.
pub open spec fn reached(calls: Seq<Call>) -> ScanState
    decreases calls.len(),
{
    if calls.len() == 0 {
        ScanState { listening: false, active: false }
    } else {
        match calls.last() {
            Call::Start => running(),
            Call::Drain { limit, polls } => state_after(reached(calls.drop_last()), limit, polls),
        }
    }
}

/// Whether each drain among some calls makes the polls that a drain makes.
pub open spec fn is_history(calls: Seq<Call>) -> bool
    decreases calls.len(),
{
    calls.len() > 0 ==> {
        let before = reached(calls.drop_last());
        &&& is_history(calls.drop_last())
        &&& calls.last() matches Call::Drain { limit, polls } ==> if before.listening {
            is_complete(before.active, limit, polls)
        } else {
            polls.len() == 0
        }
    }
}

/// The position of the last start among some calls, or -1.
pub open spec fn last_start(calls: Seq<Call>) -> int
    decreases calls.len(),
{
    if calls.len() == 0 {
        -1
    } else if calls.last() is Start {
        calls.len() - 1
    } else {
        last_start(calls.drop_last())
    }
}

/// Whether a poll shows that the scan is over: it yields the event that ends the scan, or finds
/// nothing left and the sender gone.
pub open spec fn ends_scan(poll: Poll) -> bool {
    match poll {
        Poll::Event(event) => event is Finished,
        Poll::Empty => false,
        Poll::Disconnected => true,
    }
}

/// Whether some call after a position is a drain that found the scan over.
pub open spec fn found_over(calls: Seq<Call>, start: int) -> bool {
    exists|k: int, i: int| start < k < calls.len() && #[trigger] polls_in(calls, k, i)
}

/// Whether a poll of a drain shows that the scan is over.
pub open spec fn polls_in(calls: Seq<Call>, k: int, i: int) -> bool {
    calls[k] matches Call::Drain { polls, .. } && 0 <= i < polls.len() && ends_scan(polls[i])
}

proof fn lemma_active_after_polls(limit: nat, polls: Seq<Poll>)
    requires
        is_complete(true, limit, polls),
    ensures
        drained(true, limit, polls).1 == !(exists|i: int|
            0 <= i < polls.len() && #[trigger] ends_scan(polls[i])),
    decreases polls.len(),
{
    if limit > 0 {
        if goes_on(true, polls[0]) {
            let rest = polls.drop_first();
            lemma_active_after_polls((limit - 1) as nat, rest);
            if exists|i: int| 0 <= i < rest.len() && #[trigger] ends_scan(rest[i]) {
                let i = choose|i: int| 0 <= i < rest.len() && #[trigger] ends_scan(rest[i]);
                assert(ends_scan(polls[i + 1]));
            }
            if exists|i: int| 0 <= i < polls.len() && #[trigger] ends_scan(polls[i]) {
                let i = choose|i: int| 0 <= i < polls.len() && #[trigger] ends_scan(polls[i]);
                assert(rest[i - 1] == polls[i]);
                assert(ends_scan(rest[i - 1]));
            }
        } else {
            assert(polls.len() == 1);
            if ends_scan(polls[0]) {
                assert(!drained(true, limit, polls).1);
            }
        }
    }
}

/// Over any history of calls, a scan is running exactly if it was started, and no drain since the
/// last start returned the event that ends it or found its channel empty and its sender gone. The
/// host listens exactly as long as the scan is running.
pub proof fn law_active_over_history(calls: Seq<Call>)
    requires
        is_history(calls),
    ensures
        reached(calls).active == (last_start(calls) >= 0 && !found_over(calls, last_start(calls))),
        reached(calls).listening == reached(calls).active,
        -1 <= last_start(calls) < calls.len(),
    decreases calls.len(),
{
    if calls.len() > 0 {
        let earlier = calls.drop_last();
        let last = calls.len() - 1;
        let start = last_start(earlier);
        law_active_over_history(earlier);
        match calls.last() {
            Call::Start => {},
            Call::Drain { limit, polls } => {
                if found_over(earlier, start) {
                    let (k, i) = choose|k: int, i: int|
                        start < k < earlier.len() && #[trigger] polls_in(earlier, k, i);
                    assert(earlier[k] == calls[k]);
                    assert(polls_in(calls, k, i));
                }
                if reached(earlier).listening {
                    lemma_active_after_polls(limit, polls);
                    if exists|i: int| 0 <= i < polls.len() && #[trigger] ends_scan(polls[i]) {
                        let i = choose|i: int|
                            0 <= i < polls.len() && #[trigger] ends_scan(polls[i]);
                        assert(polls_in(calls, last, i));
                    }
                }
                if found_over(calls, start) {
                    let (k, i) = choose|k: int, i: int|
                        start < k < calls.len() && #[trigger] polls_in(calls, k, i);
                    if k < last {
                        assert(earlier[k] == calls[k]);
                        assert(polls_in(earlier, k, i));
                    } else {
                        assert(ends_scan(polls[i]));
                    }
                }
            },
        }
    }
}

/// Only the last event of a drain can be the end of the scan, and with it the scan is no longer
/// active.
pub proof fn law_finish_is_last(active: bool, limit: nat, polls: Seq<Poll>)
    ensures
        forall|i: int|
            0 <= i < drained(active, limit, polls).0.len() && #[trigger] drained(
                active,
                limit,
                polls,
            ).0[i] is Finished ==> i == drained(active, limit, polls).0.len() - 1 && !drained(
                active,
                limit,
                polls,
            ).1,
    decreases limit,
{
    if limit > 0 && polls.len() > 0 && goes_on(active, polls[0]) {
        let rest = drained(
            active_after(active, polls[0]),
            (limit - 1) as nat,
            polls.drop_first(),
        );
        law_finish_is_last(
            active_after(active, polls[0]),
            (limit - 1) as nat,
            polls.drop_first(),
        );
        let all = drained(active, limit, polls);
        assert forall|i: int| 0 <= i < all.0.len() && #[trigger] all.0[i] is Finished implies i
            == all.0.len() - 1 && !all.1 by {
            if i > 0 {
                assert(all.0[i] == rest.0[i - 1]);
            }
        }
    }
}

/// A drain of a running scan hands out what its polls yield, each event as it came and in order;
/// it stops short of its limit only where nothing is left, the sender is gone, or the scan has
/// ended. The scan goes on running unless its end came, or the sender was gone.
pub proof fn law_drain_hands_out_each_event(limit: nat, polls: Seq<Poll>)
    requires
        is_complete(true, limit, polls),
    ensures
        ({
            let (events, active) = drained(true, limit, polls);
            &&& events.len() <= polls.len() <= events.len() + 1
            &&& events.len() <= limit
            &&& forall|i: int|
                0 <= i < events.len() ==> polls[i] == Poll::Event(#[trigger] events[i])
            &&& polls.len() > events.len() ==> !(polls.last() is Event)
            &&& events.len() < limit ==> polls.len() > 0 && (polls.last() is Empty
                || polls.last() is Disconnected || events.len() > 0 && events.last() is Finished)
            &&& active ==> forall|i: int|
                0 <= i < polls.len() ==> !(#[trigger] polls[i] is Disconnected) && !(
                polls[i] matches Poll::Event(event) && event is Finished)
            &&& !active ==> polls.last() is Disconnected || events.len() > 0
                && events.last() is Finished
        }),
    decreases polls.len(),
{
    if limit > 0 {
        let now = active_after(true, polls[0]);
        if goes_on(true, polls[0]) {
            let later = polls.drop_first();
            law_drain_hands_out_each_event((limit - 1) as nat, later);
            let rest = drained(true, (limit - 1) as nat, later).0;
            let events = drained(true, limit, polls).0;
            assert(events =~= seq![polls[0]->Event_0] + rest);
            assert forall|i: int| 0 <= i < events.len() implies polls[i] == Poll::Event(
                #[trigger] events[i],
            ) by {
                if i > 0 {
                    assert(later[i - 1] == Poll::Event(rest[i - 1]));
                }
            }
            if drained(true, limit, polls).1 {
                assert forall|i: int| 0 <= i < polls.len() implies !(
                #[trigger] polls[i] is Disconnected) && !(polls[i] matches Poll::Event(event)
                    && event is Finished) by {
                    if i > 0 {
                        assert(polls[i] == later[i - 1]);
                    }
                }
            }
            if rest.len() > 0 {
                assert(events.last() == rest.last());
            }
            if later.len() > 0 {
                assert(polls.last() == later.last());
            }
        } else {
            assert(polls.len() == 1);
        }
    }
}

/// What is pending is handed out from its beginning: all of it that the limit admits, up to the
/// event that ends the scan. What is not handed out stays pending. The scan has ended exactly if
/// its end was handed out, or if nothing was left and the sender was gone.
pub proof fn law_pending_events_are_handed_out(
    pending: Seq<PluginScanEvent>,
    sender_gone: bool,
    limit: nat,
    end: int,
)
    requires
        0 <= end <= pending.len(),
        forall|i: int| 0 <= i < end ==> !((#[trigger] pending[i]) is Finished),
        end < pending.len() ==> pending[end] is Finished,
    ensures
        ({
            let (events, after, left) = drain_of(running(), pending, sender_gone, limit);
            let n = if limit <= end {
                limit as int
            } else if end < pending.len() {
                end + 1
            } else {
                end
            };
            &&& events == pending.take(n)
            &&& left == pending.skip(n)
            &&& after.active == !(limit > end && (end < pending.len() || sender_gone))
            &&& after.listening == after.active
        }),
    decreases limit,
{
    let (events, after, left) = drain_of(running(), pending, sender_gone, limit);
    if limit > 0 {
        if pending.len() == 0 {
            assert(polls_of(pending, sender_gone, limit).drop_first() =~= seq![]);
            assert(events =~= pending.take(0));
        } else if pending[0] is Finished {
            assert(end == 0);
            assert(events =~= seq![pending[0]]);
            assert(pending.take(1) =~= seq![pending[0]]);
        } else {
            let rest = pending.skip(1);
            assert forall|i: int| 0 <= i < end - 1 implies !((#[trigger] rest[i]) is Finished) by {
                assert(!(pending[i + 1] is Finished));
            }
            law_pending_events_are_handed_out(rest, sender_gone, (limit - 1) as nat, end - 1);
            lemma_drain_one(pending, sender_gone, limit);
            lemma_running_state(rest, sender_gone, (limit - 1) as nat);
            let n = if limit <= end {
                limit as int
            } else if end < pending.len() {
                end + 1
            } else {
                end
            };
            assert(events =~= pending.take(n));
        }
    } else {
        assert(events =~= pending.take(0));
    }
}

/// A host's end that was started runs and listens to the channel that it was given; one that never
/// was does neither.
pub proof fn law_started_scan_is_listened_to<E>(receiver: Receiver<E>)
    ensures
        listening_to(receiver).state.active,
        listening_to(receiver).state.listening,
        listening_to(receiver).heard.receiver == Some(receiver),
        listening_to(receiver).heard.polls.len() == 0,
        !silence::<E>().state.active,
        !silence::<E>().state.listening,
        silence::<E>().heard.receiver is None,
        silence::<E>().heard.polls.len() == 0,
{
}

} // verus!
