//! Receiving from a channel without waiting.

use std::sync::mpsc::{Receiver, TryRecvError};
use vstd::prelude::*;

verus! {

/// The receiving end of a channel.
#[verifier::external_type_specification]
#[verifier::external_body]
#[verifier::reject_recursive_types(T)]
pub struct ExReceiver<T>(Receiver<T>);

/// What a channel has to offer at the moment.
pub enum Poll<E> {
    /// The next event.
    Event(E),
    /// Nothing yet.
    Empty,
    /// Nothing ever again: the sender is gone.
    Disconnected,
}

/// Calls `Receiver::try_recv`. What it returns depends on what was sent by then, so nothing is
/// stated of it.
#[verifier::external_body]
fn try_receive<E>(receiver: &Receiver<E>) -> (poll: Poll<E>) {
    match receiver.try_recv() {
        Ok(event) => Poll::Event(event),
        Err(TryRecvError::Empty) => Poll::Empty,
        Err(TryRecvError::Disconnected) => Poll::Disconnected,
    }
}

/// Whether a poll is one that a channel may have to offer when it is asked.
pub closed spec fn may_offer<E>(receiver: Receiver<E>, poll: Poll<E>) -> bool {
    call_ensures(try_receive::<E>, (&receiver,), poll)
}

/// A place to listen to a channel, which may be without one. It knows all that was polled since
/// its channel was opened.
#[verifier::reject_recursive_types(E)]
pub struct Tap<E> {
    receiver: Option<Receiver<E>>,
    polls: Ghost<Seq<Poll<E>>>,
}

impl<E> Tap<E> {
    /// The channel that is listened to.
    pub closed spec fn receiver(&self) -> Option<Receiver<E>> {
        self.receiver
    }

    /// The polls that were made since the channel was opened, in order.
    pub closed spec fn polls(&self) -> Seq<Poll<E>> {
        self.polls@
    }

    /// A tap without a channel.
    pub fn idle() -> (tap: Self)
        ensures
            tap.receiver() is None,
            tap.polls() == Seq::<Poll<E>>::empty(),
    {
        Tap { receiver: None, polls: Ghost(Seq::empty()) }
    }

    /// A tap on a channel.
    pub fn open(receiver: Receiver<E>) -> (tap: Self)
        ensures
            tap.receiver() == Some(receiver),
            tap.polls() == Seq::<Poll<E>>::empty(),
    {
        Tap { receiver: Some(receiver), polls: Ghost(Seq::empty()) }
    }

    /// Returns whether there is a channel.
    pub fn is_open(&self) -> (open: bool)
        ensures
            open == (self.receiver() is Some),
    {
        self.receiver.is_some()
    }

    /// Asks the channel for its next event, if there is a channel.
    pub fn poll(&mut self) -> (poll: Option<Poll<E>>)
        ensures
            final(self).receiver() == old(self).receiver(),
            poll is Some <==> old(self).receiver() is Some,
            final(self).polls() == match poll {
                Some(p) => old(self).polls().push(p),
                None => old(self).polls(),
            },
            poll matches Some(p) ==> may_offer(old(self).receiver()->Some_0, p),
    {
        match &self.receiver {
            None => None,
            Some(receiver) => {
                let poll = try_receive(receiver);
                proof {
                    self.polls@ = self.polls@.push(poll);
                }
                Some(poll)
            },
        }
    }

    /// Drops the channel. What was polled stays known.
    pub fn close(&mut self)
        ensures
            final(self).receiver() is None,
            final(self).polls() == old(self).polls(),
    {
        self.receiver = None;
    }
}

/// The polls that were made after the earlier ones.
pub open spec fn since<E>(earlier: Seq<Poll<E>>, all: Seq<Poll<E>>) -> Seq<Poll<E>> {
    all.skip(earlier.len() as int)
}

/// Whether polls begin with the earlier ones.
pub open spec fn is_continued<E>(earlier: Seq<Poll<E>>, all: Seq<Poll<E>>) -> bool {
    earlier.len() <= all.len() && all.take(earlier.len() as int) == earlier
}

/// What is listened to, and what was polled from that.
#[verifier::reject_recursive_types(E)]
pub struct Heard<E> {
    /// The channel.
    pub receiver: Option<Receiver<E>>,
    /// The polls that were made since the channel was opened, in order.
    pub polls: Seq<Poll<E>>,
}

impl<E> View for Tap<E> {
    type V = Heard<E>;

    open spec fn view(&self) -> Heard<E> {
        Heard { receiver: self.receiver(), polls: self.polls() }
    }
}

/// Whether one goes on to listen to the same channel, or has stopped to: what was polled stays,
/// and what was polled since is what that channel may have to offer.
pub open spec fn listens_on<E>(before: Heard<E>, after: Heard<E>) -> bool {
    &&& after.receiver is Some ==> after.receiver == before.receiver
    &&& is_continued(before.polls, after.polls)
    &&& forall|i: int|
        before.polls.len() <= i < after.polls.len() ==> before.receiver is Some && may_offer(
            before.receiver->Some_0,
            #[trigger] after.polls[i],
        )
}

pub(crate) proof fn lemma_since<E>(earlier: Seq<Poll<E>>, polls: Seq<Poll<E>>)
    ensures
        since(earlier, earlier + polls) == polls,
        is_continued(earlier, earlier + polls),
{
    assert((earlier + polls).skip(earlier.len() as int) =~= polls);
    assert((earlier + polls).take(earlier.len() as int) =~= earlier);
}

} // verus!
