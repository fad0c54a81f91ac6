//! The stream of scored agents from a search to its consumer.
//!
//! A search reports candidates into the sending end of a bounded channel
//! and stops when a report is refused: the consumer has dropped the
//! receiving end, which is the only way to cancel a search. The consumer
//! never waits: at each poll it takes at most a fixed number of the
//! candidates that are ready and appends them to its history.

use vstd::prelude::*;
use crate::genetic::{GeneticAlgorithm, Message};

verus! {

/// `crossbeam::channel::Sender`, the sending end of a channel; opaque.
#[verifier::external_type_specification]
#[verifier::external_body]
#[verifier::reject_recursive_types(T)]
pub struct ExSender<T>(crossbeam::channel::Sender<T>);

/// `crossbeam::channel::Receiver`, the receiving end of a channel; opaque.
#[verifier::external_type_specification]
#[verifier::external_body]
#[verifier::reject_recursive_types(T)]
pub struct ExReceiver<T>(crossbeam::channel::Receiver<T>);

/// The capacity that a channel was made with, read off its sending end.
pub uninterp spec fn capacity_of(sender: crossbeam::channel::Sender<Message>) -> nat;

/// The number of candidates that the channel of a session started from
/// the training screen holds before a report waits.
pub const CHANNEL_CAPACITY: usize = 1000;

/// The number of candidates that the channel of a worker spawned on its
/// own holds before a report waits.
pub const WORKER_CHANNEL_CAPACITY: usize = 100;

/// The greatest capacity that a channel is made with.
pub const MAX_CHANNEL_CAPACITY: usize = 0xffff;

/// The number of candidates that one poll takes at most.
pub const DRAIN_LIMIT: usize = 1000;

/// Calls `crossbeam::channel::bounded`, which makes a channel that holds
/// up to `capacity` messages: the sending end has that capacity. The call
/// panics on a capacity too large to lay out; the capacities admitted here
/// are far below that.
#[verifier::external_body]
pub(crate) fn bounded_channel(capacity: usize) -> (ends: (
    crossbeam::channel::Sender<Message>,
    crossbeam::channel::Receiver<Message>,
))
    requires
        capacity <= MAX_CHANNEL_CAPACITY,
    ensures
        capacity_of(ends.0) == capacity,
{
    crossbeam::channel::bounded(capacity)
}

/// Calls `crossbeam::channel::Sender::send`, which waits while the channel
/// is full and fails once every receiver is gone. The result tells whether
/// the message was taken; nothing is claimed of which it is.
#[verifier::external_body]
pub(crate) fn send(sender: &crossbeam::channel::Sender<Message>, message: Message) -> (taken:
    bool) {
    sender.send(message).is_ok()
}

/// Calls `crossbeam::channel::Receiver::try_recv`, which never waits: it
/// yields a message that is ready, or nothing where the channel is empty
/// or every sender is gone. Nothing is claimed of which it is.
#[verifier::external_body]
fn try_receive(receiver: &crossbeam::channel::Receiver<Message>) -> (message: Option<Message>) {
    receiver.try_recv().ok()
}

/// The consumer's end of a training session: the candidates received so
/// far, oldest first, and the channel they come from.
pub struct GeneticTrainingDetails {
    agents: Vec<Message>,
    receiver: crossbeam::channel::Receiver<Message>,
}

impl GeneticTrainingDetails {
    /// The candidates received so far, oldest first.
    pub closed spec fn history(self) -> Seq<Message> {
        self.agents@
    }

    /// The receiving end that the candidates come from.
    pub closed spec fn source(self) -> crossbeam::channel::Receiver<Message> {
        self.receiver
    }

    /// A consumer's end with an empty history.
    pub fn new(receiver: crossbeam::channel::Receiver<Message>) -> (details: GeneticTrainingDetails)
        ensures
            details.history().len() == 0,
            details.source() == receiver,
    {
        GeneticTrainingDetails { agents: Vec::new(), receiver }
    }

    /// Appends a candidate to the history.
    pub fn record(&mut self, message: Message)
        ensures
            final(self).history() == old(self).history().push(message),
            final(self).source() == old(self).source(),
    {
        self.agents.push(message);
    }

    /// Takes the candidates that are ready, at most [`DRAIN_LIMIT`] of
    /// them, without waiting: the history keeps what it held and grows by
    /// what was taken.
    pub fn receive_messages(&mut self)
        ensures
            old(self).history().len() <= final(self).history().len() <= old(self).history().len()
                + DRAIN_LIMIT,
            final(self).history().take(old(self).history().len() as int) == old(self).history(),
            final(self).source() == old(self).source(),
    {
        let mut taken: usize = 0;
        while taken < DRAIN_LIMIT
            invariant
                taken <= DRAIN_LIMIT,
                self.source() == old(self).source(),
                self.history().len() == old(self).history().len() + taken,
                self.history().take(old(self).history().len() as int) == old(self).history(),
            decreases DRAIN_LIMIT - taken,
        {
            let ghost before = self.agents@;
            match try_receive(&self.receiver) {
                None => {
                    break ;
                },
                Some(message) => {
                    self.record(message);
                    taken += 1;
                    assert(self.agents@.take(old(self).history().len() as int) =~= before.take(
                        old(self).history().len() as int,
                    ));
                },
            }
        }
    }

    /// The number of candidates received so far.
    pub fn len(&self) -> (n: usize)
        ensures
            n == self.history().len(),
    {
        self.agents.len()
    }

    /// The candidate at `index` of the history.
    pub fn candidate(&self, index: usize) -> (message: Option<&Message>)
        ensures
            index < self.history().len() <==> message is Some,
            message matches Some(m) ==> *m == self.history()[index as int],
    {
        if index < self.agents.len() {
            Some(&self.agents[index])
        } else {
            None
        }
    }
}

impl GeneticAlgorithm {
    /// The consumer's end for a search of this kind, with an empty history.
    pub fn training_details_receiver(
        &self,
        receiver: crossbeam::channel::Receiver<Message>,
    ) -> (details: GeneticTrainingDetails)
        ensures
            details.history().len() == 0,
            details.source() == receiver,
    {
        GeneticTrainingDetails::new(receiver)
    }
}

} // verus!
