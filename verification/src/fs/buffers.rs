//! The decisions of the blocking and asynchronous byte buffers shared between a
//! producing and a consuming thread: when to wait, when to give up, when to move data.
use vstd::prelude::*;

verus! {

/// The other end of a buffer is alive while both ends hold the shared counter, which
/// starts at 2 and drops by one for each end that goes away.
pub fn peer_alive(alive_count: usize) -> (r: bool)
    ensures
        r == (alive_count > 1),
{
    alive_count > 1
}

/// What a blocking reader does next.
#[derive(Debug, Clone, Copy, PartialEq, Eq, Structural)]
pub enum ConsumerStep {
    /// Wait until the producer wakes it.
    Park,
    /// The producer is gone and nothing is left: report the end (0 bytes).
    Finished,
    /// Read what is there.
    Read,
}

/// A blocking reader waits while the buffer is empty and the producer is alive;
/// then it ends when the buffer is still empty, and reads otherwise.
pub fn consumer_step(is_empty: bool, producer_alive: bool) -> (s: ConsumerStep)
    ensures
        s == (if is_empty && producer_alive {
            ConsumerStep::Park
        } else if is_empty {
            ConsumerStep::Finished
        } else {
            ConsumerStep::Read
        }),
{
    if is_empty && producer_alive {
        ConsumerStep::Park
    } else if is_empty {
        ConsumerStep::Finished
    } else {
        ConsumerStep::Read
    }
}

/// What an asynchronous reader does next.
#[derive(Debug, Clone, Copy, PartialEq, Eq, Structural)]
pub enum AsyncConsumerStep {
    /// Wake the producer, leave a waker for it and report `Pending`.
    Pending,
    /// The producer is gone and nothing is left: ready with 0 bytes.
    Finished,
    /// Read what is there.
    Read,
}

/// An asynchronous reader is pending while the buffer is empty and the producer is
/// alive; it finishes when the buffer is empty otherwise, and reads when it is not.
pub fn async_consumer_step(is_empty: bool, producer_alive: bool) -> (s: AsyncConsumerStep)
    ensures
        s == (if is_empty && producer_alive {
            AsyncConsumerStep::Pending
        } else if is_empty {
            AsyncConsumerStep::Finished
        } else {
            AsyncConsumerStep::Read
        }),
{
    if is_empty && producer_alive {
        AsyncConsumerStep::Pending
    } else if is_empty {
        AsyncConsumerStep::Finished
    } else {
        AsyncConsumerStep::Read
    }
}

/// What a blocking writer does next.
#[derive(Debug, Clone, Copy, PartialEq, Eq, Structural)]
pub enum ProducerStep {
    /// Wait until the consumer wakes it.
    Park,
    /// The consumer is gone: fail (would block forever).
    Fail,
    /// Write into the buffer and wake the consumer.
    Write,
}

/// A blocking writer waits while the buffer is full and the consumer is alive; it
/// fails when the consumer is gone, and writes otherwise.
pub fn producer_step(is_full: bool, consumer_alive: bool) -> (s: ProducerStep)
    ensures
        s == (if is_full && consumer_alive {
            ProducerStep::Park
        } else if !consumer_alive {
            ProducerStep::Fail
        } else {
            ProducerStep::Write
        }),
{
    if is_full && consumer_alive {
        ProducerStep::Park
    } else if !consumer_alive {
        ProducerStep::Fail
    } else {
        ProducerStep::Write
    }
}

/// What flushing a blocking writer does next.
#[derive(Debug, Clone, Copy, PartialEq, Eq, Structural)]
pub enum FlushStep {
    /// Everything was consumed: done.
    Done,
    /// Wait for the consumer, then look again.
    Park,
    /// The consumer is gone with data left: fail.
    Fail,
}

/// Flushing waits until the buffer is empty; after each wait it fails when the consumer
/// is gone and data is still left. `after_park` tells whether this look follows a wait.
pub fn flush_step(is_empty: bool, consumer_alive: bool, after_park: bool) -> (s: FlushStep)
    ensures
        s == (if after_park && !consumer_alive && !is_empty {
            FlushStep::Fail
        } else if is_empty {
            FlushStep::Done
        } else {
            FlushStep::Park
        }),
{
    if after_park && !consumer_alive && !is_empty {
        FlushStep::Fail
    } else if is_empty {
        FlushStep::Done
    } else {
        FlushStep::Park
    }
}

} // verus!
