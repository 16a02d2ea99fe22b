//! A pipe between a writer and a reader on another thread: the writer sends what it
//! is given as packets over a channel; the reader hands them out in the sizes its
//! callers ask for, keeping what does not fit for the next read.
use vstd::prelude::*;
use std::sync::mpsc::{Receiver, SyncSender};

verus! {

#[verifier::external_type_specification]
#[verifier::external_body]
#[verifier::reject_recursive_types(T)]
pub struct ExReceiver<T>(Receiver<T>);

#[verifier::external_type_specification]
#[verifier::external_body]
#[verifier::reject_recursive_types(T)]
pub struct ExSyncSender<T>(SyncSender<T>);

/// `Receiver::recv`: the next packet, waiting for it; `None` once the sending side is
/// gone. What arrives depends on the writer's thread, so nothing is stated about it.
#[verifier::external_body]
fn recv_packet(chan: &Receiver<Box<[u8]>>) -> Option<Vec<u8>> {
    match chan.recv() {
        Ok(d) => Some(d.into_vec()),
        Err(_) => None,
    }
}

/// `SyncSender::send` of a copy of `data`: `true` when it was sent, `false` when the
/// receiving side is gone.
#[verifier::external_body]
fn send_packet(chan: &SyncSender<Box<[u8]>>, data: &[u8]) -> bool {
    chan.send(data.into()).is_ok()
}

/// Why writing into the pipe failed.
#[derive(Debug, Clone, Copy, PartialEq, Eq, Structural)]
pub enum PipeError {
    /// The reading side is gone.
    BrokenPipe,
}

/// The answer to a write of `size` bytes: `Ok(size)` when the packet was sent,
/// `BrokenPipe` when the reader was gone.
pub open spec fn write_outcome_spec(sent: bool, size: usize) -> Result<usize, PipeError> {
    if sent {
        Ok(size)
    } else {
        Err(PipeError::BrokenPipe)
    }
}

/// The answer to a write of `size` bytes, given whether sending succeeded.
pub fn write_outcome(sent: bool, size: usize) -> (res: Result<usize, PipeError>)
    ensures
        res == write_outcome_spec(sent, size),
{
    if sent {
        Ok(size)
    } else {
        Err(PipeError::BrokenPipe)
    }
}

/// The writing end of the pipe.
pub struct WRPipeWriterAdapter {
    chan: SyncSender<Box<[u8]>>,
}

impl WRPipeWriterAdapter {
    /// The channel the writer sends its packets over.
    pub closed spec fn channel(&self) -> SyncSender<Box<[u8]>> {
        self.chan
    }

    /// A writer sending over `chan`.
    pub fn new(chan: SyncSender<Box<[u8]>>) -> (res: Self)
        ensures
            res.channel() == chan,
    {
        WRPipeWriterAdapter { chan }
    }

    /// Sends all of `buf` as one packet: `Ok` with its length, or `BrokenPipe` when the
    /// reader is gone (as `write_outcome` says for what sending reported).
    pub fn write(&mut self, buf: &[u8]) -> (res: Result<usize, PipeError>)
        ensures
            res == write_outcome_spec(true, buf@.len() as usize) || res == write_outcome_spec(false, buf@.len() as usize),
    {
        let size = buf.len();
        let sent = send_packet(&self.chan, buf);
        write_outcome(sent, size)
    }
}

/// The reading end of the pipe.
pub struct WRPipeReaderAdapter {
    chan: Receiver<Box<[u8]>>,
    local_buf: Vec<u8>,
}

/// One read of `n` bytes at most: from the kept bytes `pending` if there are any,
/// else from the packet that arrives (`incoming`; `None` when the writer is gone). The
/// first `n` bytes are handed out; the rest is kept. Gives the bytes handed out and the
/// bytes kept.
pub open spec fn read_step(pending: Seq<u8>, incoming: Option<Seq<u8>>, n: nat) -> (Seq<u8>, Seq<u8>) {
    let source = if pending.len() > 0 {
        pending
    } else {
        match incoming {
            Some(d) => d,
            None => Seq::<u8>::empty(),
        }
    };
    if source.len() <= n {
        (source, Seq::<u8>::empty())
    } else {
        (source.take(n as int), source.skip(n as int))
    }
}

impl WRPipeReaderAdapter {
    /// A reader receiving from `chan`, with nothing kept yet.
    pub fn new(chan: Receiver<Box<[u8]>>) -> (res: Self)
        ensures
            res.channel() == chan,
            res.pending() == Seq::<u8>::empty(),
    {
        WRPipeReaderAdapter { chan, local_buf: Vec::new() }
    }

    /// The channel the reader receives its packets from.
    pub closed spec fn channel(&self) -> Receiver<Box<[u8]>> {
        self.chan
    }

    /// The bytes received but not handed out yet.
    pub closed spec fn pending(&self) -> Seq<u8> {
        self.local_buf@
    }

    /// Hands out bytes into `buf` from the kept bytes, or (when none are kept) from
    /// `incoming`, as `read_step` says; the number of bytes written to the front of `buf`.
    pub fn deliver(&mut self, incoming: Option<Vec<u8>>, buf: &mut [u8]) -> (n: usize)
        ensures
            n == read_step(old(self).pending(), incoming.deep_view(), old(buf)@.len()).0.len(),
            final(buf)@.len() == old(buf)@.len(),
            final(buf)@.take(n as int) == read_step(old(self).pending(), incoming.deep_view(), old(buf)@.len()).0,
            final(buf)@.skip(n as int) == old(buf)@.skip(n as int),
            final(self).pending() == read_step(old(self).pending(), incoming.deep_view(), old(buf)@.len()).1,
    {
        let source: Vec<u8> = if self.local_buf.len() > 0 {
            let mut taken: Vec<u8> = Vec::new();
            std::mem::swap(&mut taken, &mut self.local_buf);
            taken
        } else {
            match incoming {
                Some(d) => d,
                None => Vec::new(),
            }
        };
        let n: usize = if source.len() <= buf.len() {
            source.len()
        } else {
            buf.len()
        };
        let ghost old_buf = buf@;
        let mut i: usize = 0;
        while i < n
            invariant
                i <= n,
                n <= source@.len(),
                n <= old_buf.len(),
                buf@.len() == old_buf.len(),
                forall|j: int| 0 <= j < i ==> buf@[j] == source@[j],
                forall|j: int| i <= j < buf@.len() ==> buf@[j] == old_buf[j],
            decreases n - i,
        {
            buf[i] = source[i];
            i += 1;
        }
        let mut rest: Vec<u8> = Vec::new();
        let mut k: usize = n;
        while k < source.len()
            invariant
                n <= k <= source@.len(),
                rest@ == source@.subrange(n as int, k as int),
            decreases source@.len() - k,
        {
            rest.push(source[k]);
            k += 1;
            assert(rest@ =~= source@.subrange(n as int, k as int));
        }
        self.local_buf = rest;
        assert(buf@.take(n as int) =~= source@.take(n as int));
        assert(buf@.skip(n as int) =~= old_buf.skip(n as int));
        assert(source@.take(source@.len() as int) =~= source@);
        assert(source@.subrange(n as int, source@.len() as int) =~= source@.skip(n as int));
        assert(source@.skip(source@.len() as int) =~= Seq::<u8>::empty());
        n
    }

    /// Reads into `buf`: kept bytes first; when none are kept, waits for the next packet
    /// (none coming once the writer is gone). Whatever arrived, the bytes handed out and
    /// the bytes kept are those `read_step` gives for it.
    pub fn read(&mut self, buf: &mut [u8]) -> (n: usize)
        ensures
            exists|incoming: Option<Seq<u8>>|
                (old(self).pending().len() > 0 ==> incoming is None) && {
                    let (out, kept) = #[trigger] read_step(old(self).pending(), incoming, old(buf)@.len());
                    &&& n == out.len()
                    &&& final(buf)@.len() == old(buf)@.len()
                    &&& final(buf)@.take(n as int) == out
                    &&& final(buf)@.skip(n as int) == old(buf)@.skip(n as int)
                    &&& final(self).pending() == kept
                },
    {
        let incoming: Option<Vec<u8>> = if self.local_buf.len() == 0 {
            recv_packet(&self.chan)
        } else {
            None
        };
        let ghost inc = incoming.deep_view();
        let n = self.deliver(incoming, buf);
        assert(old(self).pending().len() > 0 ==> inc is None);
        n
    }
}

/// A read hands out at most as many bytes as asked for, and loses none: the bytes it
/// started from (kept ones, or the packet that arrived) are the bytes handed out
/// followed by the bytes kept.
pub proof fn lemma_read_step_keeps_bytes(pending: Seq<u8>, incoming: Option<Seq<u8>>, n: nat)
    requires
        pending.len() > 0 ==> incoming is None,
    ensures
        read_step(pending, incoming, n).0.len() <= n,
        pending + (match incoming {
            Some(d) => d,
            None => Seq::<u8>::empty(),
        }) == read_step(pending, incoming, n).0 + read_step(pending, incoming, n).1,
{
    let src = if pending.len() > 0 {
        pending
    } else {
        match incoming {
            Some(d) => d,
            None => Seq::<u8>::empty(),
        }
    };
    assert(pending + (match incoming {
        Some(d) => d,
        None => Seq::<u8>::empty(),
    }) =~= src);
    if src.len() > n {
        assert(src =~= src.take(n as int) + src.skip(n as int));
    } else {
        assert(src =~= src + Seq::<u8>::empty());
    }
}

/// What a series of reads hands out: each step is given the packet that arrived for
/// it (`None` when bytes were still kept or the writer was gone) and the size asked for.
pub open spec fn read_series(pending: Seq<u8>, steps: Seq<(Option<Seq<u8>>, nat)>) -> (Seq<u8>, Seq<u8>)
    decreases steps.len(),
{
    if steps.len() == 0 {
        (Seq::<u8>::empty(), pending)
    } else {
        let (out, kept) = read_step(pending, steps[0].0, steps[0].1);
        let (rest_out, last_kept) = read_series(kept, steps.drop_first());
        (out + rest_out, last_kept)
    }
}

/// The packets that arrived during a series of reads.
pub open spec fn arrived(steps: Seq<(Option<Seq<u8>>, nat)>) -> Seq<u8>
    decreases steps.len(),
{
    if steps.len() == 0 {
        Seq::<u8>::empty()
    } else {
        (match steps[0].0 {
            Some(d) => d,
            None => Seq::<u8>::empty(),
        }) + arrived(steps.drop_first())
    }
}

/// A packet arrives only when nothing is kept: the reader waits for one only then.
pub open spec fn well_timed(pending: Seq<u8>, steps: Seq<(Option<Seq<u8>>, nat)>) -> bool
    decreases steps.len(),
{
    if steps.len() == 0 {
        true
    } else {
        (pending.len() > 0 ==> steps[0].0 is None) && well_timed(
            read_step(pending, steps[0].0, steps[0].1).1,
            steps.drop_first(),
        )
    }
}

/// Over any series of reads, the pipe hands out every byte the writer sent, in order:
/// the kept bytes at the start followed by all packets that arrived are exactly the
/// bytes handed out followed by the bytes still kept at the end.
pub proof fn lemma_reads_hand_out_all_bytes(pending: Seq<u8>, steps: Seq<(Option<Seq<u8>>, nat)>)
    requires
        well_timed(pending, steps),
    ensures
        pending + arrived(steps) == read_series(pending, steps).0 + read_series(pending, steps).1,
    decreases steps.len(),
{
    if steps.len() == 0 {
        assert(pending + Seq::<u8>::empty() =~= Seq::<u8>::empty() + pending);
    } else {
        let inc = steps[0].0;
        let n = steps[0].1;
        lemma_read_step_keeps_bytes(pending, inc, n);
        let (out, kept) = read_step(pending, inc, n);
        lemma_reads_hand_out_all_bytes(kept, steps.drop_first());
        let first = match inc {
            Some(d) => d,
            None => Seq::<u8>::empty(),
        };
        assert(pending + arrived(steps) =~= (pending + first) + arrived(steps.drop_first()));
        assert((out + kept) + arrived(steps.drop_first()) =~= out + (kept + arrived(steps.drop_first())));
        let (ro, lk) = read_series(kept, steps.drop_first());
        assert(out + (ro + lk) =~= (out + ro) + lk);
    }
}

} // verus!
