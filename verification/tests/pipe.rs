use backend::fs::buffers::{
    async_consumer_step, consumer_step, flush_step, peer_alive, producer_step, AsyncConsumerStep,
    ConsumerStep, FlushStep, ProducerStep,
};
use backend::fs::write_read_pipe::{write_outcome, PipeError, WRPipeReaderAdapter, WRPipeWriterAdapter};
use std::sync::mpsc::sync_channel;

#[test]
fn pipe_hands_out_bytes_in_order() {
    let (tx, rx) = sync_channel::<Box<[u8]>>(4);
    let mut w = WRPipeWriterAdapter::new(tx);
    let mut r = WRPipeReaderAdapter::new(rx);
    assert_eq!(w.write(b"hello"), Ok(5));
    assert_eq!(w.write(b"!"), Ok(1));
    let mut buf = [0u8; 3];
    assert_eq!(r.read(&mut buf), 3);
    assert_eq!(&buf, b"hel");
    assert_eq!(r.read(&mut buf), 2);
    assert_eq!(&buf[..2], b"lo");
    assert_eq!(r.read(&mut buf), 1);
    assert_eq!(buf[0], b'!');
    drop(w);
    assert_eq!(r.read(&mut buf), 0);
}

#[test]
fn pipe_write_fails_once_reader_is_gone() {
    let (tx, rx) = sync_channel::<Box<[u8]>>(1);
    let mut w = WRPipeWriterAdapter::new(tx);
    drop(rx);
    assert_eq!(w.write(b"x"), Err(PipeError::BrokenPipe));
}

#[test]
fn deliver_without_channel_traffic() {
    let (_tx, rx) = sync_channel::<Box<[u8]>>(1);
    let mut r = WRPipeReaderAdapter::new(rx);
    let mut buf = [9u8; 4];
    assert_eq!(r.deliver(Some(vec![1, 2, 3, 4, 5, 6]), &mut buf), 4);
    assert_eq!(buf, [1, 2, 3, 4]);
    let mut buf2 = [9u8; 4];
    assert_eq!(r.deliver(Some(vec![7]), &mut buf2), 2);
    assert_eq!(buf2, [5, 6, 9, 9]);
    assert_eq!(r.deliver(None, &mut buf2), 0);
}

#[test]
fn buffer_steps() {
    assert!(peer_alive(2));
    assert!(!peer_alive(1));
    assert_eq!(consumer_step(true, true), ConsumerStep::Park);
    assert_eq!(consumer_step(true, false), ConsumerStep::Finished);
    assert_eq!(consumer_step(false, false), ConsumerStep::Read);
    assert_eq!(async_consumer_step(true, true), AsyncConsumerStep::Pending);
    assert_eq!(async_consumer_step(true, false), AsyncConsumerStep::Finished);
    assert_eq!(async_consumer_step(false, true), AsyncConsumerStep::Read);
    assert_eq!(producer_step(true, true), ProducerStep::Park);
    assert_eq!(producer_step(false, false), ProducerStep::Fail);
    assert_eq!(producer_step(false, true), ProducerStep::Write);
    assert_eq!(flush_step(false, false, true), FlushStep::Fail);
    assert_eq!(flush_step(true, true, false), FlushStep::Done);
    assert_eq!(flush_step(false, true, true), FlushStep::Park);
}

#[test]
fn write_outcomes() {
    assert_eq!(write_outcome(true, 7), Ok(7));
    assert_eq!(write_outcome(false, 7), Err(PipeError::BrokenPipe));
}
