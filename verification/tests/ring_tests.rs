//! Ring buffers over a circular channel: cursor arithmetic, overrun
//! detection, exact reads and writes, and the end-to-end writable flow.

use std::sync::atomic::{AtomicUsize, Ordering};
use std::sync::Arc;
use std::task::{Wake, Waker};

use dma_core::{
    Channel, Error, ExactPoll, ReadableRingBuffer, TransferOptions, WritableRingBuffer,
};

struct CountingWaker(AtomicUsize);

impl Wake for CountingWaker {
    fn wake(self: Arc<Self>) {
        self.0.fetch_add(1, Ordering::SeqCst);
    }

    fn wake_by_ref(self: &Arc<Self>) {
        self.0.fetch_add(1, Ordering::SeqCst);
    }
}

fn counting_waker() -> (Arc<CountingWaker>, Waker) {
    let state = Arc::new(CountingWaker(AtomicUsize::new(0)));
    let waker = Waker::from(state.clone());
    (state, waker)
}

fn readable(cap: usize) -> ReadableRingBuffer<u8> {
    let mut rb = ReadableRingBuffer::<u8>::new(
        Channel::new(),
        2,
        0x4000_0000,
        0x2000_0000,
        vec![0u8; cap],
        TransferOptions::default(),
    );
    rb.start();
    rb
}

/// The hardware deposits `values` into the ring and advances; the
/// interrupt handler then services whatever flags rose.
fn produce(rb: &mut ReadableRingBuffer<u8>, values: &[u8]) {
    let cap = rb.cap();
    let hwpos = cap - rb.channel.regs.bndt as usize;
    for (i, v) in values.iter().enumerate() {
        rb.ringbuf.buf[hwpos + i] = *v;
    }
    rb.channel.hw_ring_progress(values.len());
    rb.on_irq().unwrap();
}

#[test]
fn ring_is_configured_circular() {
    let rb = readable(8);
    assert!(rb.channel.regs.circular);
    assert!(rb.channel.regs.en);
    assert!(rb.channel.regs.htie);
    assert_eq!(rb.channel.regs.bndt, 8);
    assert_eq!(rb.channel.regs.block_len, 8);
    assert_eq!(rb.cap(), 8);
    assert!(rb.channel.regs.dinc);
    assert!(!rb.channel.regs.sinc);
}

#[test]
fn read_half_after_half_interrupt() {
    let mut rb = readable(8);
    produce(&mut rb, &[10, 11, 12, 13]);
    // the half-transfer interrupt woke the ring
    assert!(rb.channel.take_wake());
    let mut dst = vec![0u8; 4];
    // reading half the capacity returns half read, half remaining to the
    // block's end
    assert_eq!(rb.read(&mut dst), Ok((4, 4)));
    assert_eq!(dst, vec![10, 11, 12, 13]);
    // reading again without new data moves nothing
    assert_eq!(rb.read(&mut dst), Ok((0, 4)));
    assert_eq!(dst, vec![10, 11, 12, 13]);
}

#[test]
fn read_wraps_across_the_block_end() {
    let mut rb = readable(8);
    produce(&mut rb, &[1, 2, 3, 4]);
    let mut dst = vec![0u8; 4];
    assert_eq!(rb.read(&mut dst), Ok((4, 4)));
    produce(&mut rb, &[5, 6, 7, 8]); // completes the block, counter rises
    produce(&mut rb, &[9, 10]);
    let mut dst6 = vec![0u8; 6];
    // six available: four to the block's end and two past the wrap
    assert_eq!(rb.read(&mut dst6), Ok((6, 6)));
    assert_eq!(dst6, vec![5, 6, 7, 8, 9, 10]);
}

#[test]
fn overrun_is_reported_and_resynchronized() {
    let mut rb = readable(8);
    produce(&mut rb, &[1, 2, 3, 4, 5, 6, 7, 8]);
    produce(&mut rb, &[9, 10, 11, 12]);
    // the hardware is now twelve elements past the cursor: more than one
    // whole buffer was overwritten unread
    let mut dst = vec![0u8; 4];
    assert_eq!(rb.read(&mut dst), Err(Error::Overrun));
    // the cursor was resynchronized to the hardware pointer
    assert_eq!(rb.read(&mut dst), Ok((0, 4)));
    produce(&mut rb, &[13, 14]);
    assert_eq!(rb.read(&mut dst), Ok((2, 2)));
    assert_eq!(&dst[..2], &[13, 14]);
}

#[test]
fn a_full_buffer_is_not_an_overrun() {
    let mut rb = readable(8);
    produce(&mut rb, &[1, 2, 3, 4, 5, 6, 7, 8]);
    let mut dst = vec![0u8; 8];
    assert_eq!(rb.read(&mut dst), Ok((8, 8)));
    assert_eq!(dst, vec![1, 2, 3, 4, 5, 6, 7, 8]);
}

#[test]
fn clear_discards_pending_data() {
    let mut rb = readable(8);
    produce(&mut rb, &[1, 2, 3, 4]);
    rb.clear();
    let mut dst = vec![0u8; 4];
    assert_eq!(rb.read(&mut dst), Ok((0, 4)));
}

#[test]
fn read_exact_half_resolves_after_one_interrupt() {
    let (state, waker) = counting_waker();
    let mut rb = readable(8);
    let mut dst = vec![0u8; 4];
    let mut filled = 0usize;
    // nothing available yet: the poll suspends
    assert_eq!(rb.poll_read_exact(&waker, &mut dst, &mut filled), Ok(ExactPoll::Pending));
    assert_eq!(filled, 0);
    // one half-transfer interrupt delivers exactly the half block
    produce(&mut rb, &[1, 2, 3, 4]);
    assert_eq!(state.0.load(Ordering::SeqCst), 1);
    assert_eq!(rb.poll_read_exact(&waker, &mut dst, &mut filled), Ok(ExactPoll::Ready(0)));
    assert_eq!(filled, 4);
    assert_eq!(dst, vec![1, 2, 3, 4]);
}

#[test]
fn read_exact_odd_length_rounds_up_to_half_blocks() {
    let (state, waker) = counting_waker();
    let mut rb = readable(8);
    // six does not divide the half block of four: two half-block
    // interrupts must pass before the request resolves
    let mut dst = vec![0u8; 6];
    let mut filled = 0usize;
    assert_eq!(rb.poll_read_exact(&waker, &mut dst, &mut filled), Ok(ExactPoll::Pending));
    produce(&mut rb, &[1, 2, 3, 4]);
    assert_eq!(rb.poll_read_exact(&waker, &mut dst, &mut filled), Ok(ExactPoll::Pending));
    assert_eq!(filled, 4);
    produce(&mut rb, &[5, 6, 7, 8]);
    assert_eq!(state.0.load(Ordering::SeqCst), 2);
    assert_eq!(rb.poll_read_exact(&waker, &mut dst, &mut filled), Ok(ExactPoll::Ready(2)));
    assert_eq!(dst, vec![1, 2, 3, 4, 5, 6]);
}

#[test]
fn stop_confirms_after_suspend_acknowledge() {
    let (_state, waker) = counting_waker();
    let mut rb = readable(8);
    assert!(!rb.poll_stop(&waker));
    assert!(rb.channel.regs.susp);
    rb.channel.hw_suspend_ack();
    assert!(rb.poll_stop(&waker));
    let (ch, _buf) = rb.finish();
    assert!(!ch.regs.en);
    assert!(!ch.regs.tcie);
    assert!(!ch.regs.htie);
}

fn writable(cap: usize) -> WritableRingBuffer<u8> {
    WritableRingBuffer::<u8>::new(
        Channel::new(),
        5,
        0x4000_0000,
        0x2000_0000,
        vec![0u8; cap],
        TransferOptions::default(),
    )
}

/// The hardware transmits `n` elements from the ring and advances; the
/// interrupt handler then services whatever flags rose.
fn consume(rb: &mut WritableRingBuffer<u8>, n: usize) {
    rb.channel.hw_ring_progress(n);
    rb.on_irq().unwrap();
}

#[test]
fn write_immediate_seeds_the_buffer() {
    let mut rb = writable(8);
    let r = rb.write_immediate(&vec![1, 2, 3, 4, 5, 6, 7, 8]);
    assert_eq!(r, Ok((8, 0)));
    assert_eq!(rb.ringbuf.buf, vec![1, 2, 3, 4, 5, 6, 7, 8]);
}

#[test]
fn write_immediate_of_a_short_seed() {
    let mut rb = writable(8);
    assert_eq!(rb.write_immediate(&vec![9, 9, 9]), Ok((3, 5)));
}

#[test]
fn end_to_end_writable_flow() {
    // construct a writable ring of capacity 8, seed 8 elements, start
    let mut rb = writable(8);
    assert_eq!(rb.write_immediate(&vec![1, 2, 3, 4, 5, 6, 7, 8]), Ok((8, 0)));
    rb.start();
    // one full pass: the hardware consumed everything and the completion
    // interrupt was serviced
    consume(&mut rb, 8);
    assert!(rb.channel.take_wake());
    // four new elements fit, with four remaining to the block's end
    assert_eq!(rb.write(&vec![21, 22, 23, 24]), Ok((4, 4)));
    assert_eq!(&rb.ringbuf.buf[..4], &[21, 22, 23, 24]);
    assert_eq!(&rb.ringbuf.buf[4..], &[5, 6, 7, 8]);
}

#[test]
fn writable_overrun_when_hardware_outruns_the_cursor() {
    let mut rb = writable(8);
    assert_eq!(rb.write_immediate(&vec![1, 2, 3, 4, 5, 6, 7, 8]), Ok((8, 0)));
    rb.start();
    consume(&mut rb, 8);
    // the hardware keeps transmitting although nothing new was written
    consume(&mut rb, 4);
    assert_eq!(rb.write(&vec![0, 0]), Err(Error::Overrun));
    // resynchronized: the next write succeeds
    assert_eq!(rb.write(&vec![31, 32]), Ok((2, 2)));
}

#[test]
fn write_exact_waits_for_space() {
    let (state, waker) = counting_waker();
    let mut rb = writable(8);
    assert_eq!(rb.write_immediate(&vec![1, 2, 3, 4, 5, 6, 7, 8]), Ok((8, 0)));
    rb.start();
    let src = vec![41, 42, 43, 44];
    let mut sent = 0usize;
    // the ring is full: the poll suspends
    assert_eq!(rb.poll_write_exact(&waker, &src, &mut sent), Ok(ExactPoll::Pending));
    assert_eq!(sent, 0);
    // a half-transfer interrupt frees half the block
    consume(&mut rb, 4);
    assert_eq!(state.0.load(Ordering::SeqCst), 1);
    assert_eq!(rb.poll_write_exact(&waker, &src, &mut sent), Ok(ExactPoll::Ready(0)));
    assert_eq!(sent, 4);
    assert_eq!(&rb.ringbuf.buf[..4], &[41, 42, 43, 44]);
}

#[test]
fn writable_request_stop_drops_enable() {
    let mut rb = writable(8);
    rb.start();
    assert!(rb.channel.regs.en);
    rb.request_stop();
    assert!(!rb.channel.regs.en);
    let (ch, buf) = rb.finish();
    assert!(!ch.regs.en);
    assert_eq!(buf.len(), 8);
}
