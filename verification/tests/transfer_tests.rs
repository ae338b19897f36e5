//! Single-transfer lifecycle: programming, stopping, completion, teardown.

use std::sync::atomic::{AtomicUsize, Ordering};
use std::sync::Arc;
use std::task::{Wake, Waker};

use dma_core::{
    check_transfer_fits, Channel, Dir, HardwareFault, Transfer, TransferOptions, WordSize,
};

struct CountingWaker(AtomicUsize);

impl Wake for CountingWaker {
    fn wake(self: Arc<Self>) {
        self.0.fetch_add(1, Ordering::SeqCst);
    }

    fn wake_by_ref(self: &Arc<Self>) {
        self.0.fetch_add(1, Ordering::SeqCst);
    }
}

fn counting_waker() -> (Arc<CountingWaker>, Waker) {
    let state = Arc::new(CountingWaker(AtomicUsize::new(0)));
    let waker = Waker::from(state.clone());
    (state, waker)
}

#[test]
fn new_read_programs_byte_count() {
    let ch = Channel::new();
    let mut opts = TransferOptions::default();
    opts.src_burst_len = 4;
    opts.dst_burst_len = 7;
    let t = Transfer::new_read::<u16>(ch, 9, 0x4000_0000, 0x2000_0000, 5, opts);
    // 5 elements of 2 bytes: the byte count is element count times word size
    assert_eq!(t.channel.regs.bndt, 10);
    assert_eq!(t.get_remaining_transfers(), 10);
    assert!(t.channel.regs.en);
    assert!(t.channel.regs.tcie);
    assert!(t.channel.regs.useie);
    assert!(t.channel.regs.dteie);
    assert!(t.channel.regs.suspie);
    assert!(!t.channel.regs.htie);
    // the burst fields store the length minus one
    assert_eq!(t.channel.regs.sbl_1, 3);
    assert_eq!(t.channel.regs.dbl_1, 6);
    assert_eq!(t.channel.regs.reqsel, 9);
    assert_eq!(t.channel.regs.sar, 0x4000_0000);
    assert_eq!(t.channel.regs.dar, 0x2000_0000);
    assert!(t.channel.regs.dinc);
    assert!(!t.channel.regs.sinc);
    assert!(!t.channel.regs.circular);
}

#[test]
fn byte_counts_for_each_word_size() {
    let opts = TransferOptions::default();
    let t1 = Transfer::new_read::<u8>(Channel::new(), 0, 0, 0x2000_0000, 63, opts);
    assert_eq!(t1.channel.regs.bndt, 63);
    let t2 = Transfer::new_read::<u16>(Channel::new(), 0, 0, 0x2000_0000, 63, opts);
    assert_eq!(t2.channel.regs.bndt, 126);
    let t4 = Transfer::new_read::<u32>(Channel::new(), 0, 0, 0x2000_0000, 63, opts);
    assert_eq!(t4.channel.regs.bndt, 252);
}

#[test]
fn oversized_byte_counts_are_rejected() {
    // the largest accepted counts per word size, and the first rejected ones
    assert!(check_transfer_fits(65535, WordSize::OneByte));
    assert!(!check_transfer_fits(65536, WordSize::OneByte));
    assert!(check_transfer_fits(32767, WordSize::TwoBytes));
    assert!(!check_transfer_fits(32768, WordSize::TwoBytes));
    assert!(check_transfer_fits(16383, WordSize::FourBytes));
    assert!(!check_transfer_fits(16384, WordSize::FourBytes));
}

#[test]
fn burst_lengths_outside_field_are_rejected() {
    let mut opts = TransferOptions::default();
    assert!(opts.check_bursts());
    opts.src_burst_len = 0;
    assert!(!opts.check_bursts());
    opts.src_burst_len = 63;
    assert!(opts.check_bursts());
    opts.dst_burst_len = 64;
    assert!(!opts.check_bursts());
}

#[test]
fn write_repeated_does_not_increment_memory() {
    let t = Transfer::new_write_repeated::<u8, u8>(
        Channel::new(),
        3,
        0x2000_0100,
        16,
        0x4000_0004,
        TransferOptions::default(),
    );
    assert!(!t.channel.regs.sinc);
    assert!(!t.channel.regs.dinc);
    assert_eq!(t.channel.regs.sar, 0x2000_0100);
    assert_eq!(t.channel.regs.dar, 0x4000_0004);
}

#[test]
fn request_stop_completes_without_further_action() {
    let mut t = Transfer::new_read::<u8>(
        Channel::new(),
        0,
        0x4000_0000,
        0x2000_0000,
        8,
        TransferOptions::default(),
    );
    assert!(t.is_running());
    t.request_stop();
    t.request_stop(); // idempotent
    assert!(t.is_running());
    // the hardware acknowledges the suspension on its own
    t.channel.hw_suspend_ack();
    assert!(irq_ok(&mut t));
    assert!(!t.is_running());
    assert!(t.channel.take_wake());
    // cancellation is not an error: the byte count reports what was left
    assert_eq!(t.get_remaining_transfers(), 8);
}

fn irq_ok(t: &mut Transfer) -> bool {
    t.channel.on_irq().is_ok()
}

#[test]
fn teardown_leaves_channel_disarmed() {
    let mut t = Transfer::new_read::<u8>(
        Channel::new(),
        0,
        0x4000_0000,
        0x2000_0000,
        8,
        TransferOptions::default(),
    );
    // destruction of an active transfer begins with a stop request
    t.request_stop();
    // a completion arrives only after destruction has begun
    t.channel.hw_complete_transfer();
    assert!(!t.is_running());
    let ch = t.finish();
    // the enable bit and every interrupt enable are cleared
    assert!(!ch.regs.en);
    assert!(!ch.regs.tcie);
    assert!(!ch.regs.useie);
    assert!(!ch.regs.dteie);
    assert!(!ch.regs.suspie);
    assert!(!ch.regs.htie);
}

#[test]
fn natural_completion_and_blocking_wait_path() {
    let mut t = Transfer::new_read::<u8>(
        Channel::new(),
        0,
        0x4000_0000,
        0x2000_0000,
        4,
        TransferOptions::default(),
    );
    t.channel.hw_complete_transfer();
    assert!(!t.is_running());
    assert_eq!(t.get_remaining_transfers(), 0);
    let ch = t.finish();
    assert!(!ch.regs.en);
}

#[test]
fn poll_registers_waker_and_irq_wakes() {
    let (state, waker) = counting_waker();
    let mut t = Transfer::new_read::<u8>(
        Channel::new(),
        0,
        0x4000_0000,
        0x2000_0000,
        4,
        TransferOptions::default(),
    );
    assert!(!t.poll(&waker));
    assert_eq!(state.0.load(Ordering::SeqCst), 0);
    t.channel.hw_complete_transfer();
    assert!(irq_ok(&mut t));
    // the interrupt handler woke the registered waker
    assert_eq!(state.0.load(Ordering::SeqCst), 1);
    assert!(t.poll(&waker));
}

#[test]
fn fatal_error_flags_are_reported() {
    let mut t = Transfer::new_read::<u8>(
        Channel::new(),
        0,
        0x4000_0000,
        0x2000_0000,
        4,
        TransferOptions::default(),
    );
    t.channel.regs.dtef = true;
    assert_eq!(t.channel.on_irq(), Err(HardwareFault::DataTransfer));
    t.channel.regs.dtef = false;
    t.channel.regs.usef = true;
    assert_eq!(t.channel.on_irq(), Err(HardwareFault::UserSetting));
}

#[test]
fn directions_map_addresses() {
    let opts = TransferOptions::default();
    let r = Transfer::new_inner(
        Channel::new(),
        1,
        Dir::PeripheralToMemory,
        0x4000_0000,
        0x2000_0000,
        4,
        true,
        WordSize::OneByte,
        WordSize::OneByte,
        opts,
    );
    assert_eq!(r.channel.regs.sar, 0x4000_0000);
    assert_eq!(r.channel.regs.dar, 0x2000_0000);
    let w = Transfer::new_inner(
        Channel::new(),
        1,
        Dir::MemoryToPeripheral,
        0x4000_0000,
        0x2000_0000,
        4,
        true,
        WordSize::OneByte,
        WordSize::OneByte,
        opts,
    );
    assert_eq!(w.channel.regs.sar, 0x2000_0000);
    assert_eq!(w.channel.regs.dar, 0x4000_0000);
    assert!(w.channel.regs.dreq_dst);
    assert!(!r.channel.regs.dreq_dst);
}
