//! Driver core for a general-purpose DMA controller.
//!
//! The crate models the register-level boundary of one DMA channel as plain
//! data and verifies the driver logic that programs it: single-shot
//! transfers, circular ring buffers with a logical cursor and overrun
//! detection, and the interrupt handler that bridges hardware completion
//! events to a cooperative scheduler. Suspension points are written in
//! poll style: a caller (or an async wrapper outside the core) re-invokes a
//! poll function after the registered waker has been signalled.

mod channel;
mod options;
mod ring;
mod ringbuffer;
mod timer;
mod transfer;
mod waker;
mod word;

pub use channel::{Channel, ChannelRegs, ChannelState, HardwareFault};
pub use options::{Dir, TransferOptions, TransferPriority, TriggerMode, TriggerPolarity};
pub use ring::{ReadableRingBuffer, RingBuffer, WritableRingBuffer};
pub use ringbuffer::{
    ctrl_total, DmaCtrl, Error, ExactPoll, ReadableDmaRingBuffer, WritableDmaRingBuffer,
};
pub use timer::{
    CountingMode, InputCaptureMode, InputTISelection, OutputCompareMode, OutputPolarity,
    PulseWidthPrescaler,
};
pub use transfer::{
    check_transfer_fits, lemma_oversize_rejected, lemma_request_stop_completes,
    lemma_start_programs_byte_count, transfer_fits, Transfer,
};
pub use word::{Word, WordSize};

use vstd::prelude::*;

verus! {

} // verus!
