//! A single bounded memory/peripheral transfer: construction programs the
//! channel, completion or cancellation is observed by polling, and the
//! teardown path leaves the channel disarmed before the channel is handed
//! back.

use vstd::prelude::*;

use crate::channel::{Channel, ChannelRegs, ChannelState};
use crate::options::{Dir, TransferOptions};
use crate::waker::{full_barrier, ordering_barrier};
use crate::word::{Word, WordSize};

verus! {

/// The byte count of the transfer fits the block-count field: at most
/// 65535 bytes.
pub open spec fn transfer_fits(mem_len: usize, data_size: WordSize) -> bool {
    mem_len * data_size.bytes_spec() <= 65535
}

/// Check that a transfer of `mem_len` elements of size `data_size` fits the
/// block-count field. A configuration that fails this check must not reach
/// the register-programming path; an unverified caller tests it first and
/// aborts as a fatal configuration error.
pub fn check_transfer_fits(mem_len: usize, data_size: WordSize) -> (r: bool)
    ensures
        r == transfer_fits(mem_len, data_size),
{
    match data_size {
        WordSize::OneByte => mem_len <= 65535,
        WordSize::TwoBytes => mem_len <= 32767,
        WordSize::FourBytes => mem_len <= 16383,
    }
}

/// A byte count above the block-count field's range is rejected: no such
/// configuration passes the fitness check that every constructor requires.
pub proof fn lemma_oversize_rejected(mem_len: usize, data_size: WordSize)
    requires
        mem_len * data_size.bytes_spec() > 65535,
    ensures
        !transfer_fits(mem_len, data_size),
{
}

/// One bounded memory/peripheral DMA operation. It owns its channel for its
/// lifetime; the channel is handed back by `finish`, which disarms it, so
/// that no hardware access to the transfer's buffer outlives the operation.
pub struct Transfer {
    /// The owned channel. Exposed so the environment can deliver hardware
    /// events to it while the transfer is in flight.
    pub channel: Channel,
}

impl Transfer {
    /// The channel image `new_inner` programs: registers reset, then
    /// addresses, widths, bursts, request and trigger set, interrupts
    /// armed, and the enable bit set. The byte count is
    /// `mem_len * data_size`, and each burst field stores its length minus
    /// one.
    pub open spec fn spec_programmed(
        ch: Channel,
        request: u8,
        dir: Dir,
        peri_addr: u32,
        mem_addr: u32,
        mem_len: usize,
        incr_mem: bool,
        data_size: WordSize,
        dst_size: WordSize,
        options: TransferOptions,
    ) -> Channel {
        Channel {
            regs: ChannelRegs {
                en: true,
                susp: false,
                tcie: true,
                useie: true,
                dteie: true,
                suspie: true,
                htie: false,
                prio: options.priority,
                idlef: false,
                tcf: false,
                htf: false,
                suspf: false,
                dtef: false,
                usef: false,
                sdw: data_size,
                ddw: dst_size,
                sinc: dir == Dir::MemoryToPeripheral && incr_mem,
                dinc: dir == Dir::PeripheralToMemory && incr_mem,
                sbl_1: (options.src_burst_len - 1) as u8,
                dbl_1: (options.dst_burst_len - 1) as u8,
                dreq_dst: dir == Dir::MemoryToPeripheral,
                reqsel: request,
                trigm: options.trigger_mode,
                trigsel: options.trigger_source,
                trigpol: options.trigger_polarity,
                bndt: (mem_len * data_size.bytes_spec()) as u16,
                block_len: (mem_len * data_size.bytes_spec()) as u16,
                sar: if dir == Dir::MemoryToPeripheral {
                    mem_addr
                } else {
                    peri_addr
                },
                dar: if dir == Dir::MemoryToPeripheral {
                    peri_addr
                } else {
                    mem_addr
                },
                circular: false,
            },
            state: ChannelState { complete_count: 0, acked: Ghost(0), ..ch.state },
        }
    }

    /// Program the channel for one bounded transfer and arm it.
    ///
    /// A memory barrier is issued before any register is touched, so prior
    /// writes to the source buffer are visible to the DMA engine before it
    /// is armed. Configurations whose byte count does not fit the
    /// block-count field, or whose burst length lies outside the field's
    /// range, are excluded: the original reports them by aborting, and an
    /// unverified caller checks first.
    pub fn new_inner(
        channel: Channel,
        request: u8,
        dir: Dir,
        peri_addr: u32,
        mem_addr: u32,
        mem_len: usize,
        incr_mem: bool,
        data_size: WordSize,
        dst_size: WordSize,
        options: TransferOptions,
    ) -> (t: Transfer)
        requires
            transfer_fits(mem_len, data_size),
            options.bursts_valid(),
        ensures
            t.channel == Transfer::spec_programmed(
                channel,
                request,
                dir,
                peri_addr,
                mem_addr,
                mem_len,
                incr_mem,
                data_size,
                dst_size,
                options,
            ),
    {
        full_barrier();

        let bndt = (mem_len * data_size.bytes()) as u16;
        let regs = ChannelRegs {
            en: true,
            susp: false,
            tcie: true,
            useie: true,
            dteie: true,
            suspie: true,
            htie: false,
            prio: options.priority,
            idlef: false,
            tcf: false,
            htf: false,
            suspf: false,
            dtef: false,
            usef: false,
            sdw: data_size,
            ddw: dst_size,
            sinc: matches!(dir, Dir::MemoryToPeripheral) && incr_mem,
            dinc: matches!(dir, Dir::PeripheralToMemory) && incr_mem,
            sbl_1: options.src_burst_len - 1,
            dbl_1: options.dst_burst_len - 1,
            dreq_dst: matches!(dir, Dir::MemoryToPeripheral),
            reqsel: request,
            trigm: options.trigger_mode,
            trigsel: options.trigger_source,
            trigpol: options.trigger_polarity,
            bndt,
            block_len: bndt,
            sar: if matches!(dir, Dir::MemoryToPeripheral) {
                mem_addr
            } else {
                peri_addr
            },
            dar: if matches!(dir, Dir::MemoryToPeripheral) {
                peri_addr
            } else {
                mem_addr
            },
            circular: false,
        };
        Transfer {
            channel: Channel {
                regs,
                state: ChannelState { complete_count: 0, acked: Ghost(0), ..channel.state },
            },
        }
    }

    /// Create a new read transfer (peripheral to memory).
    pub fn new_read<W: Word>(
        channel: Channel,
        request: u8,
        peri_addr: u32,
        buf_addr: u32,
        buf_len: usize,
        options: TransferOptions,
    ) -> (t: Transfer)
        requires
            transfer_fits(buf_len, W::size_spec()),
            options.bursts_valid(),
        ensures
            t.channel == Transfer::spec_programmed(
                channel,
                request,
                Dir::PeripheralToMemory,
                peri_addr,
                buf_addr,
                buf_len,
                true,
                W::size_spec(),
                W::size_spec(),
                options,
            ),
    {
        Self::new_read_raw::<W>(channel, request, peri_addr, buf_addr, buf_len, options)
    }

    /// Create a new read transfer (peripheral to memory), from a raw buffer
    /// address and length.
    pub fn new_read_raw<W: Word>(
        channel: Channel,
        request: u8,
        peri_addr: u32,
        buf_addr: u32,
        buf_len: usize,
        options: TransferOptions,
    ) -> (t: Transfer)
        requires
            transfer_fits(buf_len, W::size_spec()),
            options.bursts_valid(),
        ensures
            t.channel == Transfer::spec_programmed(
                channel,
                request,
                Dir::PeripheralToMemory,
                peri_addr,
                buf_addr,
                buf_len,
                true,
                W::size_spec(),
                W::size_spec(),
                options,
            ),
    {
        Self::new_inner(
            channel,
            request,
            Dir::PeripheralToMemory,
            peri_addr,
            buf_addr,
            buf_len,
            true,
            W::size(),
            W::size(),
            options,
        )
    }

    /// Create a new write transfer (memory to peripheral).
    pub fn new_write<MW: Word, PW: Word>(
        channel: Channel,
        request: u8,
        buf_addr: u32,
        buf_len: usize,
        peri_addr: u32,
        options: TransferOptions,
    ) -> (t: Transfer)
        requires
            transfer_fits(buf_len, MW::size_spec()),
            options.bursts_valid(),
        ensures
            t.channel == Transfer::spec_programmed(
                channel,
                request,
                Dir::MemoryToPeripheral,
                peri_addr,
                buf_addr,
                buf_len,
                true,
                MW::size_spec(),
                PW::size_spec(),
                options,
            ),
    {
        Self::new_write_raw::<MW, PW>(channel, request, buf_addr, buf_len, peri_addr, options)
    }

    /// Create a new write transfer (memory to peripheral), from a raw
    /// buffer address and length.
    pub fn new_write_raw<MW: Word, PW: Word>(
        channel: Channel,
        request: u8,
        buf_addr: u32,
        buf_len: usize,
        peri_addr: u32,
        options: TransferOptions,
    ) -> (t: Transfer)
        requires
            transfer_fits(buf_len, MW::size_spec()),
            options.bursts_valid(),
        ensures
            t.channel == Transfer::spec_programmed(
                channel,
                request,
                Dir::MemoryToPeripheral,
                peri_addr,
                buf_addr,
                buf_len,
                true,
                MW::size_spec(),
                PW::size_spec(),
                options,
            ),
    {
        Self::new_inner(
            channel,
            request,
            Dir::MemoryToPeripheral,
            peri_addr,
            buf_addr,
            buf_len,
            true,
            MW::size(),
            PW::size(),
            options,
        )
    }

    /// Create a new write transfer (memory to peripheral) that writes the
    /// same value repeatedly: the memory address is not incremented.
    pub fn new_write_repeated<MW: Word, PW: Word>(
        channel: Channel,
        request: u8,
        repeated_addr: u32,
        count: usize,
        peri_addr: u32,
        options: TransferOptions,
    ) -> (t: Transfer)
        requires
            transfer_fits(count, MW::size_spec()),
            options.bursts_valid(),
        ensures
            t.channel == Transfer::spec_programmed(
                channel,
                request,
                Dir::MemoryToPeripheral,
                peri_addr,
                repeated_addr,
                count,
                false,
                MW::size_spec(),
                PW::size_spec(),
                options,
            ),
    {
        Self::new_inner(
            channel,
            request,
            Dir::MemoryToPeripheral,
            peri_addr,
            repeated_addr,
            count,
            false,
            MW::size(),
            PW::size(),
            options,
        )
    }

    /// The transfer has stopped: the hardware reports idle, suspend
    /// complete, or transfer complete (flag or counted by the interrupt
    /// handler).
    pub open spec fn spec_done(ch: Channel) -> bool {
        ch.regs.idlef || ch.regs.suspf || ch.regs.tcf || ch.state.complete_count > 0
    }

    /// The channel after a stop request: only the suspend-request bit is
    /// set, so requesting again changes nothing.
    pub open spec fn spec_request_stop(ch: Channel) -> Channel {
        Channel { regs: ChannelRegs { susp: true, ..ch.regs }, ..ch }
    }

    /// Request the transfer to stop.
    ///
    /// This does not itself stop the transfer: the hardware acknowledges
    /// the request on its own, after which `is_running` returns false. Safe
    /// to call any number of times.
    pub fn request_stop(&mut self)
        ensures
            final(self).channel == Transfer::spec_request_stop(old(self).channel),
    {
        self.channel.regs.susp = true;
    }

    /// Return whether this transfer is still running: false once the
    /// hardware reports transfer complete or suspend complete. Never
    /// blocks.
    pub fn is_running(&self) -> (r: bool)
        ensures
            r == !Transfer::spec_done(self.channel),
    {
        !(self.channel.regs.idlef || self.channel.regs.suspf || self.channel.regs.tcf
            || self.channel.state.complete_count > 0)
    }

    /// Total remaining bytes for the channel; zero for a transfer that
    /// completed without cancellation, and the amount left undone for one
    /// that was stopped early.
    pub fn get_remaining_transfers(&self) -> (r: u16)
        ensures
            r == self.channel.regs.bndt,
    {
        self.channel.regs.bndt
    }

    /// One cooperative suspension step: register the waker, then re-check
    /// the status. Returns true when the transfer is done; on false the
    /// caller suspends, to be re-polled only after the interrupt handler
    /// delivers a wake. The registration and the check are separated by a
    /// compiler barrier so the check cannot be reordered ahead of it.
    pub fn poll(&self, waker: &core::task::Waker) -> (done: bool)
        ensures
            done == Transfer::spec_done(self.channel),
    {
        self.channel.set_waker(waker);
        ordering_barrier();
        !self.is_running()
    }

    /// Release the channel of a transfer that has stopped.
    ///
    /// Issues the closing memory barrier, so the hardware's writes are
    /// visible to the processor, and disarms the channel: the enable bit
    /// and every interrupt enable are cleared before the channel is handed
    /// back, so no hardware access outlives the transfer.
    pub fn finish(self) -> (ch: Channel)
        requires
            Transfer::spec_done(self.channel),
        ensures
            ch == (Channel {
                regs: ChannelRegs {
                    en: false,
                    tcie: false,
                    useie: false,
                    dteie: false,
                    suspie: false,
                    htie: false,
                    ..self.channel.regs
                },
                ..self.channel
            }),
            ch.regs.disarmed(),
    {
        full_barrier();
        let Transfer { mut channel } = self;
        channel.regs.en = false;
        channel.regs.tcie = false;
        channel.regs.useie = false;
        channel.regs.dteie = false;
        channel.regs.suspie = false;
        channel.regs.htie = false;
        channel
    }
}

/// For every configuration the constructors admit — a byte count that fits
/// the block-count field and burst lengths within the field's range — the
/// programmed channel image carries a byte count of exactly
/// `mem_len * data_size` bytes, burst fields storing their length minus
/// one, and the enable bit set. A combination whose byte count exceeds the
/// field never reaches the register-programming path at all: it fails the
/// fitness check every constructor requires (`lemma_oversize_rejected`),
/// so the original's fatal configuration abort happens before any register
/// is written and the channel is left untouched.
pub proof fn lemma_start_programs_byte_count(
    ch: Channel,
    request: u8,
    dir: Dir,
    peri_addr: u32,
    mem_addr: u32,
    mem_len: usize,
    incr_mem: bool,
    data_size: WordSize,
    dst_size: WordSize,
    options: TransferOptions,
)
    requires
        transfer_fits(mem_len, data_size),
        options.bursts_valid(),
    ensures
        ({
            let t = Transfer::spec_programmed(
                ch,
                request,
                dir,
                peri_addr,
                mem_addr,
                mem_len,
                incr_mem,
                data_size,
                dst_size,
                options,
            );
            &&& t.regs.bndt == mem_len * data_size.bytes_spec()
            &&& t.regs.block_len == mem_len * data_size.bytes_spec()
            &&& t.regs.sbl_1 == options.src_burst_len - 1
            &&& t.regs.dbl_1 == options.dst_burst_len - 1
            &&& t.regs.en
        }),
{
}

/// Once the hardware acknowledges a stop request, the transfer reports
/// not-running with no further caller action; and for a bounded transfer
/// the interrupt invocation that follows keeps it stopped while disarming
/// the interrupt enables.
pub proof fn lemma_request_stop_completes(ch: Channel)
    ensures
        Transfer::spec_done(Channel::spec_suspend_ack(Transfer::spec_request_stop(ch))),
        !ch.regs.circular ==> Transfer::spec_done(
            Channel::spec_on_irq(Channel::spec_suspend_ack(Transfer::spec_request_stop(ch))),
        ),
{
}

} // verus!
