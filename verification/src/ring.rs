//! Circular operation of a channel: the control adapter, the shared
//! register programming, and the readable and writable ring buffers that
//! pair a channel with a cursor over its block.

use vstd::prelude::*;

use crate::channel::{lemma_byte_elems, Channel, ChannelRegs, ChannelState, HardwareFault};
use crate::options::{Dir, TransferOptions};
use crate::ringbuffer::{
    ctrl_total, DmaCtrl, Error, ExactPoll, ReadableDmaRingBuffer, WritableDmaRingBuffer,
};
use crate::waker::{full_barrier, ordering_barrier, register_waker};
use crate::word::{Word, WordSize};

verus! {

impl DmaCtrl for Channel {
    open spec fn ring_cap(&self) -> nat {
        self.cap_elems()
    }

    open spec fn hw_wraps(&self) -> nat {
        self.state.acked@ + self.state.complete_count as nat
    }

    open spec fn hw_pos(&self) -> nat {
        (self.cap_elems() - self.regs.bndt as nat / self.word_bytes_spec()) as nat
    }

    open spec fn acked(&self) -> nat {
        self.state.acked@
    }

    open spec fn ctrl_wf(&self) -> bool {
        self.circ_wf()
    }

    open spec fn spec_reset_count(&self) -> Channel {
        Channel {
            state: ChannelState {
                complete_count: 0,
                acked: Ghost(self.state.acked@ + self.state.complete_count as nat),
                ..self.state
            },
            ..*self
        }
    }

    proof fn wf_facts(&self) {
        lemma_byte_elems(
            self.word_bytes_spec() as int,
            self.regs.bndt as int,
            self.regs.block_len as int,
            0,
        );
    }

    /// The byte count, scaled to elements of the configured width.
    fn get_remaining_transfers(&self) -> (r: usize) {
        proof {
            lemma_byte_elems(
                self.word_bytes_spec() as int,
                self.regs.bndt as int,
                self.regs.block_len as int,
                0,
            );
        }
        (self.regs.bndt as usize) / self.regs.sdw.bytes()
    }

    /// Take and reset the completion counter.
    fn reset_complete_count(&mut self) -> (r: usize) {
        let r = self.state.complete_count;
        self.state.complete_count = 0;
        self.state.acked = Ghost(self.state.acked@ + r as nat);
        r
    }

    /// Store the waker in the channel's slot.
    fn set_waker(&mut self, waker: &core::task::Waker) {
        register_waker(&self.state.waker, waker);
    }
}

/// Register programming shared by the readable and writable rings.
pub struct RingBuffer {}

impl RingBuffer {
    /// The channel image `configure` leaves: registers reset, then circular
    /// addressing over a block of `mem_len` elements at `mem_addr`, the
    /// data widths, increments, request line and addresses set for `dir`,
    /// the completion counter cleared, and the channel not yet enabled.
    pub open spec fn spec_configured(
        ch: Channel,
        request: u8,
        dir: Dir,
        peri_addr: u32,
        mem_addr: u32,
        mem_len: usize,
        data_size: WordSize,
    ) -> Channel {
        Channel {
            regs: ChannelRegs {
                sdw: data_size,
                ddw: data_size,
                sinc: dir == Dir::MemoryToPeripheral,
                dinc: dir == Dir::PeripheralToMemory,
                dreq_dst: dir == Dir::MemoryToPeripheral,
                reqsel: request,
                bndt: (mem_len * data_size.bytes_spec()) as u16,
                block_len: (mem_len * data_size.bytes_spec()) as u16,
                sar: if dir == Dir::MemoryToPeripheral {
                    mem_addr
                } else {
                    peri_addr
                },
                dar: if dir == Dir::MemoryToPeripheral {
                    peri_addr
                } else {
                    mem_addr
                },
                circular: true,
                ..ChannelRegs::reset_spec()
            },
            state: ChannelState { complete_count: 0, acked: Ghost(0), ..ch.state },
        }
    }

    /// Program the channel for continuous circular operation over the
    /// caller's block. A memory barrier is issued before any register is
    /// touched. The block must be 4-byte aligned, hold at least one
    /// element, and fit the byte-count field.
    pub fn configure(
        ch: &mut Channel,
        request: u8,
        dir: Dir,
        peri_addr: u32,
        mem_addr: u32,
        mem_len: usize,
        data_size: WordSize,
    )
        requires
            1 <= mem_len,
            mem_len * data_size.bytes_spec() <= 65535,
            mem_addr % 4 == 0,
        ensures
            *final(ch) == RingBuffer::spec_configured(
                *old(ch),
                request,
                dir,
                peri_addr,
                mem_addr,
                mem_len,
                data_size,
            ),
            final(ch).circ_wf(),
            final(ch).cap_elems() == mem_len,
            final(ch).true_total() == 0,
    {
        full_barrier();
        let bndt = (mem_len * data_size.bytes()) as u16;
        let mut regs = ChannelRegs::reset();
        regs.sdw = data_size;
        regs.ddw = data_size;
        regs.sinc = matches!(dir, Dir::MemoryToPeripheral);
        regs.dinc = matches!(dir, Dir::PeripheralToMemory);
        regs.dreq_dst = matches!(dir, Dir::MemoryToPeripheral);
        regs.reqsel = request;
        regs.bndt = bndt;
        regs.block_len = bndt;
        regs.sar = if matches!(dir, Dir::MemoryToPeripheral) {
            mem_addr
        } else {
            peri_addr
        };
        regs.dar = if matches!(dir, Dir::MemoryToPeripheral) {
            peri_addr
        } else {
            mem_addr
        };
        regs.circular = true;
        ch.regs = regs;
        ch.state.complete_count = 0;
        ch.state.acked = Ghost(0);
        proof {
            vstd::arithmetic::div_mod::lemma_div_by_multiple(
                mem_len as int,
                data_size.bytes_spec() as int,
            );
            vstd::arithmetic::div_mod::lemma_mod_multiples_basic(
                mem_len as int,
                data_size.bytes_spec() as int,
            );
            assert(mem_len <= 65535) by (nonlinear_arith)
                requires
                    mem_len * data_size.bytes_spec() <= 65535,
                    data_size.bytes_spec() >= 1,
            ;
            assert(mem_len * data_size.bytes_spec() >= 1) by (nonlinear_arith)
                requires
                    mem_len >= 1,
                    data_size.bytes_spec() >= 1,
            ;
            assert((0nat) * ch.cap_elems() == 0) by {
                vstd::arithmetic::mul::lemma_mul_basics(ch.cap_elems() as int);
            }
        }
    }

    /// The channel with its event flags cleared.
    pub open spec fn spec_cleared(ch: Channel) -> Channel {
        Channel { regs: ChannelRegs { htf: false, tcf: false, suspf: false, ..ch.regs }, ..ch }
    }

    /// Clear the stale event flags, as `start` does before re-arming.
    pub fn clear_irqs(ch: &mut Channel)
        ensures
            *final(ch) == RingBuffer::spec_cleared(*old(ch)),
    {
        ch.regs.htf = false;
        ch.regs.tcf = false;
        ch.regs.suspf = false;
    }

    /// Whether the circular channel still runs: false once the hardware
    /// reports a transfer complete.
    pub fn is_running(ch: &Channel) -> (r: bool)
        ensures
            r == !ch.regs.tcf,
    {
        !ch.regs.tcf
    }

    /// Ask the hardware to suspend the channel; the suspend-complete flag
    /// confirms it later. Safe to call any number of times.
    /// The channel with a suspend request raised.
    pub open spec fn spec_suspend_requested(ch: Channel) -> Channel {
        Channel { regs: ChannelRegs { susp: true, ..ch.regs }, ..ch }
    }

    pub fn request_suspend(ch: &mut Channel)
        ensures
            *final(ch) == RingBuffer::spec_suspend_requested(*old(ch)),
    {
        ch.regs.susp = true;
    }

    /// Re-enable the channel: clear stale event flags, drop a pending
    /// suspend request, arm every interrupt enable, and set the enable bit.
    /// The channel after `start`: flags cleared, fully armed and enabled.
    pub open spec fn spec_started(ch: Channel) -> Channel {
        Channel {
            regs: ChannelRegs {
                htf: false,
                tcf: false,
                suspf: false,
                susp: false,
                en: true,
                tcie: true,
                useie: true,
                dteie: true,
                suspie: true,
                htie: true,
                ..ch.regs
            },
            ..ch
        }
    }

    pub fn start(ch: &mut Channel)
        ensures
            *final(ch) == RingBuffer::spec_started(*old(ch)),
    {
        Self::clear_irqs(ch);
        ch.regs.susp = false;
        ch.regs.en = true;
        ch.regs.tcie = true;
        ch.regs.useie = true;
        ch.regs.dteie = true;
        ch.regs.suspie = true;
        ch.regs.htie = true;
    }

    /// One poll of the two-phase stop: request suspension, register the
    /// waker, and re-check the suspend-confirmed flag behind a compiler
    /// barrier. True once the hardware has confirmed the suspension.
    pub fn poll_stop(ch: &mut Channel, waker: &core::task::Waker) -> (done: bool)
        ensures
            *final(ch) == RingBuffer::spec_suspend_requested(*old(ch)),
            done == old(ch).regs.suspf,
    {
        Self::request_suspend(ch);
        register_waker(&ch.state.waker, waker);
        ordering_barrier();
        ch.regs.suspf
    }
}

/// A readable ring buffer: the hardware reads a peripheral into the block
/// in circular mode, raising interrupts at the half and the end of each
/// pass, and the owner consumes the data behind it.
pub struct ReadableRingBuffer<W> {
    /// The owned channel. Exposed so the environment can deliver hardware
    /// events to it while the ring runs.
    pub channel: Channel,
    /// The cursor and the backing block.
    pub ringbuf: ReadableDmaRingBuffer<W>,
}

impl<W: Word> ReadableRingBuffer<W> {
    /// Total elements the hardware has produced into the ring.
    pub open spec fn hw_total(&self) -> nat {
        self.channel.true_total()
    }

    /// The channel is configured for this ring and the cursor's record
    /// tracks it.
    pub open spec fn wf(&self) -> bool {
        &&& self.ringbuf.wf()
        &&& self.channel.circ_wf()
        &&& self.channel.cap_elems() == self.ringbuf.cap_spec()
        &&& self.channel.regs.sdw == W::size_spec()
        &&& self.channel.state.acked@ == self.ringbuf.cwraps@ + if self.ringbuf.pos
            + self.ringbuf.avail >= self.ringbuf.cap_spec() {
            1nat
        } else {
            0nat
        }
        &&& self.ringbuf.synced_total() <= self.hw_total()
    }

    /// With no completion interrupt pending, the cursor's record couples
    /// with the channel's adapter view.
    proof fn lemma_coupled(&self)
        requires
            self.wf(),
            !self.channel.regs.tcf,
        ensures
            self.ringbuf.coupled(&self.channel),
    {
        assert(ctrl_total(&self.channel) == self.channel.true_total());
    }

    /// An adapter whose completion counter was drained keeps the same
    /// totals, so the cursor's record keeps tracking the channel.
    proof fn lemma_recoupled(pre: Self, post: Self)
        requires
            post.ringbuf.wf(),
            post.ringbuf.coupled(&post.channel),
            post.channel == Channel::spec_reset_count(&pre.channel),
            pre.channel.circ_wf(),
            !pre.channel.regs.tcf,
            pre.channel.regs.sdw == W::size_spec(),
            pre.channel.cap_elems() == post.ringbuf.cap_spec(),
        ensures
            post.wf(),
            !post.channel.regs.tcf,
    {
        assert(ctrl_total(&post.channel) == post.channel.true_total());
    }

    /// Create a new readable ring buffer over the caller's block, owning
    /// the channel: the channel is programmed for circular operation but
    /// not yet started.
    pub fn new(
        channel: Channel,
        request: u8,
        peri_addr: u32,
        mem_addr: u32,
        buffer: Vec<W>,
        _options: TransferOptions,
    ) -> (r: Self)
        requires
            1 <= buffer.len(),
            buffer.len() * W::size_spec().bytes_spec() <= 65535,
            mem_addr % 4 == 0,
        ensures
            r.wf(),
            r.channel == RingBuffer::spec_configured(
                channel,
                request,
                Dir::PeripheralToMemory,
                peri_addr,
                mem_addr,
                buffer.len(),
                W::size_spec(),
            ),
            !r.channel.regs.en,
            !r.channel.regs.tcf,
            r.ringbuf.buf == buffer,
            r.ringbuf.consumed@ == 0,
            r.hw_total() == 0,
    {
        let mut ch = channel;
        let len = buffer.len();
        RingBuffer::configure(
            &mut ch,
            request,
            Dir::PeripheralToMemory,
            peri_addr,
            mem_addr,
            len,
            W::size(),
        );
        proof {
            assert(len <= 0xFFFF) by (nonlinear_arith)
                requires
                    len * W::size_spec().bytes_spec() <= 65535,
                    W::size_spec().bytes_spec() >= 1,
            ;
        }
        ReadableRingBuffer { channel: ch, ringbuf: ReadableDmaRingBuffer::new(buffer) }
    }

    /// Start reading the peripheral in circular mode. A completion
    /// interrupt delivered earlier must have been serviced, else its block
    /// would be dropped from the record.
    pub fn start(&mut self)
        requires
            old(self).wf(),
            !old(self).channel.regs.tcf,
        ensures
            final(self).wf(),
            final(self).ringbuf == old(self).ringbuf,
            final(self).channel == RingBuffer::spec_started(old(self).channel),
    {
        RingBuffer::start(&mut self.channel);
    }

    /// Request the transfer to stop; `is_running` reports when the
    /// hardware is done.
    pub fn request_stop(&mut self)
        ensures
            final(self).ringbuf == old(self).ringbuf,
            final(self).channel == RingBuffer::spec_suspend_requested(old(self).channel),
            old(self).wf() ==> final(self).wf(),
    {
        RingBuffer::request_suspend(&mut self.channel);
    }

    /// One poll of the two-phase stop: request suspension, register the
    /// waker, and check the suspend-confirmed flag. The caller suspends on
    /// false and polls again after a wake.
    pub fn poll_stop(&mut self, waker: &core::task::Waker) -> (done: bool)
        ensures
            final(self).ringbuf == old(self).ringbuf,
            final(self).channel == RingBuffer::spec_suspend_requested(old(self).channel),
            done == old(self).channel.regs.suspf,
            old(self).wf() ==> final(self).wf(),
    {
        RingBuffer::poll_stop(&mut self.channel, waker)
    }

    /// Clear the ring's internal record: pending unread data is discarded
    /// and the cursor restarts at the hardware pointer.
    pub fn clear(&mut self)
        requires
            old(self).wf(),
            !old(self).channel.regs.tcf,
        ensures
            final(self).wf(),
            !final(self).channel.regs.tcf,
            final(self).ringbuf.buf == old(self).ringbuf.buf,
            final(self).ringbuf.consumed@ == old(self).hw_total(),
            final(self).ringbuf.avail == 0,
            final(self).hw_total() == old(self).hw_total(),
    {
        proof {
            self.lemma_coupled();
        }
        let ghost pre = *self;
        self.ringbuf.reset(&mut self.channel);
        proof {
            Self::lemma_recoupled(pre, *self);
        }
    }

    /// Read elements from the ring buffer into the front of `dst`.
    ///
    /// Returns the number of elements read and the length remaining in the
    /// backing buffer between the advanced cursor and the block's end; up
    /// to `min(available, dst.len())` elements are moved. Overrun is
    /// reported, with the cursor resynchronized to the hardware pointer,
    /// if the hardware lapped the cursor by more than the capacity.
    pub fn read(&mut self, dst: &mut Vec<W>) -> (r: Result<(usize, usize), Error>)
        requires
            old(self).wf(),
            !old(self).channel.regs.tcf,
        ensures
            final(self).wf(),
            !final(self).channel.regs.tcf,
            final(self).ringbuf.buf == old(self).ringbuf.buf,
            final(self).hw_total() == old(self).hw_total(),
            final(dst).len() == old(dst).len(),
            match r {
                Ok((n, rem)) => {
                    let avail0 = old(self).hw_total() - old(self).ringbuf.consumed@;
                    &&& avail0 <= old(self).ringbuf.cap_spec()
                    &&& n == if avail0 <= old(dst).len() {
                        avail0
                    } else {
                        old(dst).len() as int
                    }
                    &&& forall|i: int|
                        0 <= i < n ==> final(dst)@[i] == old(self).ringbuf.buf@[((old(
                            self,
                        ).ringbuf.consumed@ + i) % old(self).ringbuf.cap_spec() as int) as int]
                    &&& forall|i: int| n <= i < old(dst).len() ==> final(dst)@[i] == old(dst)@[i]
                    &&& final(self).ringbuf.consumed@ == old(self).ringbuf.consumed@ + n
                    &&& final(self).ringbuf.avail == avail0 - n
                    &&& rem == old(self).ringbuf.cap_spec() - final(self).ringbuf.pos
                },
                Err(e) => {
                    &&& e == Error::Overrun
                    &&& old(self).hw_total() - old(self).ringbuf.consumed@ > old(
                        self,
                    ).ringbuf.cap_spec()
                    &&& final(self).ringbuf.consumed@ == old(self).hw_total()
                    &&& final(self).ringbuf.avail == 0
                    &&& final(dst)@ == old(dst)@
                },
            },
    {
        proof {
            self.lemma_coupled();
        }
        let ghost pre = *self;
        let r = self.ringbuf.read(&mut self.channel, dst);
        proof {
            Self::lemma_recoupled(pre, *self);
        }
        r
    }

    /// One poll of an exact read of `dst.len()` elements, `*filled` of
    /// which earlier polls already served.
    ///
    /// Registers the waker, then services as much as is available; ready
    /// only when `dst` is full, else the caller suspends until a
    /// half-transfer or block-complete interrupt. Wakeups come at
    /// half-block granularity, so a request may wait for up to half a
    /// block more than its own length.
    pub fn poll_read_exact(
        &mut self,
        waker: &core::task::Waker,
        dst: &mut Vec<W>,
        filled: &mut usize,
    ) -> (r: Result<ExactPoll, Error>)
        requires
            old(self).wf(),
            !old(self).channel.regs.tcf,
            *old(filled) <= old(dst).len(),
        ensures
            final(self).wf(),
            !final(self).channel.regs.tcf,
            final(self).ringbuf.buf == old(self).ringbuf.buf,
            final(self).hw_total() == old(self).hw_total(),
            final(dst).len() == old(dst).len(),
            *final(filled) <= final(dst).len(),
            match r {
                Ok(p) => {
                    let avail0 = old(self).hw_total() - old(self).ringbuf.consumed@;
                    let need = old(dst).len() - *old(filled);
                    let n = if avail0 <= need {
                        avail0
                    } else {
                        need
                    };
                    &&& avail0 <= old(self).ringbuf.cap_spec()
                    &&& *final(filled) == *old(filled) + n
                    &&& forall|i: int|
                        *old(filled) <= i < *old(filled) + n ==> final(dst)@[i] == old(
                            self,
                        ).ringbuf.buf@[((old(self).ringbuf.consumed@ + (i - *old(filled))) % old(
                            self,
                        ).ringbuf.cap_spec() as int) as int]
                    &&& forall|i: int|
                        0 <= i < old(dst).len() && !(*old(filled) <= i < *old(filled) + n)
                            ==> final(dst)@[i] == old(dst)@[i]
                    &&& final(self).ringbuf.consumed@ == old(self).ringbuf.consumed@ + n
                    &&& final(self).ringbuf.avail == avail0 - n
                    &&& match p {
                        ExactPoll::Ready(rem) => {
                            &&& *final(filled) == final(dst).len()
                            &&& rem == avail0 - n
                        },
                        ExactPoll::Pending => {
                            &&& *final(filled) < final(dst).len()
                            &&& final(self).ringbuf.avail == 0
                        },
                    }
                },
                Err(e) => {
                    &&& e == Error::Overrun
                    &&& old(self).hw_total() - old(self).ringbuf.consumed@ > old(
                        self,
                    ).ringbuf.cap_spec()
                    &&& final(self).ringbuf.consumed@ == old(self).hw_total()
                    &&& final(self).ringbuf.avail == 0
                    &&& final(dst)@ == old(dst)@
                    &&& *final(filled) == *old(filled)
                },
            },
    {
        proof {
            self.lemma_coupled();
        }
        let ghost pre = *self;
        let r = self.ringbuf.poll_read_exact(&mut self.channel, waker, dst, filled);
        proof {
            Self::lemma_recoupled(pre, *self);
        }
        r
    }

    /// The capacity of the ring buffer.
    pub fn cap(&self) -> (r: usize)
        ensures
            r == self.ringbuf.cap_spec(),
    {
        self.ringbuf.cap()
    }

    /// Register the waker woken on half-transfer, block-complete and
    /// suspend events.
    pub fn set_waker(&mut self, waker: &core::task::Waker)
        ensures
            *final(self) == *old(self),
    {
        register_waker(&self.channel.state.waker, waker);
    }

    /// Return whether the hardware still runs the ring.
    pub fn is_running(&self) -> (r: bool)
        ensures
            r == !self.channel.regs.tcf,
    {
        RingBuffer::is_running(&self.channel)
    }

    /// The interrupt handler entry for this ring's channel; see
    /// `Channel::on_irq`. Keeps the cursor's record valid.
    pub fn on_irq(&mut self) -> (r: Result<(), HardwareFault>)
        requires
            old(self).wf(),
            old(self).channel.state.complete_count < usize::MAX,
        ensures
            final(self).ringbuf == old(self).ringbuf,
            final(self).wf(),
            match r {
                Ok(()) => Channel::spec_irq_fault(old(self).channel) is None && final(self).channel
                    == Channel::spec_on_irq(old(self).channel),
                Err(f) => Channel::spec_irq_fault(old(self).channel) == Some(f)
                    && final(self).channel == old(self).channel,
            },
    {
        let r = self.channel.on_irq();
        proof {
            if old(self).channel.regs.tcf {
                let a = old(self).channel.state.acked@;
                let c = old(self).channel.state.complete_count as nat;
                let cap = old(self).channel.cap_elems();
                assert((a + (c + 1)) * cap == (a + c) * cap + cap) by {
                    vstd::arithmetic::mul::lemma_mul_is_distributive_add_other_way(
                        cap as int,
                        (a + c) as int,
                        1,
                    );
                }
            }
        }
        r
    }

    /// Release the channel and the backing block of a ring that has
    /// stopped. Issues the closing memory barrier and disarms the channel,
    /// so no hardware access to the block outlives the ring.
    pub fn finish(self) -> (r: (Channel, Vec<W>))
        requires
            self.channel.regs.tcf || self.channel.regs.suspf || !self.channel.regs.en,
        ensures
            r.0 == (Channel {
                regs: ChannelRegs {
                    en: false,
                    tcie: false,
                    useie: false,
                    dteie: false,
                    suspie: false,
                    htie: false,
                    ..self.channel.regs
                },
                ..self.channel
            }),
            r.0.regs.disarmed(),
            r.1 == self.ringbuf.buf,
    {
        full_barrier();
        let ReadableRingBuffer { mut channel, ringbuf } = self;
        channel.regs.en = false;
        channel.regs.tcie = false;
        channel.regs.useie = false;
        channel.regs.dteie = false;
        channel.regs.suspie = false;
        channel.regs.htie = false;
        let ReadableDmaRingBuffer { buf, .. } = ringbuf;
        (channel, buf)
    }
}


/// A writable ring buffer: the owner produces data into the block, and the
/// hardware writes it to a peripheral in circular mode, raising interrupts
/// at the half and the end of each pass.
pub struct WritableRingBuffer<W> {
    /// The owned channel. Exposed so the environment can deliver hardware
    /// events to it while the ring runs.
    pub channel: Channel,
    /// The cursor and the backing block.
    pub ringbuf: WritableDmaRingBuffer<W>,
}

impl<W: Word> WritableRingBuffer<W> {
    /// Total elements the hardware has consumed from the ring.
    pub open spec fn hw_total(&self) -> nat {
        self.channel.true_total()
    }

    /// The channel is configured for this ring and the cursor's record
    /// tracks it.
    pub open spec fn wf(&self) -> bool {
        &&& self.ringbuf.wf()
        &&& self.channel.circ_wf()
        &&& self.channel.cap_elems() == self.ringbuf.cap_spec()
        &&& self.channel.regs.sdw == W::size_spec()
        &&& self.channel.state.acked@ + (if self.ringbuf.pos < self.ringbuf.pending {
            1nat
        } else {
            0nat
        }) == self.ringbuf.wwraps@
        &&& self.ringbuf.synced_total() <= self.hw_total()
    }

    /// With no completion interrupt pending, the cursor's record couples
    /// with the channel's adapter view.
    proof fn lemma_coupled(&self)
        requires
            self.wf(),
            !self.channel.regs.tcf,
        ensures
            self.ringbuf.coupled(&self.channel),
    {
        assert(ctrl_total(&self.channel) == self.channel.true_total());
    }

    /// An adapter whose completion counter was drained keeps the same
    /// totals, so the cursor's record keeps tracking the channel.
    proof fn lemma_recoupled(pre: Self, post: Self)
        requires
            post.ringbuf.wf(),
            post.ringbuf.coupled(&post.channel),
            post.channel == Channel::spec_reset_count(&pre.channel),
            pre.channel.circ_wf(),
            !pre.channel.regs.tcf,
            pre.channel.regs.sdw == W::size_spec(),
            pre.channel.cap_elems() == post.ringbuf.cap_spec(),
        ensures
            post.wf(),
            !post.channel.regs.tcf,
    {
        assert(ctrl_total(&post.channel) == post.channel.true_total());
    }

    /// Create a new writable ring buffer over the caller's block, owning
    /// the channel: the channel is programmed for circular operation but
    /// not yet started.
    pub fn new(
        channel: Channel,
        request: u8,
        peri_addr: u32,
        mem_addr: u32,
        buffer: Vec<W>,
        _options: TransferOptions,
    ) -> (r: Self)
        requires
            1 <= buffer.len(),
            buffer.len() * W::size_spec().bytes_spec() <= 65535,
            mem_addr % 4 == 0,
        ensures
            r.wf(),
            r.channel == RingBuffer::spec_configured(
                channel,
                request,
                Dir::MemoryToPeripheral,
                peri_addr,
                mem_addr,
                buffer.len(),
                W::size_spec(),
            ),
            !r.channel.regs.en,
            !r.channel.regs.tcf,
            r.ringbuf.buf == buffer,
            r.ringbuf.written@ == 0,
            r.ringbuf.pending == 0,
            r.ringbuf.pos == 0,
            r.ringbuf.wwraps@ == 0,
            r.hw_total() == 0,
    {
        let mut ch = channel;
        let len = buffer.len();
        RingBuffer::configure(
            &mut ch,
            request,
            Dir::MemoryToPeripheral,
            peri_addr,
            mem_addr,
            len,
            W::size(),
        );
        proof {
            assert(len <= 0xFFFF) by (nonlinear_arith)
                requires
                    len * W::size_spec().bytes_spec() <= 65535,
                    W::size_spec().bytes_spec() >= 1,
            ;
        }
        WritableRingBuffer { channel: ch, ringbuf: WritableDmaRingBuffer::new(buffer) }
    }

    /// Start writing to the peripheral in circular mode. A completion
    /// interrupt delivered earlier must have been serviced, else its block
    /// would be dropped from the record.
    pub fn start(&mut self)
        requires
            old(self).wf(),
            !old(self).channel.regs.tcf,
        ensures
            final(self).wf(),
            final(self).ringbuf == old(self).ringbuf,
            final(self).channel == RingBuffer::spec_started(old(self).channel),
    {
        RingBuffer::start(&mut self.channel);
    }

    /// Request the transfer to stop by dropping the enable bit; writes can
    /// be stopped at once, no suspension is needed.
    pub fn request_stop(&mut self)
        ensures
            final(self).ringbuf == old(self).ringbuf,
            final(self).channel == (Channel {
                regs: ChannelRegs { en: false, ..old(self).channel.regs },
                ..old(self).channel
            }),
            old(self).wf() ==> final(self).wf(),
    {
        self.channel.regs.en = false;
    }

    /// One poll of the two-phase stop: request suspension, register the
    /// waker, and check the suspend-confirmed flag. The caller suspends on
    /// false and polls again after a wake.
    pub fn poll_stop(&mut self, waker: &core::task::Waker) -> (done: bool)
        ensures
            final(self).ringbuf == old(self).ringbuf,
            final(self).channel == RingBuffer::spec_suspend_requested(old(self).channel),
            done == old(self).channel.regs.suspf,
            old(self).wf() ==> final(self).wf(),
    {
        RingBuffer::poll_stop(&mut self.channel, waker)
    }

    /// Write elements directly into the backing block from its base,
    /// bypassing the cursor arithmetic, to seed the buffer before the
    /// channel is started.
    pub fn write_immediate(&mut self, src: &Vec<W>) -> (r: Result<(usize, usize), Error>)
        requires
            old(self).wf(),
            old(self).ringbuf.written@ == 0,
            old(self).ringbuf.pos == 0,
            old(self).ringbuf.pending == 0,
            old(self).ringbuf.wwraps@ == 0,
            old(self).channel.state.acked@ == 0,
        ensures
            final(self).wf(),
            final(self).channel == old(self).channel,
            ({
                let n = if old(self).ringbuf.cap_spec() <= src.len() {
                    old(self).ringbuf.cap_spec() as int
                } else {
                    src.len() as int
                };
                &&& r == Ok::<(usize, usize), Error>(
                    (n as usize, (old(self).ringbuf.cap_spec() - n) as usize),
                )
                &&& forall|j: int| 0 <= j < n ==> #[trigger] final(self).ringbuf.buf@[j] == src@[j]
                &&& final(self).ringbuf.written@ == n
                &&& final(self).ringbuf.pending == n
            }),
    {
        self.ringbuf.write_immediate(src)
    }

    /// Clear the ring's internal record: pending unconsumed data is
    /// discarded and the cursor restarts at the hardware pointer.
    pub fn clear(&mut self)
        requires
            old(self).wf(),
            !old(self).channel.regs.tcf,
        ensures
            final(self).wf(),
            !final(self).channel.regs.tcf,
            final(self).ringbuf.buf == old(self).ringbuf.buf,
            final(self).ringbuf.written@ == old(self).hw_total(),
            final(self).ringbuf.pending == 0,
            final(self).hw_total() == old(self).hw_total(),
    {
        proof {
            self.lemma_coupled();
        }
        let ghost pre = *self;
        self.ringbuf.reset(&mut self.channel);
        proof {
            Self::lemma_recoupled(pre, *self);
        }
    }

    /// Write elements from the front of `src` into the ring buffer.
    ///
    /// Returns the number of elements written and the length remaining in
    /// the backing buffer between the advanced cursor and the block's end;
    /// up to `min(free, src.len())` elements are moved. Overrun is
    /// reported, with the cursor resynchronized to the hardware pointer,
    /// if the hardware consumed past the cursor.
    pub fn write(&mut self, src: &Vec<W>) -> (r: Result<(usize, usize), Error>)
        requires
            old(self).wf(),
            !old(self).channel.regs.tcf,
        ensures
            final(self).wf(),
            !final(self).channel.regs.tcf,
            final(self).ringbuf.buf.len() == old(self).ringbuf.buf.len(),
            final(self).hw_total() == old(self).hw_total(),
            match r {
                Ok((n, rem)) => {
                    let free0 = old(self).ringbuf.cap_spec() - (old(self).ringbuf.written@ - old(
                        self,
                    ).hw_total());
                    &&& old(self).hw_total() <= old(self).ringbuf.written@
                    &&& n == if free0 <= src.len() {
                        free0
                    } else {
                        src.len() as int
                    }
                    &&& final(self).ringbuf.written@ == old(self).ringbuf.written@ + n
                    &&& final(self).ringbuf.pending == old(self).ringbuf.written@ - old(
                        self,
                    ).hw_total() + n
                    &&& ({
                        let pos0 = old(self).ringbuf.pos as int;
                        let capi = old(self).ringbuf.cap_spec() as int;
                        forall|j: int|
                            0 <= j < old(self).ringbuf.buf.len()
                                ==> #[trigger] final(self).ringbuf.buf@[j] == (if (j - pos0) % capi
                                < n {
                                src@[(j - pos0) % capi]
                            } else {
                                old(self).ringbuf.buf@[j]
                            })
                    })
                    &&& rem == old(self).ringbuf.cap_spec() - final(self).ringbuf.pos
                },
                Err(e) => {
                    &&& e == Error::Overrun
                    &&& old(self).hw_total() > old(self).ringbuf.written@
                    &&& final(self).ringbuf.written@ == old(self).hw_total()
                    &&& final(self).ringbuf.pending == 0
                    &&& final(self).ringbuf.buf == old(self).ringbuf.buf
                },
            },
    {
        proof {
            self.lemma_coupled();
        }
        let ghost pre = *self;
        let r = self.ringbuf.write(&mut self.channel, src);
        proof {
            Self::lemma_recoupled(pre, *self);
        }
        r
    }

    /// One poll of an exact write of `src.len()` elements, `*sent` of
    /// which earlier polls already wrote.
    ///
    /// Registers the waker, then writes as much as space allows; ready
    /// only when all of `src` is written, else the caller suspends until a
    /// half-transfer or block-complete interrupt.
    pub fn poll_write_exact(
        &mut self,
        waker: &core::task::Waker,
        src: &Vec<W>,
        sent: &mut usize,
    ) -> (r: Result<ExactPoll, Error>)
        requires
            old(self).wf(),
            !old(self).channel.regs.tcf,
            *old(sent) <= src.len(),
        ensures
            final(self).wf(),
            !final(self).channel.regs.tcf,
            final(self).ringbuf.buf.len() == old(self).ringbuf.buf.len(),
            final(self).hw_total() == old(self).hw_total(),
            *final(sent) <= src.len(),
            match r {
                Ok(p) => {
                    let free0 = old(self).ringbuf.cap_spec() - (old(self).ringbuf.written@ - old(
                        self,
                    ).hw_total());
                    let need = src.len() - *old(sent);
                    let n = if free0 <= need {
                        free0
                    } else {
                        need
                    };
                    &&& old(self).hw_total() <= old(self).ringbuf.written@
                    &&& *final(sent) == *old(sent) + n
                    &&& final(self).ringbuf.written@ == old(self).ringbuf.written@ + n
                    &&& final(self).ringbuf.pending == old(self).ringbuf.written@ - old(
                        self,
                    ).hw_total() + n
                    &&& ({
                        let pos0 = old(self).ringbuf.pos as int;
                        let capi = old(self).ringbuf.cap_spec() as int;
                        forall|j: int|
                            0 <= j < old(self).ringbuf.buf.len()
                                ==> #[trigger] final(self).ringbuf.buf@[j] == (if (j - pos0) % capi
                                < n {
                                src@[*old(sent) + (j - pos0) % capi]
                            } else {
                                old(self).ringbuf.buf@[j]
                            })
                    })
                    &&& match p {
                        ExactPoll::Ready(rem) => {
                            &&& *final(sent) == src.len()
                            &&& rem == old(self).ringbuf.cap_spec() - final(self).ringbuf.pending
                        },
                        ExactPoll::Pending => {
                            &&& *final(sent) < src.len()
                            &&& final(self).ringbuf.pending == old(self).ringbuf.cap_spec()
                        },
                    }
                },
                Err(e) => {
                    &&& e == Error::Overrun
                    &&& old(self).hw_total() > old(self).ringbuf.written@
                    &&& final(self).ringbuf.written@ == old(self).hw_total()
                    &&& final(self).ringbuf.pending == 0
                    &&& final(self).ringbuf.buf == old(self).ringbuf.buf
                    &&& *final(sent) == *old(sent)
                },
            },
    {
        proof {
            self.lemma_coupled();
        }
        let ghost pre = *self;
        let r = self.ringbuf.poll_write_exact(&mut self.channel, waker, src, sent);
        proof {
            Self::lemma_recoupled(pre, *self);
        }
        r
    }

    /// The capacity of the ring buffer.
    pub fn cap(&self) -> (r: usize)
        ensures
            r == self.ringbuf.cap_spec(),
    {
        self.ringbuf.cap()
    }

    /// Register the waker woken on half-transfer, block-complete and
    /// suspend events.
    pub fn set_waker(&mut self, waker: &core::task::Waker)
        ensures
            *final(self) == *old(self),
    {
        register_waker(&self.channel.state.waker, waker);
    }

    /// Return whether the hardware still runs the ring.
    pub fn is_running(&self) -> (r: bool)
        ensures
            r == !self.channel.regs.tcf,
    {
        RingBuffer::is_running(&self.channel)
    }

    /// The interrupt handler entry for this ring's channel; see
    /// `Channel::on_irq`. Keeps the cursor's record valid.
    pub fn on_irq(&mut self) -> (r: Result<(), HardwareFault>)
        requires
            old(self).wf(),
            old(self).channel.state.complete_count < usize::MAX,
        ensures
            final(self).ringbuf == old(self).ringbuf,
            final(self).wf(),
            match r {
                Ok(()) => Channel::spec_irq_fault(old(self).channel) is None && final(self).channel
                    == Channel::spec_on_irq(old(self).channel),
                Err(f) => Channel::spec_irq_fault(old(self).channel) == Some(f)
                    && final(self).channel == old(self).channel,
            },
    {
        let r = self.channel.on_irq();
        proof {
            if old(self).channel.regs.tcf {
                let a = old(self).channel.state.acked@;
                let c = old(self).channel.state.complete_count as nat;
                let cap = old(self).channel.cap_elems();
                assert((a + (c + 1)) * cap == (a + c) * cap + cap) by {
                    vstd::arithmetic::mul::lemma_mul_is_distributive_add_other_way(
                        cap as int,
                        (a + c) as int,
                        1,
                    );
                }
            }
        }
        r
    }

    /// Release the channel and the backing block of a ring that has
    /// stopped. Issues the closing memory barrier and disarms the channel,
    /// so no hardware access to the block outlives the ring.
    pub fn finish(self) -> (r: (Channel, Vec<W>))
        requires
            self.channel.regs.tcf || self.channel.regs.suspf || !self.channel.regs.en,
        ensures
            r.0 == (Channel {
                regs: ChannelRegs {
                    en: false,
                    tcie: false,
                    useie: false,
                    dteie: false,
                    suspie: false,
                    htie: false,
                    ..self.channel.regs
                },
                ..self.channel
            }),
            r.0.regs.disarmed(),
            r.1 == self.ringbuf.buf,
    {
        full_barrier();
        let WritableRingBuffer { mut channel, ringbuf } = self;
        channel.regs.en = false;
        channel.regs.tcie = false;
        channel.regs.useie = false;
        channel.regs.dteie = false;
        channel.regs.suspie = false;
        channel.regs.htie = false;
        let WritableDmaRingBuffer { buf, .. } = ringbuf;
        (channel, buf)
    }
}


} // verus!
