//! One DMA channel: the register file the driver programs, and the runtime
//! state shared between the interrupt handler and the channel's owner.
//!
//! The register file is held as plain data. The driver's side (programming,
//! polling, the interrupt handler) is verified against it; the hardware's
//! side (a transfer progressing, a suspend request being acknowledged) is a
//! set of transition functions with contracts, which an environment invokes
//! to deliver events.

use vstd::prelude::*;

use vstd::arithmetic::div_mod::{lemma_fundamental_div_mod, lemma_fundamental_div_mod_converse};
use vstd::arithmetic::mul::lemma_mul_is_distributive_sub_other_way;

use crate::options::{TransferPriority, TriggerMode, TriggerPolarity};
use crate::waker::{new_atomic_waker, register_waker, wake_waker};
use crate::word::WordSize;

verus! {

/// A fatal hardware error reported in the channel's status register.
///
/// Both indicate a misconfiguration or a bus fault, never a transient
/// condition; the caller of the interrupt handler must abort, not retry.
#[derive(Debug, Copy, Clone, PartialEq, Eq, Structural)]
pub enum HardwareFault {
    /// The data-transfer error flag was set.
    DataTransfer,
    /// The user-setting error flag was set.
    UserSetting,
}

/// The register file of one channel, as plain data.
///
/// Field names follow the controller's register layout: `en`/`susp`/the
/// interrupt-enable bits live in the control register, the `f`-suffixed
/// flags in the status register, the data widths, increments and burst
/// fields in the first transfer register, the request and trigger fields in
/// the second, and `bndt` is the byte count remaining in the current block.
#[derive(Debug, Copy, Clone, PartialEq, Eq, Structural)]
pub struct ChannelRegs {
    /// Channel enable.
    pub en: bool,
    /// Suspend request.
    pub susp: bool,
    /// Transfer-complete interrupt enable.
    pub tcie: bool,
    /// User-setting-error interrupt enable.
    pub useie: bool,
    /// Data-transfer-error interrupt enable.
    pub dteie: bool,
    /// Suspend-complete interrupt enable.
    pub suspie: bool,
    /// Half-transfer interrupt enable.
    pub htie: bool,
    /// Priority of the channel.
    pub prio: TransferPriority,
    /// Idle flag: the channel has nothing in flight.
    pub idlef: bool,
    /// Transfer-complete flag.
    pub tcf: bool,
    /// Half-transfer flag.
    pub htf: bool,
    /// Suspend-complete flag.
    pub suspf: bool,
    /// Data-transfer-error flag.
    pub dtef: bool,
    /// User-setting-error flag.
    pub usef: bool,
    /// Source data width.
    pub sdw: WordSize,
    /// Destination data width.
    pub ddw: WordSize,
    /// Source address increment.
    pub sinc: bool,
    /// Destination address increment.
    pub dinc: bool,
    /// Source burst length, stored as the length minus one.
    pub sbl_1: u8,
    /// Destination burst length, stored as the length minus one.
    pub dbl_1: u8,
    /// The hardware request drives the destination side.
    pub dreq_dst: bool,
    /// Hardware request line selection.
    pub reqsel: u8,
    /// Trigger mode.
    pub trigm: TriggerMode,
    /// Trigger source selection.
    pub trigsel: u8,
    /// Trigger polarity.
    pub trigpol: TriggerPolarity,
    /// Bytes remaining in the current block.
    pub bndt: u16,
    /// Programmed block length in bytes; in circular mode `bndt` reloads
    /// from it when a block completes.
    pub block_len: u16,
    /// Source address.
    pub sar: u32,
    /// Destination address.
    pub dar: u32,
    /// The linked list points back at the block, so addressing wraps within
    /// the block instead of terminating.
    pub circular: bool,
}

impl ChannelRegs {
    /// The register image after a channel reset: everything cleared.
    pub open spec fn reset_spec() -> ChannelRegs {
        ChannelRegs {
            en: false,
            susp: false,
            tcie: false,
            useie: false,
            dteie: false,
            suspie: false,
            htie: false,
            prio: TransferPriority::LowWithLowWeight,
            idlef: false,
            tcf: false,
            htf: false,
            suspf: false,
            dtef: false,
            usef: false,
            sdw: WordSize::OneByte,
            ddw: WordSize::OneByte,
            sinc: false,
            dinc: false,
            sbl_1: 0,
            dbl_1: 0,
            dreq_dst: false,
            reqsel: 0,
            trigm: TriggerMode::Block,
            trigsel: 0,
            trigpol: TriggerPolarity::Disabled,
            bndt: 0,
            block_len: 0,
            sar: 0,
            dar: 0,
            circular: false,
        }
    }

    /// A cleared register image.
    pub fn reset() -> (r: ChannelRegs)
        ensures
            r == ChannelRegs::reset_spec(),
    {
        ChannelRegs {
            en: false,
            susp: false,
            tcie: false,
            useie: false,
            dteie: false,
            suspie: false,
            htie: false,
            prio: TransferPriority::LowWithLowWeight,
            idlef: false,
            tcf: false,
            htf: false,
            suspf: false,
            dtef: false,
            usef: false,
            sdw: WordSize::OneByte,
            ddw: WordSize::OneByte,
            sinc: false,
            dinc: false,
            sbl_1: 0,
            dbl_1: 0,
            dreq_dst: false,
            reqsel: 0,
            trigm: TriggerMode::Block,
            trigsel: 0,
            trigpol: TriggerPolarity::Disabled,
            bndt: 0,
            block_len: 0,
            sar: 0,
            dar: 0,
            circular: false,
        }
    }

    /// The register image after `step` further bytes of circular progress:
    /// the byte count falls, or reloads with the complete flag rising when
    /// the block ends; the half-transfer flag rises when the caller saw the
    /// half boundary crossed; every other field keeps its value.
    #[verifier::rlimit(100)]
    #[verifier::spinoff_prover]
    fn ring_stepped(regs: ChannelRegs, step: u16, raise_htf: bool) -> (r: ChannelRegs)
        requires
            step <= regs.bndt,
        ensures
            r.bndt == if step == regs.bndt {
                regs.block_len as int
            } else {
                regs.bndt - step
            },
            r.tcf == (regs.tcf || step == regs.bndt),
            r.htf == (regs.htf || raise_htf),
            r.en == regs.en,
            r.susp == regs.susp,
            r.tcie == regs.tcie,
            r.useie == regs.useie,
            r.dteie == regs.dteie,
            r.suspie == regs.suspie,
            r.htie == regs.htie,
            r.prio == regs.prio,
            r.idlef == regs.idlef,
            r.suspf == regs.suspf,
            r.dtef == regs.dtef,
            r.usef == regs.usef,
            r.sdw == regs.sdw,
            r.ddw == regs.ddw,
            r.sinc == regs.sinc,
            r.dinc == regs.dinc,
            r.sbl_1 == regs.sbl_1,
            r.dbl_1 == regs.dbl_1,
            r.dreq_dst == regs.dreq_dst,
            r.reqsel == regs.reqsel,
            r.trigm == regs.trigm,
            r.trigsel == regs.trigsel,
            r.trigpol == regs.trigpol,
            r.block_len == regs.block_len,
            r.sar == regs.sar,
            r.dar == regs.dar,
            r.circular == regs.circular,
    {
        let bndt = regs.bndt;
        ChannelRegs {
            bndt: if step == bndt {
                regs.block_len
            } else {
                bndt - step
            },
            tcf: regs.tcf || step == bndt,
            htf: regs.htf || raise_htf,
            ..regs
        }
    }

    /// The channel cannot start anything and cannot raise an interrupt.
    pub open spec fn disarmed(&self) -> bool {
        &&& !self.en
        &&& !self.tcie
        &&& !self.useie
        &&& !self.dteie
        &&& !self.suspie
        &&& !self.htie
    }
}

/// Facts tying a byte count that is a whole multiple of the element size
/// to its element count, under progress of `elems` elements.
pub(crate) proof fn lemma_byte_elems(w: int, b: int, bl: int, elems: int)
    requires
        w >= 1,
        b % w == 0,
        bl % w == 0,
        0 < b <= bl,
        0 <= elems,
        elems * w <= b,
    ensures
        (b / w) * w == b,
        (bl / w) * w == bl,
        b / w <= bl / w,
        1 <= b / w,
        (b - elems * w) % w == 0,
        (b - elems * w) / w == b / w - elems,
{
    let q = b / w;
    let qb = bl / w;
    assert(q * w == b) by {
        lemma_fundamental_div_mod(b, w);
    }
    assert(qb * w == bl) by {
        lemma_fundamental_div_mod(bl, w);
    }
    assert(q <= qb) by {
        vstd::arithmetic::div_mod::lemma_div_is_ordered(b, bl, w);
    }
    assert(w <= b) by {
        if b < w {
            vstd::arithmetic::div_mod::lemma_small_mod(b as nat, w as nat);
        }
    }
    assert(1 <= q) by {
        vstd::arithmetic::div_mod::lemma_div_non_zero(b, w);
    }
    assert((q - elems) * w == q * w - elems * w) by {
        lemma_mul_is_distributive_sub_other_way(w, q, elems);
    }
    assert((b - elems * w) % w == 0 && (b - elems * w) / w == q - elems) by {
        lemma_fundamental_div_mod_converse(b - elems * w, w, q - elems, 0);
    }
}

/// Runtime state of one channel, shared between the interrupt handler
/// (producer) and the single current owner (consumer).
pub struct ChannelState {
    /// Completion counter: incremented once per full-transfer interrupt,
    /// reset by the owner.
    pub complete_count: usize,
    /// A wake signal has been delivered and not yet consumed by the
    /// scheduler. Mirrors what the stored waker hands the scheduler.
    pub woken: bool,
    /// Slot holding the last registered waker.
    pub waker: embassy_sync::waitqueue::AtomicWaker,
    /// Full blocks already handed to the owner through the completion
    /// counter resets.
    pub acked: Ghost<nat>,
}

/// One DMA channel: register file plus runtime state. Exactly one owner (a
/// transfer or a ring buffer) holds a channel at a time; the environment
/// delivers hardware events through the transition functions.
pub struct Channel {
    /// The channel's registers.
    pub regs: ChannelRegs,
    /// The channel's runtime state.
    pub state: ChannelState,
}

impl Channel {
    /// A fresh channel: registers cleared, counter zero, no wake pending.
    pub fn new() -> (r: Channel)
        ensures
            r.regs == ChannelRegs::reset_spec(),
            r.state.complete_count == 0,
            !r.state.woken,
            r.state.acked@ == 0,
    {
        Channel {
            regs: ChannelRegs::reset(),
            state: ChannelState {
                complete_count: 0,
                woken: false,
                waker: new_atomic_waker(),
                acked: Ghost(0),
            },
        }
    }

    /// Bytes of one element at the channel's configured source width.
    pub open spec fn word_bytes_spec(&self) -> nat {
        self.regs.sdw.bytes_spec() as nat
    }

    /// Capacity of the circular block, in elements.
    pub open spec fn cap_elems(&self) -> nat {
        self.regs.block_len as nat / self.word_bytes_spec()
    }

    /// Position of the hardware pointer within the block, in elements.
    pub open spec fn hw_pos(&self) -> nat {
        (self.cap_elems() - self.regs.bndt as nat / self.word_bytes_spec()) as nat
    }

    /// Full blocks visible to software: blocks already consumed from the
    /// counter plus the counter's current value.
    pub open spec fn hw_wraps(&self) -> nat {
        self.state.acked@ + self.state.complete_count as nat
    }

    /// Total elements moved, as reconstructible from the completion counter
    /// and the position register.
    pub open spec fn visible_total(&self) -> nat {
        self.hw_wraps() * self.cap_elems() + self.hw_pos()
    }

    /// Total elements the hardware has actually moved: the visible total,
    /// plus one block whose completion interrupt is still pending.
    pub open spec fn true_total(&self) -> nat {
        self.visible_total() + if self.regs.tcf {
            self.cap_elems()
        } else {
            0
        }
    }

    /// Well-formedness of a channel configured for circular operation.
    pub open spec fn circ_wf(&self) -> bool {
        &&& self.regs.circular
        &&& self.regs.block_len as nat % self.word_bytes_spec() == 0
        &&& self.regs.bndt as nat % self.word_bytes_spec() == 0
        &&& 0 < self.regs.bndt
        &&& self.regs.bndt <= self.regs.block_len
        &&& 1 <= self.cap_elems() <= 0xFFFF
    }

    /// Register the scheduler's waker in the channel's slot, overwriting a
    /// previously registered one.
    pub fn set_waker(&self, w: &core::task::Waker) {
        register_waker(&self.state.waker, w);
    }

    /// Consume a pending wake signal, as the scheduler does before
    /// re-polling the suspended operation.
    pub fn take_wake(&mut self) -> (r: bool)
        ensures
            r == old(self).state.woken,
            *final(self) == (Channel {
                state: ChannelState { woken: false, ..old(self).state },
                ..*old(self)
            }),
    {
        let r = self.state.woken;
        self.state.woken = false;
        r
    }

    /// Deliver a wake signal to whoever is suspended on this channel;
    /// harmless when nothing is registered.
    fn wake(&mut self)
        ensures
            *final(self) == (Channel {
                state: ChannelState { woken: true, ..old(self).state },
                ..*old(self)
            }),
    {
        self.state.woken = true;
        wake_waker(&self.state.waker);
    }

    /// The fault the status register reports, if any.
    pub open spec fn spec_irq_fault(ch: Channel) -> Option<HardwareFault> {
        if ch.regs.dtef {
            Some(HardwareFault::DataTransfer)
        } else if ch.regs.usef {
            Some(HardwareFault::UserSetting)
        } else {
            None
        }
    }

    /// The channel after one fault-free interrupt invocation.
    ///
    /// In circular mode each event flag is cleared as it is handled, the
    /// completion counter counts full blocks, and suspend-complete disarms
    /// the interrupt enables. Outside circular mode the flags are left for
    /// the owner's status check and the enables are disarmed.
    pub open spec fn spec_on_irq(ch: Channel) -> Channel {
        if ch.regs.circular {
            let cleared = ChannelRegs { htf: false, tcf: false, ..ch.regs };
            let regs = if ch.regs.suspf {
                ChannelRegs {
                    suspf: false,
                    tcie: false,
                    useie: false,
                    dteie: false,
                    suspie: false,
                    htie: false,
                    ..cleared
                }
            } else {
                cleared
            };
            Channel {
                regs,
                state: ChannelState {
                    complete_count: if ch.regs.tcf {
                        (ch.state.complete_count + 1) as usize
                    } else {
                        ch.state.complete_count
                    },
                    woken: ch.state.woken || ch.regs.htf || ch.regs.tcf || ch.regs.suspf,
                    ..ch.state
                },
            }
        } else {
            if ch.regs.tcf || ch.regs.suspf {
                Channel {
                    regs: ChannelRegs {
                        tcie: false,
                        useie: false,
                        dteie: false,
                        suspie: false,
                        htie: false,
                        ..ch.regs
                    },
                    state: ChannelState { woken: true, ..ch.state },
                }
            } else {
                ch
            }
        }
    }

    /// The interrupt handler. Reads the status once and classifies the
    /// event; an error flag is fatal and reported without touching the
    /// channel, so the caller can abort. Tolerates a channel with no
    /// waiting consumer: the wake is then a no-op.
    pub fn on_irq(&mut self) -> (r: Result<(), HardwareFault>)
        requires
            old(self).regs.circular && old(self).regs.tcf ==> old(self).state.complete_count
                < usize::MAX,
        ensures
            match r {
                Ok(()) => Channel::spec_irq_fault(*old(self)) is None && *final(self)
                    == Channel::spec_on_irq(*old(self)),
                Err(f) => Channel::spec_irq_fault(*old(self)) == Some(f) && *final(self) == *old(
                    self,
                ),
            },
    {
        let dtef = self.regs.dtef;
        let usef = self.regs.usef;
        let htf = self.regs.htf;
        let tcf = self.regs.tcf;
        let suspf = self.regs.suspf;

        if dtef {
            return Err(HardwareFault::DataTransfer);
        }
        if usef {
            return Err(HardwareFault::UserSetting);
        }

        if self.regs.circular {
            if htf {
                self.regs.htf = false;
                self.wake();
            }
            if tcf {
                self.regs.tcf = false;
                self.state.complete_count = self.state.complete_count + 1;
                self.wake();
            }
            if suspf {
                self.regs.suspf = false;
                self.regs.tcie = false;
                self.regs.useie = false;
                self.regs.dteie = false;
                self.regs.suspie = false;
                self.regs.htie = false;
                self.wake();
            }
        } else {
            if tcf || suspf {
                self.regs.tcie = false;
                self.regs.useie = false;
                self.regs.dteie = false;
                self.regs.suspie = false;
                self.regs.htie = false;
                self.wake();
            }
        }
        Ok(())
    }

    /// The channel after the hardware acknowledges a suspend request: the
    /// suspend-complete flag is raised, everything else keeps its value.
    pub open spec fn spec_suspend_ack(ch: Channel) -> Channel {
        Channel { regs: ChannelRegs { suspf: true, ..ch.regs }, ..ch }
    }

    /// Hardware transition: acknowledge a pending suspend request.
    pub fn hw_suspend_ack(&mut self)
        requires
            old(self).regs.susp,
        ensures
            *final(self) == Channel::spec_suspend_ack(*old(self)),
    {
        self.regs.suspf = true;
    }

    /// Hardware transition: the channel, in circular mode, moves `elems`
    /// further elements. The byte count falls by that many elements' bytes;
    /// on crossing the block's half the half-transfer flag rises, and on
    /// reaching its end the byte count reloads and the complete flag rises.
    /// A block may complete only after the previous completion was
    /// serviced: a wrap while the complete flag is still set would lose an
    /// interrupt.
    #[verifier::rlimit(100)]
    #[verifier::spinoff_prover]
    pub fn hw_ring_progress(&mut self, elems: usize)
        requires
            old(self).circ_wf(),
            old(self).regs.en,
            !old(self).regs.susp,
            elems * old(self).word_bytes_spec() <= old(self).regs.bndt,
            elems * old(self).word_bytes_spec() == old(self).regs.bndt ==> !old(self).regs.tcf,
        ensures
            final(self).state == old(self).state,
            final(self).circ_wf(),
            final(self).cap_elems() == old(self).cap_elems(),
            final(self).word_bytes_spec() == old(self).word_bytes_spec(),
            final(self).hw_wraps() == old(self).hw_wraps(),
            final(self).hw_pos() == if old(self).hw_pos() + elems < old(self).cap_elems() {
                old(self).hw_pos() + elems
            } else {
                0int
            },
            final(self).true_total() == old(self).true_total() + elems,
            final(self).regs.bndt == if elems * old(self).word_bytes_spec() == old(
                self,
            ).regs.bndt {
                old(self).regs.block_len as int
            } else {
                old(self).regs.bndt - elems * old(self).word_bytes_spec()
            },
            final(self).regs.tcf == (old(self).regs.tcf || elems * old(self).word_bytes_spec()
                == old(self).regs.bndt),
            final(self).regs.htf == (old(self).regs.htf || (old(self).regs.bndt + old(
                self,
            ).regs.bndt > old(self).regs.block_len && (old(self).regs.bndt - elems * old(
                self,
            ).word_bytes_spec()) + (old(self).regs.bndt - elems * old(self).word_bytes_spec())
                <= old(self).regs.block_len)),
            final(self).regs.en == old(self).regs.en,
            final(self).regs.susp == old(self).regs.susp,
            final(self).regs.tcie == old(self).regs.tcie,
            final(self).regs.useie == old(self).regs.useie,
            final(self).regs.dteie == old(self).regs.dteie,
            final(self).regs.suspie == old(self).regs.suspie,
            final(self).regs.htie == old(self).regs.htie,
            final(self).regs.prio == old(self).regs.prio,
            final(self).regs.idlef == old(self).regs.idlef,
            final(self).regs.suspf == old(self).regs.suspf,
            final(self).regs.dtef == old(self).regs.dtef,
            final(self).regs.usef == old(self).regs.usef,
            final(self).regs.sdw == old(self).regs.sdw,
            final(self).regs.ddw == old(self).regs.ddw,
            final(self).regs.sinc == old(self).regs.sinc,
            final(self).regs.dinc == old(self).regs.dinc,
            final(self).regs.sbl_1 == old(self).regs.sbl_1,
            final(self).regs.dbl_1 == old(self).regs.dbl_1,
            final(self).regs.dreq_dst == old(self).regs.dreq_dst,
            final(self).regs.reqsel == old(self).regs.reqsel,
            final(self).regs.trigm == old(self).regs.trigm,
            final(self).regs.trigsel == old(self).regs.trigsel,
            final(self).regs.trigpol == old(self).regs.trigpol,
            final(self).regs.block_len == old(self).regs.block_len,
            final(self).regs.sar == old(self).regs.sar,
            final(self).regs.dar == old(self).regs.dar,
            final(self).regs.circular == old(self).regs.circular,
    {
        let wb = self.regs.sdw.bytes();
        let step = elems * wb;

        proof {
            lemma_byte_elems(
                old(self).word_bytes_spec() as int,
                old(self).regs.bndt as int,
                old(self).regs.block_len as int,
                elems as int,
            );
        }

        let bndt = self.regs.bndt as usize;
        let block = self.regs.block_len as usize;
        let crossed = bndt + bndt > block && (bndt - step) + (bndt - step) <= block;
        self.regs = ChannelRegs::ring_stepped(self.regs, step as u16, crossed);
    }

    /// Hardware transition: a bounded (non-circular) transfer runs to its
    /// end. The byte count reaches zero, the complete and idle flags rise,
    /// and the enable bit falls.
    pub fn hw_complete_transfer(&mut self)
        requires
            old(self).regs.en,
            !old(self).regs.circular,
        ensures
            *final(self) == (Channel {
                regs: ChannelRegs {
                    bndt: 0,
                    tcf: true,
                    idlef: true,
                    en: false,
                    ..old(self).regs
                },
                ..*old(self)
            }),
    {
        self.regs.bndt = 0;
        self.regs.tcf = true;
        self.regs.idlef = true;
        self.regs.en = false;
    }
}

} // verus!
