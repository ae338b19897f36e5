//! Hardware-agnostic circular buffer cursors.
//!
//! A channel in circular mode moves elements through a fixed block while
//! software follows with a logical cursor. The hardware's progress is only
//! visible through two values of the control adapter: the remaining count
//! in the current block, and a completion counter of full blocks. This
//! module reconstructs the hardware's total progress from those two values,
//! keeps the logical cursor behind it, and detects overrun: the hardware
//! advancing more than one whole block past the logical cursor, so that
//! unserviced data was overwritten (readable side) or unwritten data was
//! transmitted (writable side).

use vstd::prelude::*;

use vstd::arithmetic::div_mod::lemma_fundamental_div_mod_converse;
use vstd::arithmetic::mul::{lemma_mul_inequality, lemma_mul_is_distributive_add_other_way,
    lemma_mul_is_distributive_sub_other_way};

use crate::waker::ordering_barrier;

verus! {

/// The recoverable error of the ring buffers.
#[derive(Debug, Copy, Clone, PartialEq, Eq, Structural)]
pub enum Error {
    /// The hardware pointer lapped the logical cursor: data was overwritten
    /// before being read, or consumed before being produced. The cursor has
    /// been resynchronized to the hardware pointer.
    Overrun,
}

/// Outcome of one poll of an exact read or write.
#[derive(Debug, Copy, Clone, PartialEq, Eq, Structural)]
pub enum ExactPoll {
    /// The request is fully served; the value is the number of elements
    /// still available for an immediate next call.
    Ready(usize),
    /// Not enough data or space yet: the waker is registered, and the
    /// caller suspends until a half-transfer or block-complete interrupt.
    Pending,
}

/// The control adapter between a circular channel and a ring buffer.
///
/// The cursor algorithm sees the hardware only through this trait, so it
/// stays hardware-agnostic. The abstraction is a block counter and a
/// position: `hw_wraps` full blocks are visible to software through the
/// completion counter, of which `acked` were already handed out by
/// `reset_complete_count`, and the hardware pointer stands `hw_pos`
/// elements into the current block.
pub trait DmaCtrl: Sized {
    /// Capacity of the circular block, in elements.
    spec fn ring_cap(&self) -> nat;

    /// Full blocks visible to software.
    spec fn hw_wraps(&self) -> nat;

    /// Position of the hardware pointer in the current block, in elements.
    spec fn hw_pos(&self) -> nat;

    /// Full blocks already handed out through `reset_complete_count`.
    spec fn acked(&self) -> nat;

    /// The adapter's counters are consistent.
    spec fn ctrl_wf(&self) -> bool;

    /// What `reset_complete_count` leaves behind: the same adapter with the
    /// completion counter drained into `acked`.
    spec fn spec_reset_count(&self) -> Self;

    /// Consistency facts every well-formed adapter provides.
    proof fn wf_facts(&self)
        requires
            self.ctrl_wf(),
        ensures
            1 <= self.ring_cap() <= 0xFFFF,
            self.hw_pos() < self.ring_cap(),
            self.acked() <= self.hw_wraps(),
    ;

    /// Remaining transfers in the current block, in elements.
    fn get_remaining_transfers(&self) -> (r: usize)
        requires
            self.ctrl_wf(),
        ensures
            r == self.ring_cap() - self.hw_pos(),
    ;

    /// Take the completion counter: the number of full blocks completed
    /// since the last call, resetting the counter.
    fn reset_complete_count(&mut self) -> (r: usize)
        requires
            old(self).ctrl_wf(),
        ensures
            *final(self) == old(self).spec_reset_count(),
            final(self).ctrl_wf(),
            final(self).ring_cap() == old(self).ring_cap(),
            final(self).hw_wraps() == old(self).hw_wraps(),
            final(self).hw_pos() == old(self).hw_pos(),
            final(self).acked() == old(self).hw_wraps(),
            r == old(self).hw_wraps() - old(self).acked(),
    ;

    /// Register the waker that half-transfer and block-complete interrupts
    /// signal.
    fn set_waker(&mut self, waker: &core::task::Waker)
        ensures
            *final(self) == *old(self),
    ;
}

/// Total elements the adapter shows the hardware to have moved.
pub open spec fn ctrl_total<C: DmaCtrl>(c: &C) -> nat {
    c.hw_wraps() * c.ring_cap() + c.hw_pos()
}

/// A number decomposed as full blocks and a position inside a block is
/// decomposed uniquely.
proof fn lemma_decomp(cap: nat, w: nat, p: nat)
    requires
        0 < cap,
        p < cap,
    ensures
        ((w * cap + p) as int) / (cap as int) == w,
        ((w * cap + p) as int) % (cap as int) == p,
{
    lemma_fundamental_div_mod_converse((w * cap + p) as int, cap as int, w as int, p as int);
}

proof fn lemma_decomp_unique(cap: nat, w1: nat, p1: nat, w2: nat, p2: nat)
    requires
        0 < cap,
        p1 < cap,
        p2 < cap,
        w1 * cap + p1 == w2 * cap + p2,
    ensures
        w1 == w2,
        p1 == p2,
{
    lemma_decomp(cap, w1, p1);
    lemma_decomp(cap, w2, p2);
}

/// A cursor `lwraps` blocks plus `lpos` elements in, followed by a gap of
/// at most one block, lands in the block the carry bit says, at the wrapped
/// position.
proof fn lemma_sync_carry(cap: nat, lwraps: nat, lpos: nat, gap: nat, a: nat, p: nat)
    requires
        0 < cap,
        lpos < cap,
        gap <= cap,
        p < cap,
        lwraps * cap + lpos + gap == a * cap + p,
    ensures
        a == lwraps + if lpos + gap >= cap {
            1nat
        } else {
            0nat
        },
        p == if lpos + gap >= cap {
            (lpos + gap - cap) as nat
        } else {
            (lpos + gap) as nat
        },
{
    if lpos + gap >= cap {
        assert((lwraps + 1) * cap == lwraps * cap + cap) by {
            lemma_mul_is_distributive_add_other_way(cap as int, lwraps as int, 1);
        }
        lemma_decomp_unique(cap, lwraps + 1, (lpos + gap - cap) as nat, a, p);
    } else {
        lemma_decomp_unique(cap, lwraps, (lpos + gap) as nat, a, p);
    }
}

/// Moving elements from the gap's front to its back (consuming them), or
/// the mirror image, keeps the carry bit pointing at the same block
/// boundary.
proof fn lemma_carry_shift(
    cap: nat,
    cwraps0: nat,
    pos0: nat,
    avail0: nat,
    cwraps1: nat,
    pos1: nat,
    avail1: nat,
    a: nat,
)
    requires
        0 < cap,
        pos0 < cap,
        avail0 <= cap,
        pos1 < cap,
        avail1 <= cap,
        cwraps0 * cap + pos0 + avail0 == cwraps1 * cap + pos1 + avail1,
        a == cwraps0 + if pos0 + avail0 >= cap {
            1nat
        } else {
            0nat
        },
    ensures
        a == cwraps1 + if pos1 + avail1 >= cap {
            1nat
        } else {
            0nat
        },
{
    let spos = if pos0 + avail0 >= cap {
        (pos0 + avail0 - cap) as nat
    } else {
        (pos0 + avail0) as nat
    };
    if pos0 + avail0 >= cap {
        assert((cwraps0 + 1) * cap == cwraps0 * cap + cap) by {
            lemma_mul_is_distributive_add_other_way(cap as int, cwraps0 as int, 1);
        }
    }
    assert(cwraps1 * cap + pos1 + avail1 == a * cap + spos);
    lemma_sync_carry(cap, cwraps1, pos1, avail1, a, spos);
}

/// A readable ring buffer: the hardware produces elements into the block,
/// the owner consumes them behind it.
///
/// The fields are public so that an environment can model the hardware's
/// side (depositing elements at the hardware position); the driver-facing
/// operations maintain `wf` and the coupling with the channel's adapter.
pub struct ReadableDmaRingBuffer<W> {
    /// The backing block the hardware writes into.
    pub buf: Vec<W>,
    /// The logical read cursor's position within the block.
    pub pos: usize,
    /// Unread elements between the cursor and the hardware pointer, as of
    /// the last synchronization.
    pub avail: usize,
    /// Total elements ever consumed.
    pub consumed: Ghost<nat>,
    /// Full blocks the cursor has completed: `consumed == cwraps * cap + pos`.
    pub cwraps: Ghost<nat>,
}

impl<W: Copy> ReadableDmaRingBuffer<W> {
    /// Capacity of the ring, in elements.
    pub open spec fn cap_spec(&self) -> nat {
        self.buf.len() as nat
    }

    /// Total elements consumed plus unread elements: the hardware total as
    /// of the last synchronization.
    pub open spec fn synced_total(&self) -> nat {
        self.consumed@ + self.avail as nat
    }

    /// Structural well-formedness of the cursor.
    pub open spec fn wf(&self) -> bool {
        &&& 1 <= self.buf.len() <= 0xFFFF
        &&& self.pos < self.buf.len()
        &&& self.avail <= self.buf.len()
        &&& self.consumed@ == self.cwraps@ * self.cap_spec() + self.pos
    }

    /// The cursor's record agrees with the adapter: same block size, the
    /// adapter's acked blocks are exactly the blocks up to the last
    /// synchronization point, and the hardware has not moved backwards.
    pub open spec fn coupled<C: DmaCtrl>(&self, c: &C) -> bool {
        &&& c.ctrl_wf()
        &&& c.ring_cap() == self.cap_spec()
        &&& c.acked() == self.cwraps@ + if self.pos + self.avail >= self.cap_spec() {
            1nat
        } else {
            0nat
        }
        &&& self.synced_total() <= ctrl_total(c)
    }

    /// Take ownership of the backing block and start the cursor at its
    /// base, with nothing to read.
    pub fn new(buf: Vec<W>) -> (r: Self)
        requires
            1 <= buf.len() <= 0xFFFF,
        ensures
            r.wf(),
            r.buf == buf,
            r.pos == 0,
            r.avail == 0,
            r.consumed@ == 0,
            r.cwraps@ == 0,
    {
        ReadableDmaRingBuffer { buf, pos: 0, avail: 0, consumed: Ghost(0), cwraps: Ghost(0) }
    }

    /// The capacity of the ring buffer.
    pub fn cap(&self) -> (r: usize)
        ensures
            r == self.cap_spec(),
    {
        self.buf.len()
    }

    /// Pull the hardware's progress from the adapter and extend `avail`.
    ///
    /// On success the record is exact: `avail` is the whole gap between the
    /// cursor and the hardware pointer, and it fits in one block. If the
    /// gap exceeds one block, unread data was overwritten: the cursor is
    /// resynchronized to the hardware pointer and overrun is reported.
    fn sync<C: DmaCtrl>(&mut self, ctrl: &mut C) -> (r: Result<(), Error>)
        requires
            old(self).wf(),
            old(self).coupled(old(ctrl)),
        ensures
            final(self).wf(),
            final(self).coupled(final(ctrl)),
            final(self).buf == old(self).buf,
            final(ctrl).ring_cap() == old(ctrl).ring_cap(),
            final(ctrl).hw_wraps() == old(ctrl).hw_wraps(),
            final(ctrl).hw_pos() == old(ctrl).hw_pos(),
            *final(ctrl) == old(ctrl).spec_reset_count(),
            match r {
                Ok(()) => {
                    &&& ctrl_total(old(ctrl)) - old(self).consumed@ <= old(self).cap_spec()
                    &&& final(self).pos == old(self).pos
                    &&& final(self).consumed@ == old(self).consumed@
                    &&& final(self).cwraps@ == old(self).cwraps@
                    &&& final(self).avail == ctrl_total(old(ctrl)) - old(self).consumed@
                },
                Err(e) => {
                    &&& e == Error::Overrun
                    &&& ctrl_total(old(ctrl)) - old(self).consumed@ > old(self).cap_spec()
                    &&& final(self).consumed@ == ctrl_total(old(ctrl))
                    &&& final(self).avail == 0
                    &&& final(self).pos == old(ctrl).hw_pos()
                },
            },
    {
        proof {
            ctrl.wf_facts();
        }
        let cap = self.buf.len();
        let rem = ctrl.get_remaining_transfers();
        let c = ctrl.reset_complete_count();
        let hwpos = cap - rem;
        let spos = if self.pos + self.avail >= cap {
            self.pos + self.avail - cap
        } else {
            self.pos + self.avail
        };

        let ghost t = ctrl_total(old(ctrl));
        let ghost a = old(ctrl).acked();
        let ghost w = old(ctrl).hw_wraps();
        proof {
            // synced_total == a * cap + spos, from the coupling's carry bit
            if self.pos + self.avail >= cap {
                assert((self.cwraps@ + 1) * cap == self.cwraps@ * cap + cap) by {
                    lemma_mul_is_distributive_add_other_way(cap as int, self.cwraps@ as int, 1);
                }
            }
            assert(self.synced_total() == a * cap + spos);
            // t == (a + c) * cap + hwpos
            assert((a + c) * cap == a * cap + c * cap) by {
                lemma_mul_is_distributive_add_other_way(cap as int, a as int, c as int);
            }
            assert(t == a * cap + c * cap + hwpos);
        }

        if c >= 2 {
            // the hardware completed at least two blocks since the last
            // synchronization: the gap is larger than the whole block
            proof {
                assert(2 * cap <= c * cap) by {
                    lemma_mul_inequality(2, c as int, cap as int);
                }
            }
            self.resync_to(hwpos, Ghost(t), Ghost(w));
            Err(Error::Overrun)
        } else {
            let adv = if c == 1 {
                cap - spos + hwpos
            } else {
                // c == 0: the quotients agree, so the position moved forward
                hwpos - spos
            };
            assert(self.synced_total() + adv == t);
            if self.avail + adv > cap {
                self.resync_to(hwpos, Ghost(t), Ghost(w));
                Err(Error::Overrun)
            } else {
                self.avail = self.avail + adv;
                proof {
                    lemma_sync_carry(
                        cap as nat,
                        self.cwraps@,
                        self.pos as nat,
                        self.avail as nat,
                        w,
                        old(ctrl).hw_pos(),
                    );
                }
                Ok(())
            }
        }
    }

    /// Drop the record and restart the cursor at the hardware pointer, with
    /// nothing to read.
    fn resync_to(&mut self, hwpos: usize, Ghost(t): Ghost<nat>, Ghost(w): Ghost<nat>)
        requires
            old(self).wf(),
            hwpos < old(self).cap_spec(),
            t == w * old(self).cap_spec() + hwpos,
        ensures
            final(self).wf(),
            final(self).buf == old(self).buf,
            final(self).pos == hwpos,
            final(self).avail == 0,
            final(self).consumed@ == t,
            final(self).cwraps@ == w,
    {
        self.pos = hwpos;
        self.avail = 0;
        self.consumed = Ghost(t);
        self.cwraps = Ghost(w);
    }

    /// Copy `n` available elements out of the ring into `dst[offset..]`,
    /// advancing the cursor past them.
    fn copy_out(&mut self, dst: &mut Vec<W>, offset: usize, n: usize)
        requires
            old(self).wf(),
            n <= old(self).avail,
            offset + n <= old(dst).len(),
        ensures
            final(self).wf(),
            final(self).buf == old(self).buf,
            final(self).avail == old(self).avail - n,
            final(self).consumed@ == old(self).consumed@ + n,
            final(dst).len() == old(dst).len(),
            forall|i: int|
                offset <= i < offset + n ==> final(dst)@[i] == old(self).buf@[((old(
                    self,
                ).consumed@ + (i - offset)) % old(self).cap_spec() as int) as int],
            forall|i: int|
                0 <= i < old(dst).len() && !(offset <= i < offset + n) ==> final(dst)@[i] == old(
                    dst,
                )@[i],
    {
        let cap = self.buf.len();
        let ghost s0 = *self;
        let ghost d0 = *dst;
        let mut i: usize = 0;
        while i < n
            invariant
                *self == s0,
                s0.wf(),
                i <= n,
                n <= s0.avail,
                offset + n <= d0.len(),
                dst.len() == d0.len(),
                cap == s0.cap_spec(),
                forall|k: int|
                    offset <= k < offset + i ==> dst@[k] == s0.buf@[((s0.consumed@ + (k - offset))
                        % s0.cap_spec() as int) as int],
                forall|k: int|
                    0 <= k < d0.len() && !(offset <= k < offset + i) ==> dst@[k] == d0@[k],
            decreases n - i,
        {
            let j = if self.pos + i >= cap {
                self.pos + i - cap
            } else {
                self.pos + i
            };
            proof {
                if self.pos + i >= cap {
                    assert((s0.cwraps@ + 1) * cap == s0.cwraps@ * cap + cap) by {
                        lemma_mul_is_distributive_add_other_way(cap as int, s0.cwraps@ as int, 1);
                    }
                    lemma_decomp(cap as nat, s0.cwraps@ + 1, (self.pos + i - cap) as nat);
                } else {
                    lemma_decomp(cap as nat, s0.cwraps@, (self.pos + i) as nat);
                }
                assert((s0.consumed@ + i) % s0.cap_spec() as int == j);
            }
            let v = self.buf[j];
            dst[i + offset] = v;
            i = i + 1;
        }
        self.avail = self.avail - n;
        let newpos = self.pos + n;
        proof {
            if newpos >= cap {
                assert((self.cwraps@ + 1) * cap == self.cwraps@ * cap + cap) by {
                    lemma_mul_is_distributive_add_other_way(cap as int, self.cwraps@ as int, 1);
                }
            }
        }
        if newpos >= cap {
            self.pos = newpos - cap;
            self.cwraps = Ghost(self.cwraps@ + 1);
        } else {
            self.pos = newpos;
        }
        self.consumed = Ghost(self.consumed@ + n as nat);
    }

    /// Read elements from the ring buffer into the front of `dst`.
    ///
    /// Copies up to `min(available, dst.len())` elements from the logical
    /// cursor towards the hardware pointer and advances the cursor past
    /// them. Returns the number of elements read and the length remaining
    /// in the backing buffer from the advanced cursor to the block's end.
    /// If the hardware pointer has lapped the cursor by more than the
    /// capacity, the data was overwritten before being read: the cursor is
    /// resynchronized to the hardware pointer and overrun is reported, with
    /// `dst` untouched.
    pub fn read<C: DmaCtrl>(&mut self, ctrl: &mut C, dst: &mut Vec<W>) -> (r: Result<
        (usize, usize),
        Error,
    >)
        requires
            old(self).wf(),
            old(self).coupled(old(ctrl)),
        ensures
            final(self).wf(),
            final(self).coupled(final(ctrl)),
            final(self).buf == old(self).buf,
            *final(ctrl) == old(ctrl).spec_reset_count(),
            final(dst).len() == old(dst).len(),
            match r {
                Ok((n, rem)) => {
                    let avail0 = ctrl_total(old(ctrl)) - old(self).consumed@;
                    &&& avail0 <= old(self).cap_spec()
                    &&& n == if avail0 <= old(dst).len() {
                        avail0
                    } else {
                        old(dst).len() as int
                    }
                    &&& forall|i: int|
                        0 <= i < n ==> final(dst)@[i] == old(self).buf@[((old(self).consumed@ + i)
                            % old(self).cap_spec() as int) as int]
                    &&& forall|i: int| n <= i < old(dst).len() ==> final(dst)@[i] == old(dst)@[i]
                    &&& final(self).consumed@ == old(self).consumed@ + n
                    &&& final(self).avail == avail0 - n
                    &&& rem == old(self).cap_spec() - final(self).pos
                },
                Err(e) => {
                    &&& e == Error::Overrun
                    &&& ctrl_total(old(ctrl)) - old(self).consumed@ > old(self).cap_spec()
                    &&& final(self).consumed@ == ctrl_total(old(ctrl))
                    &&& final(self).avail == 0
                    &&& final(self).pos == old(ctrl).hw_pos()
                    &&& final(dst)@ == old(dst)@
                },
            },
    {
        match self.sync(ctrl) {
            Err(e) => Err(e),
            Ok(()) => {
                let ghost mid = *self;
                let n = if self.avail <= dst.len() {
                    self.avail
                } else {
                    dst.len()
                };
                self.copy_out(dst, 0, n);
                proof {
                    lemma_carry_shift(
                        mid.cap_spec(),
                        mid.cwraps@,
                        mid.pos as nat,
                        mid.avail as nat,
                        self.cwraps@,
                        self.pos as nat,
                        self.avail as nat,
                        ctrl.acked(),
                    );
                }
                Ok((n, self.buf.len() - self.pos))
            },
        }
    }

    /// Discard whatever is pending and resynchronize the logical cursor to
    /// the current hardware pointer, re-establishing a known state.
    pub fn reset<C: DmaCtrl>(&mut self, ctrl: &mut C)
        requires
            old(self).wf(),
            old(self).coupled(old(ctrl)),
        ensures
            final(self).wf(),
            final(self).coupled(final(ctrl)),
            final(self).buf == old(self).buf,
            *final(ctrl) == old(ctrl).spec_reset_count(),
            final(self).consumed@ == ctrl_total(old(ctrl)),
            final(self).avail == 0,
            final(self).pos == old(ctrl).hw_pos(),
    {
        proof {
            ctrl.wf_facts();
        }
        let cap = self.buf.len();
        let rem = ctrl.get_remaining_transfers();
        let c = ctrl.reset_complete_count();
        let hwpos = cap - rem;
        self.resync_to(hwpos, Ghost(ctrl_total(old(ctrl))), Ghost(old(ctrl).hw_wraps()));
    }

    /// One poll of an exact read of `dst.len()` elements, of which
    /// `*filled` are already served from earlier polls.
    ///
    /// Registers the waker first, then services as much as is available.
    /// Ready only when `dst` is full; otherwise the caller suspends until a
    /// half-transfer or block-complete interrupt delivers a wake, and polls
    /// again. Wakeups come at half-block granularity, so a request may wait
    /// for up to half a block more than its own length.
    pub fn poll_read_exact<C: DmaCtrl>(
        &mut self,
        ctrl: &mut C,
        waker: &core::task::Waker,
        dst: &mut Vec<W>,
        filled: &mut usize,
    ) -> (r: Result<ExactPoll, Error>)
        requires
            old(self).wf(),
            old(self).coupled(old(ctrl)),
            *old(filled) <= old(dst).len(),
        ensures
            final(self).wf(),
            final(self).coupled(final(ctrl)),
            final(self).buf == old(self).buf,
            *final(ctrl) == old(ctrl).spec_reset_count(),
            final(dst).len() == old(dst).len(),
            *final(filled) <= final(dst).len(),
            match r {
                Ok(p) => {
                    let avail0 = ctrl_total(old(ctrl)) - old(self).consumed@;
                    let need = old(dst).len() - *old(filled);
                    let n = if avail0 <= need {
                        avail0
                    } else {
                        need
                    };
                    &&& avail0 <= old(self).cap_spec()
                    &&& *final(filled) == *old(filled) + n
                    &&& forall|i: int|
                        *old(filled) <= i < *old(filled) + n ==> final(dst)@[i] == old(
                            self,
                        ).buf@[((old(self).consumed@ + (i - *old(filled))) % old(
                            self,
                        ).cap_spec() as int) as int]
                    &&& forall|i: int|
                        0 <= i < old(dst).len() && !(*old(filled) <= i < *old(filled) + n)
                            ==> final(dst)@[i] == old(dst)@[i]
                    &&& final(self).consumed@ == old(self).consumed@ + n
                    &&& final(self).avail == avail0 - n
                    &&& match p {
                        ExactPoll::Ready(rem) => {
                            &&& *final(filled) == final(dst).len()
                            &&& rem == avail0 - n
                        },
                        ExactPoll::Pending => {
                            &&& *final(filled) < final(dst).len()
                            &&& final(self).avail == 0
                        },
                    }
                },
                Err(e) => {
                    &&& e == Error::Overrun
                    &&& ctrl_total(old(ctrl)) - old(self).consumed@ > old(self).cap_spec()
                    &&& final(self).consumed@ == ctrl_total(old(ctrl))
                    &&& final(self).avail == 0
                    &&& final(dst)@ == old(dst)@
                    &&& *final(filled) == *old(filled)
                },
            },
    {
        ctrl.set_waker(waker);
        ordering_barrier();
        match self.sync(ctrl) {
            Err(e) => Err(e),
            Ok(()) => {
                let need = dst.len() - *filled;
                let n = if self.avail <= need {
                    self.avail
                } else {
                    need
                };
                let ghost mid = *self;
                self.copy_out(dst, *filled, n);
                proof {
                    lemma_carry_shift(
                        mid.cap_spec(),
                        mid.cwraps@,
                        mid.pos as nat,
                        mid.avail as nat,
                        self.cwraps@,
                        self.pos as nat,
                        self.avail as nat,
                        ctrl.acked(),
                    );
                }
                *filled = *filled + n;
                if *filled == dst.len() {
                    Ok(ExactPoll::Ready(self.avail))
                } else {
                    Ok(ExactPoll::Pending)
                }
            },
        }
    }
}

/// A writable ring buffer: the owner produces elements into the block,
/// the hardware consumes them behind the write cursor.
///
/// The fields are public so that an environment can model the hardware's
/// side (transmitting elements from the hardware position); the
/// driver-facing operations maintain `wf` and the coupling with the
/// channel's adapter.
pub struct WritableDmaRingBuffer<W> {
    /// The backing block the hardware reads from.
    pub buf: Vec<W>,
    /// The logical write cursor's position within the block.
    pub pos: usize,
    /// Written elements the hardware had not yet consumed, as of the last
    /// synchronization.
    pub pending: usize,
    /// Total elements ever written.
    pub written: Ghost<nat>,
    /// Full blocks the cursor has completed: `written == wwraps * cap + pos`.
    pub wwraps: Ghost<nat>,
}

/// A cursor `wwraps` blocks plus `pos` elements in, preceded by a gap of at
/// most one block, starts in the block the borrow bit says, at the wrapped
/// position.
proof fn lemma_sync_borrow(cap: nat, wwraps: nat, pos: nat, pending: nat, a: nat, p: nat)
    requires
        0 < cap,
        pos < cap,
        pending <= cap,
        p < cap,
        pending <= wwraps * cap + pos,
        wwraps * cap + pos - pending == a * cap + p,
    ensures
        a + (if pos < pending {
            1nat
        } else {
            0nat
        }) == wwraps,
        p == if pos < pending {
            (pos + cap - pending) as nat
        } else {
            (pos - pending) as nat
        },
{
    if pos < pending {
        assert(wwraps >= 1) by {
            if wwraps == 0 {
                assert(wwraps * cap == 0) by {
                    lemma_mul_is_distributive_sub_other_way(cap as int, 1, 1);
                }
            }
        }
        assert((wwraps - 1) * cap == wwraps * cap - cap) by {
            lemma_mul_is_distributive_sub_other_way(cap as int, wwraps as int, 1);
        }
        lemma_decomp_unique(cap, (wwraps - 1) as nat, (pos + cap - pending) as nat, a, p);
    } else {
        lemma_decomp_unique(cap, wwraps, (pos - pending) as nat, a, p);
    }
}

impl<W: Copy> WritableDmaRingBuffer<W> {
    /// Capacity of the ring, in elements.
    pub open spec fn cap_spec(&self) -> nat {
        self.buf.len() as nat
    }

    /// Total elements the hardware had consumed as of the last
    /// synchronization.
    pub open spec fn synced_total(&self) -> nat {
        (self.written@ - self.pending as nat) as nat
    }

    /// Structural well-formedness of the cursor.
    pub open spec fn wf(&self) -> bool {
        &&& 1 <= self.buf.len() <= 0xFFFF
        &&& self.pos < self.buf.len()
        &&& self.pending <= self.buf.len()
        &&& self.pending <= self.written@
        &&& self.written@ == self.wwraps@ * self.cap_spec() + self.pos
    }

    /// The cursor's record agrees with the adapter: same block size, the
    /// adapter's acked blocks are exactly the blocks consumed up to the
    /// last synchronization point, and the hardware has not moved
    /// backwards.
    pub open spec fn coupled<C: DmaCtrl>(&self, c: &C) -> bool {
        &&& c.ctrl_wf()
        &&& c.ring_cap() == self.cap_spec()
        &&& c.acked() + (if self.pos < self.pending {
            1nat
        } else {
            0nat
        }) == self.wwraps@
        &&& self.synced_total() <= ctrl_total(c)
    }

    /// Take ownership of the backing block and start the cursor at its
    /// base, with nothing pending.
    pub fn new(buf: Vec<W>) -> (r: Self)
        requires
            1 <= buf.len() <= 0xFFFF,
        ensures
            r.wf(),
            r.buf == buf,
            r.pos == 0,
            r.pending == 0,
            r.written@ == 0,
            r.wwraps@ == 0,
    {
        WritableDmaRingBuffer { buf, pos: 0, pending: 0, written: Ghost(0), wwraps: Ghost(0) }
    }

    /// The capacity of the ring buffer.
    pub fn cap(&self) -> (r: usize)
        ensures
            r == self.cap_spec(),
    {
        self.buf.len()
    }

    /// Pull the hardware's progress from the adapter and shrink `pending`.
    ///
    /// On success the record is exact: `pending` is the whole gap between
    /// the hardware pointer and the cursor. If the hardware consumed past
    /// the cursor, unwritten data was transmitted: the cursor is
    /// resynchronized to the hardware pointer and overrun is reported.
    fn sync<C: DmaCtrl>(&mut self, ctrl: &mut C) -> (r: Result<(), Error>)
        requires
            old(self).wf(),
            old(self).coupled(old(ctrl)),
        ensures
            final(self).wf(),
            final(self).coupled(final(ctrl)),
            final(self).buf == old(self).buf,
            *final(ctrl) == old(ctrl).spec_reset_count(),
            match r {
                Ok(()) => {
                    &&& ctrl_total(old(ctrl)) <= old(self).written@
                    &&& final(self).pos == old(self).pos
                    &&& final(self).written@ == old(self).written@
                    &&& final(self).wwraps@ == old(self).wwraps@
                    &&& final(self).pending == old(self).written@ - ctrl_total(old(ctrl))
                },
                Err(e) => {
                    &&& e == Error::Overrun
                    &&& ctrl_total(old(ctrl)) > old(self).written@
                    &&& final(self).written@ == ctrl_total(old(ctrl))
                    &&& final(self).pending == 0
                    &&& final(self).pos == old(ctrl).hw_pos()
                },
            },
    {
        proof {
            ctrl.wf_facts();
        }
        let cap = self.buf.len();
        let rem = ctrl.get_remaining_transfers();
        let c = ctrl.reset_complete_count();
        let hwpos = cap - rem;
        let spos = if self.pos >= self.pending {
            self.pos - self.pending
        } else {
            self.pos + cap - self.pending
        };

        let ghost t = ctrl_total(old(ctrl));
        let ghost a = old(ctrl).acked();
        let ghost w = old(ctrl).hw_wraps();
        proof {
            // synced_total == a * cap + spos, from the coupling's borrow bit
            if self.pos < self.pending {
                assert((self.wwraps@ - 1) * cap == self.wwraps@ * cap - cap) by {
                    lemma_mul_is_distributive_sub_other_way(cap as int, self.wwraps@ as int, 1);
                }
            }
            assert(self.synced_total() == a * cap + spos);
            assert((a + c) * cap == a * cap + c * cap) by {
                lemma_mul_is_distributive_add_other_way(cap as int, a as int, c as int);
            }
            assert(t == a * cap + c * cap + hwpos);
        }

        if c >= 2 {
            // at least two whole blocks went out since the last
            // synchronization: more than `pending` was consumed
            proof {
                assert(2 * cap <= c * cap) by {
                    lemma_mul_inequality(2, c as int, cap as int);
                }
            }
            self.resync_to(hwpos, Ghost(t), Ghost(w));
            Err(Error::Overrun)
        } else {
            let adv = if c == 1 {
                cap - spos + hwpos
            } else {
                // c == 0: the quotients agree, so the position moved forward
                hwpos - spos
            };
            assert(self.synced_total() + adv == t);
            if adv > self.pending {
                self.resync_to(hwpos, Ghost(t), Ghost(w));
                Err(Error::Overrun)
            } else {
                self.pending = self.pending - adv;
                proof {
                    lemma_sync_borrow(
                        cap as nat,
                        self.wwraps@,
                        self.pos as nat,
                        self.pending as nat,
                        w,
                        old(ctrl).hw_pos(),
                    );
                }
                Ok(())
            }
        }
    }

    /// Restart the cursor at the hardware pointer, with nothing pending.
    fn resync_to(&mut self, hwpos: usize, Ghost(t): Ghost<nat>, Ghost(w): Ghost<nat>)
        requires
            old(self).wf(),
            hwpos < old(self).cap_spec(),
            t == w * old(self).cap_spec() + hwpos,
        ensures
            final(self).wf(),
            final(self).buf == old(self).buf,
            final(self).pos == hwpos,
            final(self).pending == 0,
            final(self).written@ == t,
            final(self).wwraps@ == w,
    {
        self.pos = hwpos;
        self.pending = 0;
        self.written = Ghost(t);
        self.wwraps = Ghost(w);
    }

    /// Copy `n` elements of `src[offset..]` into the ring at the write
    /// cursor, advancing the cursor past them.
    fn copy_in(&mut self, src: &Vec<W>, offset: usize, n: usize)
        requires
            old(self).wf(),
            n + old(self).pending <= old(self).cap_spec(),
            offset + n <= src.len(),
        ensures
            final(self).wf(),
            final(self).buf.len() == old(self).buf.len(),
            final(self).pending == old(self).pending + n,
            final(self).written@ == old(self).written@ + n,
            final(self).pos as int == if old(self).pos + n < old(self).cap_spec() {
                old(self).pos + n
            } else {
                old(self).pos + n - old(self).cap_spec()
            },
            final(self).wwraps@ == if old(self).pos + n < old(self).cap_spec() {
                old(self).wwraps@
            } else {
                old(self).wwraps@ + 1
            },
            forall|j: int|
                0 <= j < old(self).buf.len() ==> #[trigger] final(self).buf@[j] == (if (j - old(
                    self,
                ).pos as int) % (old(self).cap_spec() as int) < n {
                    src@[offset + (j - old(self).pos as int) % (old(self).cap_spec() as int)]
                } else {
                    old(self).buf@[j]
                }),
    {
        let cap = self.buf.len();
        let ghost s0 = *self;
        let mut i: usize = 0;
        while i < n
            invariant
                s0.wf(),
                i <= n,
                n + s0.pending <= cap,
                offset + n <= src.len(),
                cap == s0.cap_spec(),
                self.pos == s0.pos,
                self.pending == s0.pending,
                self.written == s0.written,
                self.wwraps == s0.wwraps,
                self.buf.len() == s0.buf.len(),
                forall|j: int|
                    0 <= j < s0.buf.len() ==> #[trigger] self.buf@[j] == (if (j - s0.pos as int) % (
                    s0.cap_spec() as int) < i {
                        src@[offset + (j - s0.pos as int) % (s0.cap_spec() as int)]
                    } else {
                        s0.buf@[j]
                    }),
            decreases n - i,
        {
            let j = if self.pos + i >= cap {
                self.pos + i - cap
            } else {
                self.pos + i
            };
            proof {
                if self.pos + i >= cap {
                    lemma_fundamental_div_mod_converse(
                        j as int - s0.pos as int,
                        cap as int,
                        -1,
                        i as int,
                    );
                } else {
                    lemma_fundamental_div_mod_converse(
                        j as int - s0.pos as int,
                        cap as int,
                        0,
                        i as int,
                    );
                }
                assert((j as int - s0.pos as int) % (cap as int) == i);
            }
            let v = src[offset + i];
            self.buf[j] = v;
            proof {
                // every slot's offset into the written window is pinned by
                // the slot's position alone, so only slot `j` changed
                assert forall|jj: int| 0 <= jj < s0.buf.len() implies #[trigger] self.buf@[jj] == (
                if (jj - s0.pos as int) % (s0.cap_spec() as int) < i + 1 {
                    src@[offset + (jj - s0.pos as int) % (s0.cap_spec() as int)]
                } else {
                    s0.buf@[jj]
                }) by {
                    let x = jj - s0.pos as int;
                    if x >= 0 {
                        lemma_fundamental_div_mod_converse(x, cap as int, 0, x);
                    } else {
                        lemma_fundamental_div_mod_converse(x, cap as int, -1, x + cap);
                    }
                }
            }
            i = i + 1;
        }
        self.pending = self.pending + n;
        let newpos = self.pos + n;
        proof {
            if newpos >= cap {
                assert((self.wwraps@ + 1) * cap == self.wwraps@ * cap + cap) by {
                    lemma_mul_is_distributive_add_other_way(cap as int, self.wwraps@ as int, 1);
                }
            }
        }
        if newpos >= cap {
            self.pos = newpos - cap;
            self.wwraps = Ghost(self.wwraps@ + 1);
        } else {
            self.pos = newpos;
        }
        self.written = Ghost(self.written@ + n as nat);
    }

    /// Write elements from the front of `src` into the ring buffer.
    ///
    /// Copies up to `min(free space, src.len())` elements at the write
    /// cursor and advances the cursor past them. Returns the number of
    /// elements written and the length remaining in the backing buffer from
    /// the advanced cursor to the block's end. If the hardware consumed
    /// past the cursor, unwritten data was transmitted: the cursor is
    /// resynchronized to the hardware pointer and overrun is reported, with
    /// the backing buffer untouched.
    pub fn write<C: DmaCtrl>(&mut self, ctrl: &mut C, src: &Vec<W>) -> (r: Result<
        (usize, usize),
        Error,
    >)
        requires
            old(self).wf(),
            old(self).coupled(old(ctrl)),
        ensures
            final(self).wf(),
            final(self).coupled(final(ctrl)),
            final(self).buf.len() == old(self).buf.len(),
            *final(ctrl) == old(ctrl).spec_reset_count(),
            match r {
                Ok((n, rem)) => {
                    let t = ctrl_total(old(ctrl));
                    let free0 = old(self).cap_spec() - (old(self).written@ - t);
                    &&& t <= old(self).written@
                    &&& n == if free0 <= src.len() {
                        free0
                    } else {
                        src.len() as int
                    }
                    &&& forall|j: int|
                        0 <= j < old(self).buf.len() ==> #[trigger] final(self).buf@[j] == (if (j
                            - old(self).pos as int) % (old(self).cap_spec() as int) < n {
                            src@[(j - old(self).pos as int) % (old(self).cap_spec() as int)]
                        } else {
                            old(self).buf@[j]
                        })
                    &&& final(self).written@ == old(self).written@ + n
                    &&& final(self).pending == old(self).written@ - t + n
                    &&& rem == old(self).cap_spec() - final(self).pos
                },
                Err(e) => {
                    &&& e == Error::Overrun
                    &&& ctrl_total(old(ctrl)) > old(self).written@
                    &&& final(self).written@ == ctrl_total(old(ctrl))
                    &&& final(self).pending == 0
                    &&& final(self).pos == old(ctrl).hw_pos()
                    &&& final(self).buf == old(self).buf
                },
            },
    {
        match self.sync(ctrl) {
            Err(e) => Err(e),
            Ok(()) => {
                let ghost mid = *self;
                let cap = self.buf.len();
                let free = cap - self.pending;
                let n = if free <= src.len() {
                    free
                } else {
                    src.len()
                };
                self.copy_in(src, 0, n);
                proof {
                    lemma_borrow_shift(
                        mid.cap_spec(),
                        mid.wwraps@,
                        mid.pos as nat,
                        mid.pending as nat,
                        self.wwraps@,
                        self.pos as nat,
                        self.pending as nat,
                        ctrl.acked(),
                    );
                }
                Ok((n, cap - self.pos))
            },
        }
    }

    /// Write elements directly into the backing buffer from its base,
    /// bypassing the cursor arithmetic. This seeds the buffer before the
    /// channel is started, while no hardware is consuming yet.
    pub fn write_immediate(&mut self, src: &Vec<W>) -> (r: Result<(usize, usize), Error>)
        requires
            old(self).wf(),
            old(self).written@ == 0,
            old(self).pos == 0,
            old(self).pending == 0,
            old(self).wwraps@ == 0,
        ensures
            final(self).wf(),
            final(self).buf.len() == old(self).buf.len(),
            ({
                let n = if old(self).cap_spec() <= src.len() {
                    old(self).cap_spec() as int
                } else {
                    src.len() as int
                };
                &&& r == Ok::<(usize, usize), Error>(
                    (n as usize, (old(self).cap_spec() - n) as usize),
                )
                &&& forall|j: int| 0 <= j < n ==> #[trigger] final(self).buf@[j] == src@[j]
                &&& forall|j: int|
                    n <= j < old(self).buf.len() ==> #[trigger] final(self).buf@[j] == old(
                        self,
                    ).buf@[j]
                &&& final(self).written@ == n
                &&& final(self).pending == n
                &&& final(self).wwraps@ == if n == old(self).cap_spec() {
                    1nat
                } else {
                    0nat
                }
                &&& final(self).pos == if n == old(self).cap_spec() {
                    0int
                } else {
                    n
                }
            }),
    {
        let cap = self.buf.len();
        let n = if cap <= src.len() {
            cap
        } else {
            src.len()
        };
        self.copy_in(src, 0, n);
        proof {
            assert forall|j: int| 0 <= j < self.buf.len() implies #[trigger] self.buf@[j] == (if j
                < n {
                src@[j]
            } else {
                old(self).buf@[j]
            }) by {
                lemma_fundamental_div_mod_converse(j, cap as int, 0, j);
            }
        }
        Ok((n, cap - n))
    }

    /// Discard whatever is pending and resynchronize the logical cursor to
    /// the current hardware pointer, re-establishing a known state.
    pub fn reset<C: DmaCtrl>(&mut self, ctrl: &mut C)
        requires
            old(self).wf(),
            old(self).coupled(old(ctrl)),
        ensures
            final(self).wf(),
            final(self).coupled(final(ctrl)),
            final(self).buf == old(self).buf,
            *final(ctrl) == old(ctrl).spec_reset_count(),
            final(self).written@ == ctrl_total(old(ctrl)),
            final(self).pending == 0,
            final(self).pos == old(ctrl).hw_pos(),
    {
        proof {
            ctrl.wf_facts();
        }
        let cap = self.buf.len();
        let rem = ctrl.get_remaining_transfers();
        let c = ctrl.reset_complete_count();
        let hwpos = cap - rem;
        self.resync_to(hwpos, Ghost(ctrl_total(old(ctrl))), Ghost(old(ctrl).hw_wraps()));
    }

    /// One poll of an exact write of `src.len()` elements, of which
    /// `*sent` were already written by earlier polls.
    ///
    /// Registers the waker first, then writes as much as space allows.
    /// Ready only when all of `src` is written; otherwise the caller
    /// suspends until a half-transfer or block-complete interrupt delivers
    /// a wake, and polls again.
    pub fn poll_write_exact<C: DmaCtrl>(
        &mut self,
        ctrl: &mut C,
        waker: &core::task::Waker,
        src: &Vec<W>,
        sent: &mut usize,
    ) -> (r: Result<ExactPoll, Error>)
        requires
            old(self).wf(),
            old(self).coupled(old(ctrl)),
            *old(sent) <= src.len(),
        ensures
            final(self).wf(),
            final(self).coupled(final(ctrl)),
            final(self).buf.len() == old(self).buf.len(),
            *final(ctrl) == old(ctrl).spec_reset_count(),
            *final(sent) <= src.len(),
            match r {
                Ok(p) => {
                    let t = ctrl_total(old(ctrl));
                    let free0 = old(self).cap_spec() - (old(self).written@ - t);
                    let need = src.len() - *old(sent);
                    let n = if free0 <= need {
                        free0
                    } else {
                        need
                    };
                    &&& t <= old(self).written@
                    &&& *final(sent) == *old(sent) + n
                    &&& forall|j: int|
                        0 <= j < old(self).buf.len() ==> #[trigger] final(self).buf@[j] == (if (j
                            - old(self).pos as int) % (old(self).cap_spec() as int) < n {
                            src@[*old(sent) + (j - old(self).pos as int) % (old(
                                self,
                            ).cap_spec() as int)]
                        } else {
                            old(self).buf@[j]
                        })
                    &&& final(self).written@ == old(self).written@ + n
                    &&& final(self).pending == old(self).written@ - t + n
                    &&& match p {
                        ExactPoll::Ready(rem) => {
                            &&& *final(sent) == src.len()
                            &&& rem == old(self).cap_spec() - final(self).pending
                        },
                        ExactPoll::Pending => {
                            &&& *final(sent) < src.len()
                            &&& final(self).pending == old(self).cap_spec()
                        },
                    }
                },
                Err(e) => {
                    &&& e == Error::Overrun
                    &&& ctrl_total(old(ctrl)) > old(self).written@
                    &&& final(self).written@ == ctrl_total(old(ctrl))
                    &&& final(self).pending == 0
                    &&& final(self).buf == old(self).buf
                    &&& *final(sent) == *old(sent)
                },
            },
    {
        ctrl.set_waker(waker);
        ordering_barrier();
        match self.sync(ctrl) {
            Err(e) => Err(e),
            Ok(()) => {
                let ghost mid = *self;
                let cap = self.buf.len();
                let free = cap - self.pending;
                let need = src.len() - *sent;
                let n = if free <= need {
                    free
                } else {
                    need
                };
                self.copy_in(src, *sent, n);
                proof {
                    lemma_borrow_shift(
                        mid.cap_spec(),
                        mid.wwraps@,
                        mid.pos as nat,
                        mid.pending as nat,
                        self.wwraps@,
                        self.pos as nat,
                        self.pending as nat,
                        ctrl.acked(),
                    );
                }
                *sent = *sent + n;
                if *sent == src.len() {
                    Ok(ExactPoll::Ready(cap - self.pending))
                } else {
                    Ok(ExactPoll::Pending)
                }
            },
        }
    }
}

/// The mirror of `lemma_carry_shift` for a cursor that leads the hardware:
/// growing the gap at the cursor keeps the borrow bit pointing at the same
/// block boundary.
proof fn lemma_borrow_shift(
    cap: nat,
    wwraps0: nat,
    pos0: nat,
    pending0: nat,
    wwraps1: nat,
    pos1: nat,
    pending1: nat,
    a: nat,
)
    requires
        0 < cap,
        pos0 < cap,
        pending0 <= cap,
        pos1 < cap,
        pending1 <= cap,
        pending0 <= wwraps0 * cap + pos0,
        pending1 <= wwraps1 * cap + pos1,
        wwraps0 * cap + pos0 - pending0 == wwraps1 * cap + pos1 - pending1,
        a + (if pos0 < pending0 {
            1nat
        } else {
            0nat
        }) == wwraps0,
    ensures
        a + (if pos1 < pending1 {
            1nat
        } else {
            0nat
        }) == wwraps1,
{
    let spos = if pos0 < pending0 {
        (pos0 + cap - pending0) as nat
    } else {
        (pos0 - pending0) as nat
    };
    if pos0 < pending0 {
        assert((wwraps0 - 1) * cap == wwraps0 * cap - cap) by {
            lemma_mul_is_distributive_sub_other_way(cap as int, wwraps0 as int, 1);
        }
    }
    assert(wwraps1 * cap + pos1 - pending1 == a * cap + spos);
    lemma_sync_borrow(cap, wwraps1, pos1, pending1, a, spos);
}


} // verus!
