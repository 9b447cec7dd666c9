//! Fixed-capacity circular delay line with a settable read lag.
//!
//! A `DelayLine` owns a buffer of `MAX_LENGTH` slots. `push` writes at the
//! write position and advances it cyclically; `pop` reads the slot `amount`
//! positions behind the write position, with wraparound-safe arithmetic.

use vstd::prelude::*;
use vstd::arithmetic::div_mod::lemma_fundamental_div_mod_converse_mod;
use vstd::arithmetic::div_mod::lemma_mod_division_less_than_divisor;
use vstd::arithmetic::div_mod::lemma_small_mod;
use vstd::arithmetic::div_mod::lemma_add_mod_noop;
use vstd::arithmetic::div_mod::lemma_add_mod_noop_right;
use vstd::arithmetic::div_mod::lemma_sub_mod_noop;
use vstd::arithmetic::div_mod::lemma_sub_mod_noop_right;
use vstd::arithmetic::div_mod::lemma_mod_sub_multiples_vanish;
use vstd::arithmetic::div_mod::lemma_div_pos_is_pos;

verus! {

/// Fixed capacity of every delay line, in samples.
pub const MAX_LENGTH: usize = 5000;

/// Normalizes a ring-buffer offset into `[0, MAX_LENGTH)`. An offset that went
/// negative by at most one capacity is pulled back up before the modulus, so
/// the result is the mathematical (Euclidean) remainder.
pub fn wrap_value(v: isize) -> (r: usize)
    requires
        v >= -(MAX_LENGTH as isize),
    ensures
        r == (v as int) % (MAX_LENGTH as int),
        r < MAX_LENGTH,
{
    proof {
        lemma_mod_division_less_than_divisor(v as int, MAX_LENGTH as int);
    }
    if v < 0 {
        proof {
            lemma_fundamental_div_mod_converse_mod(
                v as int,
                MAX_LENGTH as int,
                -1,
                v + MAX_LENGTH as int,
            );
        }
        ((v + MAX_LENGTH as isize) as usize) % MAX_LENGTH
    } else {
        (v as usize) % MAX_LENGTH
    }
}

/// A circular sample buffer of fixed capacity with a settable read lag.
#[derive(Clone)]
pub struct DelayLine<T> {
    amount: usize,
    buffer: Vec<T>,
    wp: usize,
    y0: T,
}

impl<T> DelayLine<T> {
    /// The stored samples, one per slot.
    pub closed spec fn buf(&self) -> Seq<T> {
        self.buffer@
    }

    /// The slot index that the next `push` writes.
    pub closed spec fn write_pos(&self) -> int {
        self.wp as int
    }

    /// The read lag in samples: the distance between write and read positions.
    pub closed spec fn lag(&self) -> int {
        self.amount as int
    }

    /// The most recently popped value, retained as observable state.
    pub closed spec fn last_output(&self) -> T {
        self.y0
    }

    pub open spec fn wf(&self) -> bool {
        &&& self.buf().len() == MAX_LENGTH
        &&& 0 <= self.write_pos() < MAX_LENGTH
        &&& 0 <= self.lag() < MAX_LENGTH
    }

    /// The slot that `pop` reads: the write position lagged by `amount`,
    /// wrapped into the buffer.
    pub open spec fn read_index(&self) -> int {
        (self.write_pos() - self.lag()) % (MAX_LENGTH as int)
    }

    /// The value that `pop` returns.
    pub open spec fn read_value(&self) -> T
        recommends
            self.wf(),
    {
        self.buf()[self.read_index()]
    }
}

impl<T: Copy> DelayLine<T> {
    /// A delay line with every slot holding `fill`, zero lag, and the write
    /// position at the start of the buffer.
    pub fn new(fill: T) -> (r: Self)
        ensures
            r.wf(),
            r.buf() == Seq::new(MAX_LENGTH as nat, |i: int| fill),
            r.write_pos() == 0,
            r.lag() == 0,
            r.last_output() == fill,
    {
        let mut buffer: Vec<T> = Vec::new();
        let mut i: usize = 0;
        while i < MAX_LENGTH
            invariant
                i <= MAX_LENGTH,
                buffer@.len() == i,
                forall|j: int| 0 <= j < i ==> buffer@[j] == fill,
            decreases MAX_LENGTH - i,
        {
            buffer.push(fill);
            i = i + 1;
        }
        proof {
            assert(buffer@ =~= Seq::new(MAX_LENGTH as nat, |i: int| fill));
        }
        Self { amount: 0, buffer, wp: 0, y0: fill }
    }

    /// Writes `data` at the write position, then advances it by one slot,
    /// wrapping past the end of the buffer. The buffer and write position
    /// evolve exactly as `ring_push` says, so `lemma_delay_wraparound`
    /// applies to any chain of pushes.
    pub fn push(&mut self, data: T)
        requires
            old(self).wf(),
        ensures
            final(self).wf(),
            final(self).buf() == old(self).buf().update(old(self).write_pos(), data),
            final(self).write_pos() == (old(self).write_pos() + 1) % (MAX_LENGTH as int),
            (final(self).buf(), final(self).write_pos()) == ring_push(
                old(self).buf(),
                old(self).write_pos(),
                data,
            ),
            final(self).lag() == old(self).lag(),
            final(self).last_output() == old(self).last_output(),
    {
        self.buffer.set(self.wp, data);
        self.wp = (self.wp + 1) % MAX_LENGTH;
    }

    /// Reads the value `amount` slots behind the write position and caches it
    /// as the last output. Does not move the write position.
    pub fn pop(&mut self) -> (r: T)
        requires
            old(self).wf(),
        ensures
            final(self).wf(),
            r == old(self).read_value(),
            final(self).buf() == old(self).buf(),
            final(self).write_pos() == old(self).write_pos(),
            final(self).lag() == old(self).lag(),
            final(self).last_output() == r,
    {
        let rp: isize = (self.wp as isize) - (self.amount as isize);
        let idx: usize = wrap_value(rp);
        self.y0 = self.buffer[idx];
        self.y0
    }

    /// The current read lag.
    pub fn amount(&self) -> (r: usize)
        ensures
            r == self.lag(),
    {
        self.amount
    }

    /// Sets the read lag directly, clamped to `MAX_LENGTH - 1`: the lag can
    /// never alias the write position, whatever the caller asks for.
    pub fn set_amount(&mut self, amount: usize)
        requires
            old(self).wf(),
        ensures
            final(self).wf(),
            final(self).lag() == clamped_amount(amount as int),
            final(self).buf() == old(self).buf(),
            final(self).write_pos() == old(self).write_pos(),
            final(self).last_output() == old(self).last_output(),
    {
        if amount >= MAX_LENGTH {
            self.amount = MAX_LENGTH - 1;
        } else {
            self.amount = amount;
        }
    }

    /// Retunes the read lag to `round(sampling / f)` samples, rounding half
    /// away from zero, clamped to `MAX_LENGTH - 1`. A non-positive frequency,
    /// or a ratio at or above the capacity, yields the maximum lag: pitch
    /// degrades, the buffer is never overrun. `f` and `sampling` share one
    /// fixed-point scale, which cancels in the ratio.
    pub fn set_frequency(&mut self, f: i64, sampling: i64)
        requires
            old(self).wf(),
            0 <= sampling <= 0x1000_0000_0000_0000,
            f <= 0x1000_0000_0000_0000,
        ensures
            final(self).wf(),
            final(self).lag() == delay_amount(f as int, sampling as int),
            final(self).buf() == old(self).buf(),
            final(self).write_pos() == old(self).write_pos(),
            final(self).last_output() == old(self).last_output(),
    {
        if f <= 0 {
            self.amount = MAX_LENGTH - 1;
        } else {
            proof {
                lemma_div_pos_is_pos(2 * sampling + f, 2 * f);
            }
            let q: i64 = (2 * sampling + f) / (2 * f);
            if q >= MAX_LENGTH as i64 {
                self.amount = MAX_LENGTH - 1;
            } else {
                self.amount = q as usize;
            }
        }
    }
}

/// A requested lag clamped into `[0, MAX_LENGTH - 1]`.
pub open spec fn clamped_amount(amount: int) -> int {
    if amount < MAX_LENGTH {
        amount
    } else {
        MAX_LENGTH - 1
    }
}

/// The lag that `set_frequency` computes: the sample count of one period of
/// `f` at rate `sampling`, rounded half away from zero, clamped below the
/// capacity. Non-positive frequencies take the maximum lag.
pub open spec fn delay_amount(f: int, sampling: int) -> int {
    if f <= 0 {
        MAX_LENGTH - 1
    } else {
        clamped_amount((2 * sampling + f) / (2 * f))
    }
}

/// One push at the specification level: write `data` at `wp`, advance the
/// write position cyclically.
pub open spec fn ring_push<T>(buf: Seq<T>, wp: int, data: T) -> (Seq<T>, int) {
    (buf.update(wp, data), (wp + 1) % (MAX_LENGTH as int))
}

/// The buffer and write position after pushing every element of `s` in order.
pub open spec fn ring_after<T>(buf: Seq<T>, wp: int, s: Seq<T>) -> (Seq<T>, int)
    decreases s.len(),
{
    if s.len() == 0 {
        (buf, wp)
    } else {
        let stepped = ring_push(buf, wp, s[0]);
        ring_after(stepped.0, stepped.1, s.drop_first())
    }
}

/// Pushing keeps the buffer length and moves the write position by one slot
/// per push, cyclically.
pub proof fn lemma_ring_wp<T>(buf: Seq<T>, wp: int, s: Seq<T>)
    requires
        buf.len() == MAX_LENGTH,
        0 <= wp < MAX_LENGTH,
    ensures
        ring_after(buf, wp, s).0.len() == buf.len(),
        ring_after(buf, wp, s).1 == (wp + s.len()) % (MAX_LENGTH as int),
        0 <= ring_after(buf, wp, s).1 < MAX_LENGTH,
    decreases s.len(),
{
    let m: int = MAX_LENGTH as int;
    if s.len() == 0 {
        lemma_small_mod(wp as nat, MAX_LENGTH as nat);
    } else {
        let wp1: int = (wp + 1) % m;
        lemma_mod_division_less_than_divisor(wp + 1, m);
        lemma_ring_wp(buf.update(wp, s[0]), wp1, s.drop_first());
        lemma_mod_division_less_than_divisor(wp + s.len(), m);
        assert((wp1 + (s.len() - 1)) % m == (wp + s.len()) % m) by {
            lemma_add_mod_noop_right(s.len() - 1, wp + 1, m);
            assert(((s.len() - 1) + (wp + 1) % m) % m == ((s.len() - 1) + (wp + 1)) % m);
        }
    }
}

/// A slot at least `s.len()` steps ahead of the write position is never
/// written while `s` is pushed: its value survives.
proof fn lemma_ring_preserve<T>(buf: Seq<T>, wp: int, s: Seq<T>, d: int)
    requires
        buf.len() == MAX_LENGTH,
        0 <= wp < MAX_LENGTH,
        s.len() <= d < MAX_LENGTH,
    ensures
        ring_after(buf, wp, s).0[(wp + d) % (MAX_LENGTH as int)] == buf[(wp + d) % (MAX_LENGTH as int)],
    decreases s.len(),
{
    let m: int = MAX_LENGTH as int;
    if s.len() > 0 {
        let j: int = (wp + d) % m;
        lemma_mod_division_less_than_divisor(wp + d, m);
        lemma_small_mod(wp as nat, MAX_LENGTH as nat);
        assert(j != wp) by {
            if j == wp {
                let q: int = (wp + d) / m;
                vstd::arithmetic::div_mod::lemma_fundamental_div_mod(wp + d, m);
                assert(d == m * q);
                assert(false) by (nonlinear_arith)
                    requires
                        d == m * q,
                        0 < d < m,
                {}
            }
        }
        let buf1 = buf.update(wp, s[0]);
        let wp1: int = (wp + 1) % m;
        lemma_mod_division_less_than_divisor(wp + 1, m);
        lemma_ring_preserve(buf1, wp1, s.drop_first(), d - 1);
        assert((wp1 + (d - 1)) % m == j) by {
            lemma_add_mod_noop(wp + 1, d - 1, m);
            lemma_small_mod((d - 1) as nat, MAX_LENGTH as nat);
            assert(((wp + 1) % m + (d - 1) % m) % m == (wp + 1 + (d - 1)) % m);
        }
    }
}

/// After the pushes of `s`, the slot `k + 1` behind the final write position
/// holds `s[s.len() - 1 - k]`: the value pushed `k + 1` pushes ago.
proof fn lemma_ring_lookback<T>(buf: Seq<T>, wp: int, s: Seq<T>, k: int)
    requires
        buf.len() == MAX_LENGTH,
        0 <= wp < MAX_LENGTH,
        0 <= k < s.len(),
        k < MAX_LENGTH,
    ensures
        ring_after(buf, wp, s).0[(ring_after(buf, wp, s).1 - 1 - k) % (MAX_LENGTH as int)]
            == s[s.len() - 1 - k],
    decreases s.len(),
{
    let m: int = MAX_LENGTH as int;
    let buf1 = buf.update(wp, s[0]);
    let wp1: int = (wp + 1) % m;
    lemma_mod_division_less_than_divisor(wp + 1, m);
    lemma_ring_wp(buf, wp, s);
    let w2: int = ring_after(buf, wp, s).1;
    if k == s.len() - 1 {
        // The target slot is the one written first; the remaining pushes
        // stop one slot short of overwriting it.
        lemma_ring_preserve(buf1, wp1, s.drop_first(), m - 1);
        assert((wp1 + (m - 1)) % m == wp) by {
            lemma_add_mod_noop(wp + 1, m - 1, m);
            lemma_small_mod((m - 1) as nat, MAX_LENGTH as nat);
            lemma_mod_sub_multiples_vanish(wp + m, m);
            lemma_small_mod(wp as nat, MAX_LENGTH as nat);
            assert(((wp + 1) % m + (m - 1) % m) % m == (wp + 1 + (m - 1)) % m);
            assert((wp + m) % m == wp % m);
        }
        assert((w2 - 1 - k) % m == wp) by {
            let n: int = s.len() as int;
            lemma_sub_mod_noop(wp + n, n, m);
            lemma_sub_mod_noop_right(w2, n, m);
            lemma_small_mod(wp as nat, MAX_LENGTH as nat);
            assert((w2 - n % m) % m == (w2 - n) % m);
            assert(((wp + n) % m - n % m) % m == (wp + n - n) % m);
        }
    } else {
        lemma_ring_lookback(buf1, wp1, s.drop_first(), k);
    }
}

/// How many pushes back `pop` reads: a lag of zero reads the slot the next
/// push will overwrite, which holds the value pushed a full capacity ago.
pub open spec fn lookback_of(amount: int) -> int {
    if amount == 0 {
        MAX_LENGTH as int
    } else {
        amount
    }
}

/// Delay wraparound correctness: for any lag in `[0, MAX_LENGTH - 1]` and any
/// sequence of pushes long enough to reach that far back, the slot read by
/// `pop` (the write position lagged by `amount`, wrapped) holds exactly the
/// value pushed `lookback_of(amount)` pushes ago — including after the write
/// position has wrapped past zero any number of times.
pub proof fn lemma_delay_wraparound<T>(buf: Seq<T>, wp: int, amount: int, s: Seq<T>)
    requires
        buf.len() == MAX_LENGTH,
        0 <= wp < MAX_LENGTH,
        0 <= amount < MAX_LENGTH,
        lookback_of(amount) <= s.len(),
    ensures
        ring_after(buf, wp, s).0[(ring_after(buf, wp, s).1 - amount) % (MAX_LENGTH as int)]
            == s[s.len() - lookback_of(amount)],
{
    let m: int = MAX_LENGTH as int;
    let k: int = lookback_of(amount) - 1;
    lemma_ring_lookback(buf, wp, s, k);
    let w2: int = ring_after(buf, wp, s).1;
    lemma_ring_wp(buf, wp, s);
    if amount == 0 {
        assert((w2 - 1 - k) % m == (w2 - amount) % m) by {
            lemma_mod_sub_multiples_vanish(w2, m);
        }
    }
}

} // verus!
