//! The window of recent temperature readings: a ring of the last accepted
//! readings (hundredths of a degree Celsius), a spike filter in front of it,
//! and the truncated mean that is reported.

use vstd::prelude::*;

verus! {

/// How many accepted readings the window keeps.
pub const WINDOW_CAPACITY: usize = 10;

/// Largest change, in hundredths of a degree, that a reading may show against
/// the previous accepted one (5 degrees).
pub const MAX_STEP_CENTI: i32 = 500;

pub open spec fn abs_diff(a: int, b: int) -> int {
    if a >= b {
        a - b
    } else {
        b - a
    }
}

/// Sum of a sequence of readings.
pub open spec fn seq_sum(s: Seq<i32>) -> int
    decreases s.len(),
{
    if s.len() == 0 {
        0
    } else {
        seq_sum(s.drop_last()) + s.last() as int
    }
}

/// Division that rounds toward zero, as `/` does on Rust's signed integers.
pub open spec fn div_toward_zero(a: int, b: int) -> int {
    if a >= 0 {
        a / b
    } else {
        -((-a) / b)
    }
}

/// The reported average of a non-empty window: its sum divided by its length,
/// rounded toward zero.
pub open spec fn mean_toward_zero(s: Seq<i32>) -> int {
    div_toward_zero(seq_sum(s), s.len() as int)
}

/// Whether `x` is rejected as a spike against the readings `s`: there is a
/// previous reading and `x` lies more than 5 degrees away from it.
pub open spec fn is_spike(s: Seq<i32>, x: i32) -> bool {
    s.len() > 0 && abs_diff(x as int, s.last() as int) > MAX_STEP_CENTI as int
}

/// The readings after `x` was accepted: `x` is appended, and the oldest
/// reading leaves once the window is full.
pub open spec fn shifted_in(s: Seq<i32>, x: i32) -> Seq<i32> {
    if s.len() < WINDOW_CAPACITY {
        s.push(x)
    } else {
        s.drop_first().push(x)
    }
}

/// Neighbouring readings of `s` lie at most 5 degrees apart.
pub open spec fn steps_bounded(s: Seq<i32>) -> bool {
    forall|i: int|
        0 <= i < s.len() - 1 ==> #[trigger] abs_diff(s[i + 1] as int, s[i] as int)
            <= MAX_STEP_CENTI as int
}

/// The last up to ten accepted readings, kept in a ring buffer.
pub struct SampleWindow {
    buf: [i32; 10],
    len: usize,
    pos: usize,
}

impl View for SampleWindow {
    type V = Seq<i32>;

    /// The readings in the order they were accepted, oldest first.
    closed spec fn view(&self) -> Seq<i32> {
        ring_view(self.buf@, self.len as int, self.pos as int)
    }
}

/// The readings held in the slots `buf` of a ring with `len` readings whose
/// next write goes to slot `pos`, oldest first.
spec fn ring_view(buf: Seq<i32>, len: int, pos: int) -> Seq<i32> {
    if len < WINDOW_CAPACITY {
        buf.subrange(0, len)
    } else {
        buf.subrange(pos, 10) + buf.subrange(0, pos)
    }
}

/// Writing `x` at the next slot of the ring shifts `x` into its readings.
proof fn lemma_ring_write(buf: Seq<i32>, len: int, pos: int, x: i32)
    requires
        buf.len() == 10,
        0 <= len <= 10,
        0 <= pos < 10,
        len < 10 ==> pos == len,
    ensures
        ring_view(buf.update(pos, x), if len < 10 { len + 1 } else { len }, (pos + 1) % 10)
            == shifted_in(ring_view(buf, len, pos), x),
{
    let nb = buf.update(pos, x);
    let nl = if len < 10 { len + 1 } else { len };
    let np = (pos + 1) % 10;
    let old_view = ring_view(buf, len, pos);
    let new_view = ring_view(nb, nl, np);
    if len < 10 {
        assert(new_view =~= shifted_in(old_view, x));
    } else if pos + 1 < 10 {
        assert(new_view =~= shifted_in(old_view, x));
    } else {
        assert(new_view =~= shifted_in(old_view, x));
    }
}

/// The ring's readings sum to the sum of its first `len` slots.
proof fn lemma_ring_sum(buf: Seq<i32>, len: int, pos: int)
    requires
        buf.len() == 10,
        0 <= len <= 10,
        0 <= pos < 10,
    ensures
        seq_sum(ring_view(buf, len, pos)) == seq_sum(buf.subrange(0, len)),
{
    if len == 10 {
        let a = buf.subrange(0, pos);
        let b = buf.subrange(pos, 10);
        assert(buf.subrange(0, 10) =~= a + b);
        lemma_seq_sum_append(a, b);
        lemma_seq_sum_append(b, a);
    }
}

proof fn lemma_seq_sum_append(a: Seq<i32>, b: Seq<i32>)
    ensures
        seq_sum(a + b) == seq_sum(a) + seq_sum(b),
    decreases b.len(),
{
    if b.len() == 0 {
        assert(a + b =~= a);
    } else {
        lemma_seq_sum_append(a, b.drop_last());
        assert((a + b).drop_last() =~= a + b.drop_last());
    }
}

proof fn lemma_seq_sum_bounds(s: Seq<i32>, lo: int, hi: int)
    requires
        forall|i: int| 0 <= i < s.len() ==> lo <= #[trigger] s[i] <= hi,
    ensures
        s.len() * lo <= seq_sum(s) <= s.len() * hi,
    decreases s.len(),
{
    if s.len() > 0 {
        let t = s.drop_last();
        assert forall|i: int| 0 <= i < t.len() implies lo <= #[trigger] t[i] <= hi by {
            assert(t[i] == s[i]);
        }
        lemma_seq_sum_bounds(t, lo, hi);
        assert(s.len() * lo == t.len() * lo + lo) by (nonlinear_arith)
            requires
                s.len() == t.len() + 1,
        ;
        assert(s.len() * hi == t.len() * hi + hi) by (nonlinear_arith)
            requires
                s.len() == t.len() + 1,
        ;
    }
}

proof fn lemma_div_toward_zero_bounds(sum: int, n: int, lo: int, hi: int)
    requires
        n > 0,
        lo <= hi,
        n * lo <= sum <= n * hi,
    ensures
        lo <= div_toward_zero(sum, n) <= hi,
{
    if sum >= 0 {
        let q = sum / n;
        assert(n * q <= sum < n * q + n) by (nonlinear_arith)
            requires
                n > 0,
                q == sum / n,
        ;
        assert(lo <= q) by (nonlinear_arith)
            requires
                n > 0,
                n * lo <= sum,
                sum < n * q + n,
        ;
        assert(q <= hi) by (nonlinear_arith)
            requires
                n > 0,
                sum <= n * hi,
                n * q <= sum,
        ;
    } else {
        let m = -sum;
        let q = m / n;
        assert(n * (-hi) == -(n * hi) && n * (-lo) == -(n * lo)) by (nonlinear_arith);
        assert(n * q <= m < n * q + n) by (nonlinear_arith)
            requires
                n > 0,
                q == m / n,
        ;
        assert(-hi <= q) by (nonlinear_arith)
            requires
                n > 0,
                n * (-hi) <= m,
                m < n * q + n,
        ;
        assert(q <= -lo) by (nonlinear_arith)
            requires
                n > 0,
                m <= n * (-lo),
                n * q <= m,
        ;
    }
}

/// The reported average always lies between the smallest and the largest
/// reading of the window it was computed from.
pub proof fn lemma_mean_within_readings(s: Seq<i32>, lo: int, hi: int)
    requires
        s.len() > 0,
        forall|i: int| 0 <= i < s.len() ==> lo <= #[trigger] s[i] <= hi,
    ensures
        lo <= mean_toward_zero(s) <= hi,
{
    lemma_seq_sum_bounds(s, lo, hi);
    assert(lo <= s[0] <= hi);
    lemma_div_toward_zero_bounds(seq_sum(s), s.len() as int, lo, hi);
}

impl SampleWindow {
    #[verifier::type_invariant]
    spec fn inv(self) -> bool {
        &&& self.len <= WINDOW_CAPACITY
        &&& self.pos < WINDOW_CAPACITY
        &&& self.len < WINDOW_CAPACITY ==> self.pos == self.len
        &&& steps_bounded(self@)
    }

    /// An empty window.
    pub fn new() -> (w: Self)
        ensures
            w@ == Seq::<i32>::empty(),
    {
        let w = SampleWindow { buf: [0i32; 10], len: 0, pos: 0 };
        assert(w@ =~= Seq::<i32>::empty());
        w
    }

    /// Number of readings held.
    pub fn len(&self) -> (n: usize)
        ensures
            n == self@.len(),
            n <= WINDOW_CAPACITY,
    {
        proof {
            use_type_invariant(self);
        }
        self.len
    }

    /// The most recently accepted reading, if any.
    pub fn last(&self) -> (r: Option<i32>)
        ensures
            r == (if self@.len() == 0 {
                None
            } else {
                Some(self@.last())
            }),
    {
        proof {
            use_type_invariant(self);
        }
        if self.len == 0 {
            None
        } else {
            let last_idx = if self.pos == 0 {
                WINDOW_CAPACITY - 1
            } else {
                self.pos - 1
            };
            Some(self.buf[last_idx])
        }
    }
}


/// A reading that passes the spike filter keeps neighbouring readings at
/// most 5 degrees apart, and the window at most ten readings long.
pub proof fn lemma_shift_keeps_steps(s: Seq<i32>, x: i32)
    requires
        steps_bounded(s),
        !is_spike(s, x),
    ensures
        steps_bounded(shifted_in(s, x)),
        s.len() <= WINDOW_CAPACITY ==> shifted_in(s, x).len() <= WINDOW_CAPACITY,
{
    let t = shifted_in(s, x);
    assert forall|i: int| 0 <= i < t.len() - 1 implies #[trigger] abs_diff(
        t[i + 1] as int,
        t[i] as int,
    ) <= MAX_STEP_CENTI as int by {
        if s.len() < WINDOW_CAPACITY {
            if i + 1 < s.len() {
                assert(t[i + 1] == s[i + 1] && t[i] == s[i]);
            } else {
                assert(t[i + 1] == x && t[i] == s.last());
            }
        } else {
            if i + 2 < s.len() {
                assert(t[i + 1] == s[i + 2] && t[i] == s[i + 1]);
                assert(abs_diff(s[(i + 1) + 1] as int, s[i + 1] as int) <= MAX_STEP_CENTI as int);
            } else {
                assert(t[i + 1] == x && t[i] == s.last());
            }
        }
    }
}

impl SampleWindow {
    /// Whether `centi` would be rejected as a spike.
    pub fn is_spike(&self, centi: i32) -> (b: bool)
        requires
            self@.len() > 0 ==> i32::MIN < centi - self@.last() <= i32::MAX,
        ensures
            b == is_spike(self@, centi),
    {
        match self.last() {
            None => false,
            Some(prev) => {
                let diff = centi - prev;
                let diff_abs = if diff < 0 {
                    -diff
                } else {
                    diff
                };
                diff_abs > MAX_STEP_CENTI
            },
        }
    }

    /// The sum of the first `n` slots of the ring.
    fn sum_prefix(buf: &[i32; 10], n: usize) -> (sum: i64)
        requires
            n <= WINDOW_CAPACITY,
        ensures
            sum == seq_sum(buf@.subrange(0, n as int)),
    {
        let mut sum: i64 = 0;
        let mut i: usize = 0;
        while i < n
            invariant
                i <= n <= WINDOW_CAPACITY,
                sum == seq_sum(buf@.subrange(0, i as int)),
                i * (i32::MIN as int) <= sum <= i * (i32::MAX as int),
            decreases n - i,
        {
            assert(buf@.subrange(0, i + 1).drop_last() =~= buf@.subrange(0, i as int));
            sum = sum + buf[i] as i64;
            i = i + 1;
        }
        sum
    }

    /// Accepts or rejects a new reading. A spike (more than 5 degrees away
    /// from the previous accepted reading) is rejected and changes nothing.
    /// Otherwise the reading enters the window, the oldest one leaves once ten
    /// are held, and the truncated mean of the window is returned.
    #[verifier::rlimit(30)]
    pub fn record(&mut self, centi: i32) -> (avg: Option<i32>)
        requires
            old(self)@.len() > 0 ==> i32::MIN < centi - old(self)@.last() <= i32::MAX,
        ensures
            is_spike(old(self)@, centi) ==> avg is None && final(self)@ == old(self)@,
            !is_spike(old(self)@, centi) ==> {
                &&& final(self)@ == shifted_in(old(self)@, centi)
                &&& avg matches Some(a) && a as int == mean_toward_zero(final(self)@)
            },
            final(self)@.len() <= WINDOW_CAPACITY,
            steps_bounded(final(self)@),
    {
        proof {
            use_type_invariant(&*self);
        }
        if self.is_spike(centi) {
            return None;
        }
        let ghost old_view = self@;
        let mut buf = self.buf;
        let pos = self.pos;
        buf[pos] = centi;
        let new_pos = (pos + 1) % WINDOW_CAPACITY;
        let new_len = if self.len < WINDOW_CAPACITY {
            self.len + 1
        } else {
            self.len
        };
        let ghost new_view = ring_view(buf@, new_len as int, new_pos as int);
        proof {
            assert(buf@ == self.buf@.update(pos as int, centi));
            lemma_ring_write(self.buf@, self.len as int, pos as int, centi);
            lemma_shift_keeps_steps(old_view, centi);
        }
        let sum = Self::sum_prefix(&buf, new_len);
        proof {
            lemma_ring_sum(buf@, new_len as int, new_pos as int);
            assert(seq_sum(new_view) == sum);
            assert forall|i: int| 0 <= i < new_view.len() implies i32::MIN <= #[trigger] new_view[i]
                <= i32::MAX by {}
            lemma_mean_within_readings(new_view, i32::MIN as int, i32::MAX as int);
        }
        let avg = (sum / (new_len as i64)) as i32;
        *self = SampleWindow { buf, len: new_len, pos: new_pos };
        Some(avg)
    }
}

} // verus!
