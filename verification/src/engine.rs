//! The delay engine: executable code with contracts over the model.
//!
//! `DelayEngine` owns one fixed-point delay line per stereo channel and a
//! write cursor shared by both.  `configure` sizes and zeroes the lines for
//! a sample rate; `process_block` runs one block of frames in place, writing
//! each dry input sample into the line before reading the delayed sample
//! back, then crossfading the two.  Processing allocates nothing and never
//! panics: every index is proved in bounds and every arithmetic step free of
//! overflow.

use vstd::arithmetic::div_mod::{
    lemma_add_mod_noop, lemma_div_is_ordered, lemma_div_multiples_vanish,
    lemma_fundamental_div_mod_converse, lemma_hoist_over_denominator, lemma_mod_self_0,
    lemma_small_mod,
};
use vstd::prelude::*;

use crate::model::{
    buf_after, buffer_len_spec, configured_view, delay_samples_spec, mix_spec, out_at,
    read_index_spec, zeros, EngineView,
};

verus! {

/// Stereo slap-delay engine: two delay lines of equal length, one shared
/// write cursor, and the sample rate the lines were sized for.
pub struct DelayEngine {
    left: Vec<i32>,
    right: Vec<i32>,
    write_cursor: usize,
    sample_rate: u32,
}

impl View for DelayEngine {
    type V = EngineView;

    closed spec fn view(&self) -> EngineView {
        EngineView {
            chans: seq![self.left@, self.right@],
            cursor: self.write_cursor as nat,
            rate: self.sample_rate as nat,
        }
    }
}

/// A product of a weight in `[0, 1000]` and a sample-sized value stays well
/// inside `i64`.
proof fn lemma_bounded_product(c: int, x: int)
    requires
        0 <= c <= 1000,
        -2_147_483_648 <= x <= 2_147_483_647,
    ensures
        -2_147_483_648_000 <= c * x <= 2_147_483_648_000,
{
    assert(-2_147_483_648_000 <= c * x <= 2_147_483_648_000) by (nonlinear_arith)
        requires
            0 <= c <= 1000,
            -2_147_483_648 <= x <= 2_147_483_647,
    ;
}

/// The crossfade numerator is a convex combination scaled by 1000, so it
/// lies between 1000 times the smallest and 1000 times the largest sample.
proof fn lemma_mix_num_range(w: int, dry: int, wet: int)
    requires
        0 <= w <= 1000,
        -2_147_483_648 <= dry <= 2_147_483_647,
        -2_147_483_648 <= wet <= 2_147_483_647,
    ensures
        -2_147_483_648_000 <= (1000 - w) * dry + w * wet <= 2_147_483_647_000,
{
    assert(-2_147_483_648_000 <= (1000 - w) * dry + w * wet <= 2_147_483_647_000)
        by (nonlinear_arith)
        requires
            0 <= w <= 1000,
            -2_147_483_648 <= dry <= 2_147_483_647,
            -2_147_483_648 <= wet <= 2_147_483_647,
    ;
}

/// The crossfade of two `i32` samples fits in `i32`.
proof fn lemma_mix_fits(w: int, dry: int, wet: int)
    requires
        0 <= w <= 1000,
        -2_147_483_648 <= dry <= 2_147_483_647,
        -2_147_483_648 <= wet <= 2_147_483_647,
    ensures
        -2_147_483_648 <= mix_spec(w, dry, wet) <= 2_147_483_647,
{
    let num: int = (1000 - w) * dry + w * wet;
    lemma_mix_num_range(w, dry, wet);
    lemma_div_is_ordered(-2_147_483_648_000, num, 1000);
    lemma_div_is_ordered(num, 2_147_483_647_000, 1000);
    lemma_div_multiples_vanish(-2_147_483_648, 1000);
    lemma_div_multiples_vanish(2_147_483_647, 1000);
    assert(1000 * -2_147_483_648 == -2_147_483_648_000);
    assert(1000 * 2_147_483_647 == 2_147_483_647_000);
}

/// Anything modulo one is zero.
proof fn lemma_mod_one(x: int)
    ensures
        x % 1 == 0,
{
    assert(x == x * 1 + 0);
    lemma_fundamental_div_mod_converse(x, 1, x, 0);
}

/// Taking the remainder before or after adding one makes no difference.
proof fn lemma_mod_step(a: int, m: int)
    requires
        0 < m,
    ensures
        (a % m + 1) % m == (a + 1) % m,
{
    lemma_add_mod_noop(a, 1, m);
    if m == 1 {
        lemma_mod_one(a);
        lemma_mod_one(a % m + 1);
        lemma_mod_one(a + 1);
    } else {
        lemma_small_mod(1nat, m as nat);
    }
}

/// Linear crossfade of two samples, with the wet weight in thousandths.
/// Computes the floor of `((1000 - w) * dry + w * wet) / 1000` exactly, by
/// shifting the numerator into non-negative range before dividing.
fn mix(w: u32, dry: i32, wet: i32) -> (r: i32)
    requires
        w <= 1000,
    ensures
        r as int == mix_spec(w as int, dry as int, wet as int),
{
    proof {
        lemma_bounded_product(1000 - w as int, dry as int);
        lemma_bounded_product(w as int, wet as int);
        lemma_mix_num_range(w as int, dry as int, wet as int);
    }
    let wi: i64 = w as i64;
    let num: i64 = (1000 - wi) * (dry as i64) + wi * (wet as i64);
    let biased: u64 = (num + 2_147_483_648_000i64) as u64;
    let q: u64 = biased / 1000;
    let r64: i64 = (q as i64) - 2_147_483_648i64;
    proof {
        lemma_hoist_over_denominator(num as int, 2_147_483_648, 1000nat);
        assert(num as int + 2_147_483_648 * 1000 == biased as int);
        lemma_mix_fits(w as int, dry as int, wet as int);
    }
    r64 as i32
}

/// Delay in whole samples for a delay time in microseconds: rounded half-up,
/// then clamped below the buffer length.
fn delay_samples(dt_us: u32, sr: u32, len: usize) -> (ds: usize)
    requires
        1 <= len,
        sr <= 100_000_000,
    ensures
        ds as nat == delay_samples_spec(dt_us as nat, sr as nat, len as nat),
        ds < len,
{
    proof {
        assert((dt_us as int) * (sr as int) <= 4_294_967_295 * 100_000_000) by (nonlinear_arith)
            requires
                dt_us <= 4_294_967_295,
                sr <= 100_000_000,
        ;
    }
    let raw: u64 = ((dt_us as u64) * (sr as u64) + 500_000) / 1_000_000;
    let cap: u64 = (len - 1) as u64;
    if raw <= cap {
        raw as usize
    } else {
        len - 1
    }
}

/// Buffer length for a sample rate: one second plus a millisecond of margin,
/// rounded up, and at least one sample.
fn buffer_len(sr: u32) -> (bl: usize)
    requires
        sr <= 100_000_000,
    ensures
        bl as nat == buffer_len_spec(sr as nat),
        1 <= bl <= 100_100_000,
{
    let raw: u64 = ((sr as u64) * 1001 + 999) / 1000;
    proof {
        lemma_div_is_ordered((sr as int) * 1001 + 999, 100_100_000_999, 1000);
        lemma_fundamental_div_mod_converse(100_100_000_999, 1000, 100_100_000, 999);
    }
    if raw < 1 {
        1
    } else {
        raw as usize
    }
}

/// A zero-filled vector of the requested length.
fn zero_vec(n: usize) -> (v: Vec<i32>)
    ensures
        v@ == zeros(n as nat),
{
    let mut v: Vec<i32> = Vec::new();
    while v.len() < n
        invariant
            v@.len() <= n,
            forall|k: int| 0 <= k < v@.len() ==> v@[k] == 0i32,
        decreases n - v@.len(),
    {
        v.push(0);
    }
    proof {
        assert(v@ =~= zeros(n as nat));
    }
    v
}

/// The cursor after a block: advanced once per frame, modulo the length.
fn advance_cursor(c0: usize, frames: usize, len: usize) -> (r: usize)
    requires
        1 <= len <= 100_100_000,
        c0 < len,
    ensures
        r as int == (c0 + frames) % (len as int),
        r < len,
{
    let f: usize = frames % len;
    let r: usize = (c0 + f) % len;
    proof {
        lemma_add_mod_noop(c0 as int, frames as int, len as int);
        lemma_small_mod(c0 as nat, len as nat);
    }
    r
}

/// One channel of a block: for each frame, write the dry input at the
/// cursor, read the delayed sample behind it, and replace the input with
/// the crossfade of the two.  The cursor for frame `i` is `(c0 + i)` modulo
/// the line length; the line itself is left holding the dry history.
fn process_channel(
    buf: &mut Vec<i32>,
    io: &mut Vec<i32>,
    c0: usize,
    sr: u32,
    delay_us: &Vec<u32>,
    dry_wet: &Vec<u32>,
)
    requires
        1 <= old(buf)@.len() <= 100_100_000,
        c0 < old(buf)@.len(),
        sr <= 100_000_000,
        delay_us@.len() == old(io)@.len(),
        dry_wet@.len() == old(io)@.len(),
        forall|k: int| 0 <= k < dry_wet@.len() ==> dry_wet@[k] <= 1000,
    ensures
        final(buf)@ == buf_after(old(buf)@, c0 as nat, old(io)@, old(io)@.len()),
        final(buf)@.len() == old(buf)@.len(),
        final(io)@.len() == old(io)@.len(),
        forall|i: int|
            0 <= i < final(io)@.len() ==> #[trigger] final(io)@[i] as int == out_at(
                old(buf)@,
                c0 as nat,
                sr as nat,
                old(io)@,
                delay_us@,
                dry_wet@,
                i as nat,
            ),
{
    let len: usize = buf.len();
    let frames: usize = io.len();
    let mut cur: usize = c0;
    let mut i: usize = 0;
    proof {
        lemma_small_mod(c0 as nat, len as nat);
    }
    while i < frames
        invariant
            len == old(buf)@.len(),
            1 <= len <= 100_100_000,
            c0 < len,
            sr <= 100_000_000,
            frames == old(io)@.len(),
            io@.len() == frames,
            delay_us@.len() == frames,
            dry_wet@.len() == frames,
            forall|k: int| 0 <= k < dry_wet@.len() ==> dry_wet@[k] <= 1000,
            i <= frames,
            cur < len,
            cur as int == (c0 + i) % (len as int),
            buf@.len() == len,
            buf@ == buf_after(old(buf)@, c0 as nat, old(io)@, i as nat),
            forall|j: int|
                0 <= j < i ==> #[trigger] io@[j] as int == out_at(
                    old(buf)@,
                    c0 as nat,
                    sr as nat,
                    old(io)@,
                    delay_us@,
                    dry_wet@,
                    j as nat,
                ),
            forall|j: int| i <= j < frames ==> io@[j] == old(io)@[j],
        decreases frames - i,
    {
        let x: i32 = io[i];
        buf[cur] = x;
        proof {
            assert(buf@ == buf_after(old(buf)@, c0 as nat, old(io)@, (i + 1) as nat));
        }
        let ds: usize = delay_samples(delay_us[i], sr, len);
        let rp: usize = (cur + (len - ds)) % len;
        let delayed: i32 = buf[rp];
        let mixed: i32 = mix(dry_wet[i], x, delayed);
        io[i] = mixed;
        proof {
            assert(rp as int == read_index_spec(cur as nat, len as nat, ds as nat));
            assert(io@[i as int] as int == out_at(
                old(buf)@,
                c0 as nat,
                sr as nat,
                old(io)@,
                delay_us@,
                dry_wet@,
                i as nat,
            ));
        }
        let next: usize = if cur + 1 == len {
            0
        } else {
            cur + 1
        };
        proof {
            lemma_mod_step((c0 + i) as int, len as int);
            if cur + 1 == len {
                lemma_mod_self_0(len as int);
            } else {
                lemma_small_mod((cur + 1) as nat, len as nat);
            }
        }
        cur = next;
        i = i + 1;
    }
}

impl DelayEngine {
    /// A fresh, unconfigured engine: two empty delay lines and a cursor at
    /// zero.  `configure` must run before any block is processed.
    pub fn new() -> (engine: DelayEngine)
        ensures
            engine@.wf(),
            engine@.chans.len() == 2,
            engine@.len() == 0,
            engine@.cursor == 0,
            engine@.rate == 0,
    {
        DelayEngine { left: Vec::new(), right: Vec::new(), write_cursor: 0, sample_rate: 0 }
    }

    /// Number of samples each channel's delay line holds; zero before the
    /// first `configure`.
    pub fn buffer_length(&self) -> (r: usize)
        ensures
            r as nat == self@.len(),
            self@.chans.len() == 2,
    {
        self.left.len()
    }

    /// The shared write cursor.
    pub fn write_cursor(&self) -> (r: usize)
        ensures
            r as nat == self@.cursor,
    {
        self.write_cursor
    }

    /// The sample rate the delay lines were last sized for.
    pub fn sample_rate(&self) -> (r: u32)
        ensures
            r as nat == self@.rate,
    {
        self.sample_rate
    }

    /// Number of channels; the engine is fixed stereo.
    pub fn channel_count(&self) -> (r: usize)
        ensures
            r == 2,
            self@.chans.len() == 2,
    {
        2
    }

    /// Size both delay lines for the sample rate and clear them: one second
    /// of audio plus a millisecond of margin, never less than one sample,
    /// zero-filled, with the cursor reset.  The state after the call depends
    /// on the sample rate alone, so configuring twice changes nothing.  Rates
    /// up to one hundred megahertz are accepted, which keeps every buffer
    /// length and index computation inside the machine's word.
    pub fn configure(&mut self, sample_rate: u32)
        requires
            sample_rate <= 100_000_000,
        ensures
            final(self)@ == configured_view(sample_rate as nat),
            final(self)@.configured(),
    {
        let bl: usize = buffer_len(sample_rate);
        self.left = zero_vec(bl);
        self.right = zero_vec(bl);
        self.write_cursor = 0;
        self.sample_rate = sample_rate;
        proof {
            assert(self@ =~~= configured_view(sample_rate as nat));
        }
    }

    /// Process one block in place.  `samples` holds one row per channel;
    /// `delay_us` and `dry_wet` give the delay time (microseconds) and wet
    /// weight (thousandths) for each frame.  Every frame writes the dry
    /// inputs into the delay lines, reads the delayed samples back, and
    /// replaces the inputs with the crossfade; both channels share one
    /// cursor, advanced once per frame.
    pub fn process_block(
        &mut self,
        samples: &mut Vec<Vec<i32>>,
        delay_us: &Vec<u32>,
        dry_wet: &Vec<u32>,
    )
        requires
            old(self)@.configured(),
            old(samples)@.len() == 2,
            old(samples)@[0]@.len() == old(samples)@[1]@.len(),
            delay_us@.len() == old(samples)@[0]@.len(),
            dry_wet@.len() == old(samples)@[0]@.len(),
            forall|k: int| 0 <= k < dry_wet@.len() ==> dry_wet@[k] <= 1000,
        ensures
            final(self)@.configured(),
            final(self)@.rate == old(self)@.rate,
            final(self)@.len() == old(self)@.len(),
            final(self)@.cursor == (old(self)@.cursor + old(samples)@[0]@.len())
                % old(self)@.len(),
            final(self)@.chans[0] == buf_after(
                old(self)@.chans[0],
                old(self)@.cursor,
                old(samples)@[0]@,
                old(samples)@[0]@.len(),
            ),
            final(self)@.chans[1] == buf_after(
                old(self)@.chans[1],
                old(self)@.cursor,
                old(samples)@[1]@,
                old(samples)@[1]@.len(),
            ),
            final(samples)@.len() == 2,
            final(samples)@[0]@.len() == old(samples)@[0]@.len(),
            final(samples)@[1]@.len() == old(samples)@[1]@.len(),
            forall|i: int|
                0 <= i < old(samples)@[0]@.len() ==> #[trigger] final(samples)@[0]@[i] as int
                    == out_at(
                    old(self)@.chans[0],
                    old(self)@.cursor,
                    old(self)@.rate,
                    old(samples)@[0]@,
                    delay_us@,
                    dry_wet@,
                    i as nat,
                ),
            forall|i: int|
                0 <= i < old(samples)@[1]@.len() ==> #[trigger] final(samples)@[1]@[i] as int
                    == out_at(
                    old(self)@.chans[1],
                    old(self)@.cursor,
                    old(self)@.rate,
                    old(samples)@[1]@,
                    delay_us@,
                    dry_wet@,
                    i as nat,
                ),
    {
        let mut right_io: Vec<i32> = samples.pop().unwrap();
        let mut left_io: Vec<i32> = samples.pop().unwrap();
        let frames: usize = left_io.len();
        let c0: usize = self.write_cursor;
        let sr: u32 = self.sample_rate;
        process_channel(&mut self.left, &mut left_io, c0, sr, delay_us, dry_wet);
        process_channel(&mut self.right, &mut right_io, c0, sr, delay_us, dry_wet);
        let len: usize = self.left.len();
        self.write_cursor = advance_cursor(c0, frames, len);
        samples.push(left_io);
        samples.push(right_io);
        proof {
            assert(samples@ =~= seq![left_io, right_io]);
        }
    }
}

impl Default for DelayEngine {
    /// Same state as `DelayEngine::new`: unconfigured, empty delay lines.
    fn default() -> (engine: DelayEngine)
        ensures
            engine@.wf(),
            engine@.chans.len() == 2,
            engine@.len() == 0,
            engine@.cursor == 0,
            engine@.rate == 0,
    {
        DelayEngine::new()
    }
}

} // verus!
