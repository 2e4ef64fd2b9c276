//! Mathematical model of the slap-delay engine.
//!
//! Samples are fixed-point integers (`i32`), the dry/wet ratio is given in
//! thousandths (`0 ..= 1000`), and the delay time in microseconds.  The
//! functions here describe, over sequences and unbounded integers, exactly
//! what the executable engine computes: buffer sizing, the delay-time to
//! sample-count conversion, the circular read index, the linear crossfade,
//! and the evolution of one channel's delay line over a block of frames.

use vstd::prelude::*;

verus! {

/// Number of samples a delay line holds for a given sample rate: one full
/// second of audio plus a one-millisecond safety margin, rounded up, and
/// never less than one sample so that indexing modulo the length is always
/// defined.
pub open spec fn buffer_len_spec(sr: nat) -> nat {
    let raw: nat = (sr * 1001 + 999) / 1000;
    if raw < 1 {
        1
    } else {
        raw
    }
}

/// A zero-filled delay line of length `n`.
pub open spec fn zeros(n: nat) -> Seq<i32> {
    Seq::new(n, |k: int| 0i32)
}

/// Delay expressed in whole samples: the delay time (microseconds) times the
/// sample rate, rounded half-up to the nearest sample, then clamped into
/// `[0, len - 1]` so that it can never index outside the delay line.
pub open spec fn delay_samples_spec(dt_us: nat, sr: nat, len: nat) -> nat
    recommends
        1 <= len,
{
    let raw: nat = (dt_us * sr + 500_000) / 1_000_000;
    if raw <= len - 1 {
        raw
    } else {
        (len - 1) as nat
    }
}

/// Position a delayed sample is read from: `ds` samples behind the cursor,
/// wrapping around the circular buffer.
pub open spec fn read_index_spec(cursor: nat, len: nat, ds: nat) -> nat
    recommends
        1 <= len,
        cursor < len,
        ds < len,
{
    ((cursor + len - ds) % (len as int)) as nat
}

/// Linear crossfade between a dry and a delayed sample, with the wet weight
/// `w` in thousandths.  The quotient is the mathematical floor, and for
/// `0 <= w <= 1000` the result always lies between the two inputs.
pub open spec fn mix_spec(w: int, dry: int, wet: int) -> int
    recommends
        0 <= w <= 1000,
{
    ((1000 - w) * dry + w * wet) / 1000
}

/// One channel's delay line after the first `n` frames of a block have been
/// written: frame `j` stores the dry input `ins[j]` at cursor position
/// `(c0 + j) mod len`, in order.
pub open spec fn buf_after(buf: Seq<i32>, c0: nat, ins: Seq<i32>, n: nat) -> Seq<i32>
    recommends
        1 <= buf.len(),
        c0 < buf.len(),
        n <= ins.len(),
    decreases n,
{
    if n == 0 {
        buf
    } else {
        buf_after(buf, c0, ins, (n - 1) as nat).update(
            (c0 + n - 1) % (buf.len() as int),
            ins[n - 1],
        )
    }
}

/// The mixed output sample a channel produces at frame `i` of a block: the
/// dry input is written first, the delayed sample is then read `ds` samples
/// behind the cursor (so a zero delay reads the sample just written), and
/// the two are crossfaded by the wet weight of that frame.
pub open spec fn out_at(
    buf: Seq<i32>,
    c0: nat,
    sr: nat,
    ins: Seq<i32>,
    dts: Seq<u32>,
    ws: Seq<u32>,
    i: nat,
) -> int
    recommends
        1 <= buf.len(),
        c0 < buf.len(),
        i < ins.len(),
        dts.len() == ins.len(),
        ws.len() == ins.len(),
        ins.len() <= usize::MAX,
{
    let len: nat = buf.len();
    let ds: nat = delay_samples_spec(dts[i as int] as nat, sr, len);
    let cur: nat = (c0 + i) % len;
    let delayed: i32 = buf_after(buf, c0, ins, (i + 1) as nat)[read_index_spec(cur, len, ds) as int];
    mix_spec(ws[i as int] as int, ins[i as int] as int, delayed as int)
}

/// The whole state of a delay engine, as contracts speak of it: one delay
/// line per channel, the shared write cursor, and the configured sample rate.
#[verifier::ext_equal]
pub struct EngineView {
    pub chans: Seq<Seq<i32>>,
    pub cursor: nat,
    pub rate: nat,
}

impl EngineView {
    /// Structural invariant: exactly two channels whose delay lines always
    /// have the same length, a cursor inside the buffer whenever one exists,
    /// and sizes small enough that all index arithmetic fits the machine.
    pub open spec fn wf(self) -> bool {
        &&& self.chans.len() == 2
        &&& self.chans[0].len() == self.chans[1].len()
        &&& self.chans[0].len() <= 100_100_000
        &&& if self.chans[0].len() == 0 {
            self.cursor == 0
        } else {
            self.cursor < self.chans[0].len()
        }
        &&& self.rate <= 100_000_000
    }

    /// The engine is ready for processing: well formed with non-empty buffers.
    pub open spec fn configured(self) -> bool {
        self.wf() && 1 <= self.chans[0].len()
    }

    /// Length shared by both channels' delay lines.
    pub open spec fn len(self) -> nat {
        self.chans[0].len()
    }
}

/// The state `configure` establishes for a given sample rate, whatever the
/// state before: zero-filled buffers of the computed length and a cursor at
/// zero.
pub open spec fn configured_view(sr: nat) -> EngineView {
    EngineView {
        chans: seq![zeros(buffer_len_spec(sr)), zeros(buffer_len_spec(sr))],
        cursor: 0,
        rate: sr,
    }
}

} // verus!
