//! Properties of the delay engine, proved once and for all over the model.
//!
//! Each public lemma states one guarantee of the engine: configuring is
//! idempotent, an impulse comes back exactly the configured number of
//! samples later, the dry/wet control is the linear crossfade of the pure
//! dry and pure wet outputs, a constant delay echoes the input with no
//! wraparound artifacts however long the block runs, and a zero delay
//! degenerates to pass-through.

use vstd::arithmetic::div_mod::{
    lemma_add_mod_noop, lemma_div_multiples_vanish, lemma_mod_add_multiples_vanish,
    lemma_mod_bound, lemma_mod_equivalence, lemma_small_mod,
};
use vstd::prelude::*;

use crate::model::{
    buf_after, configured_view, delay_samples_spec, mix_spec, out_at, read_index_spec, zeros,
    EngineView,
};

verus! {

/// A fully dry crossfade returns the dry sample unchanged.
pub proof fn lemma_mix_full_dry(dry: int, wet: int)
    ensures
        mix_spec(0, dry, wet) == dry,
{
    lemma_div_multiples_vanish(dry, 1000);
    assert((1000 - 0) * dry + 0 * wet == 1000 * dry);
}

/// A fully wet crossfade returns the delayed sample unchanged.
pub proof fn lemma_mix_full_wet(dry: int, wet: int)
    ensures
        mix_spec(1000, dry, wet) == wet,
{
    lemma_div_multiples_vanish(wet, 1000);
    assert((1000 - 1000) * dry + 1000 * wet == 1000 * wet);
}

/// Writing a block of frames never changes a delay line's length.
pub proof fn lemma_buf_after_len(buf: Seq<i32>, c0: nat, ins: Seq<i32>, n: nat)
    requires
        1 <= buf.len(),
    ensures
        buf_after(buf, c0, ins, n).len() == buf.len(),
    decreases n,
{
    if n > 0 {
        lemma_buf_after_len(buf, c0, ins, (n - 1) as nat);
        lemma_mod_bound(c0 + n - 1, buf.len() as int);
    }
}

/// The delay in samples always fits inside the delay line.
pub proof fn lemma_delay_samples_lt(dt_us: nat, sr: nat, len: nat)
    requires
        1 <= len,
    ensures
        delay_samples_spec(dt_us, sr, len) < len,
{
}

/// Configuring is idempotent: the state `configure` leaves behind depends on
/// the sample rate alone, so configuring twice with the same rate gives the
/// same state both times — in particular the same buffer length, and a
/// cursor reset to zero each time.
pub proof fn lemma_configure_idempotent(first: EngineView, second: EngineView, sr: nat)
    requires
        first == configured_view(sr),
        second == configured_view(sr),
    ensures
        first == second,
        first.len() == second.len(),
        first.cursor == 0,
        second.cursor == 0,
{
}

/// In a freshly cleared delay line written from cursor zero, position `k`
/// holds the input of frame `k` once that frame has been written, and zero
/// before.
pub proof fn lemma_buf_after_zeros(ins: Seq<i32>, len: nat, n: nat, k: int)
    requires
        1 <= len,
        n <= ins.len(),
        ins.len() <= len,
        0 <= k < len,
    ensures
        buf_after(zeros(len), 0, ins, n)[k] == if k < n {
            ins[k]
        } else {
            0i32
        },
    decreases n,
{
    if n > 0 {
        lemma_buf_after_zeros(ins, len, (n - 1) as nat, k);
        lemma_small_mod((n - 1) as nat, len);
        lemma_buf_after_len(zeros(len), 0, ins, (n - 1) as nat);
    }
}

/// Delay accuracy: from a freshly configured engine, at full wet mix and a
/// constant delay time, an impulse of height `amp` at frame zero produces
/// exactly `amp` at the frame equal to the delay in samples, and zero at
/// every other frame of the block (the block being no longer than the delay
/// line).
pub proof fn lemma_delay_accuracy(
    len: nat,
    sr: nat,
    ins: Seq<i32>,
    dts: Seq<u32>,
    ws: Seq<u32>,
    amp: i32,
    i: nat,
)
    requires
        1 <= len,
        ins.len() <= len,
        dts.len() == ins.len(),
        ws.len() == ins.len(),
        i < ins.len(),
        ins[0] == amp,
        forall|k: int| 1 <= k < ins.len() ==> ins[k] == 0i32,
        forall|k: int| 0 <= k < dts.len() ==> #[trigger] dts[k] == dts[0],
        forall|k: int| 0 <= k < ws.len() ==> ws[k] == 1000u32,
    ensures
        out_at(zeros(len), 0, sr, ins, dts, ws, i) == if i == delay_samples_spec(
            dts[0] as nat,
            sr,
            len,
        ) {
            amp as int
        } else {
            0int
        },
{
    let ds: nat = delay_samples_spec(dts[i as int] as nat, sr, len);
    lemma_delay_samples_lt(dts[i as int] as nat, sr, len);
    lemma_small_mod(i, len);
    let cur: nat = (0 + i) % len;
    let rp: int = read_index_spec(cur, len, ds) as int;
    if i >= ds {
        lemma_mod_add_multiples_vanish(i - ds, len as int);
        lemma_small_mod((i - ds) as nat, len);
        assert(rp == i - ds);
    } else {
        lemma_small_mod((i + len - ds) as nat, len);
        assert(rp == i + len - ds);
        assert(rp >= i + 1);
    }
    lemma_buf_after_zeros(ins, len, (i + 1) as nat, rp);
    let delayed: i32 = buf_after(zeros(len), 0, ins, (i + 1) as nat)[rp];
    lemma_mix_full_wet(ins[i as int] as int, delayed as int);
}

/// Dry/wet linearity: at any wet weight `w`, the output sample is exactly
/// the crossfade, at weight `w`, of the pure dry output (weight zero, which
/// is the input itself) and the pure wet output (weight one thousand, which
/// is the delayed sample); the delay lines evolve identically in all three
/// runs, since they store only dry input.
pub proof fn lemma_dry_wet_linearity(
    buf: Seq<i32>,
    c0: nat,
    sr: nat,
    ins: Seq<i32>,
    dts: Seq<u32>,
    ws: Seq<u32>,
    ws_dry: Seq<u32>,
    ws_wet: Seq<u32>,
    i: nat,
)
    requires
        1 <= buf.len(),
        c0 < buf.len(),
        i < ins.len(),
        dts.len() == ins.len(),
        ws.len() == ins.len(),
        ws_dry.len() == ins.len(),
        ws_wet.len() == ins.len(),
        ws[i as int] <= 1000,
        ws_dry[i as int] == 0u32,
        ws_wet[i as int] == 1000u32,
    ensures
        out_at(buf, c0, sr, ins, dts, ws, i) == mix_spec(
            ws[i as int] as int,
            out_at(buf, c0, sr, ins, dts, ws_dry, i),
            out_at(buf, c0, sr, ins, dts, ws_wet, i),
        ),
{
    let len: nat = buf.len();
    let ds: nat = delay_samples_spec(dts[i as int] as nat, sr, len);
    let cur: nat = (c0 + i) % len;
    let delayed: i32 = buf_after(buf, c0, ins, (i + 1) as nat)[read_index_spec(
        cur,
        len,
        ds,
    ) as int];
    lemma_mix_full_dry(ins[i as int] as int, delayed as int);
    lemma_mix_full_wet(ins[i as int] as int, delayed as int);
}

/// Within a window of at most one full turn of the delay line, the sample a
/// frame wrote is still in place: every later frame of the window writes at
/// a different position.
pub proof fn lemma_buf_after_recent(buf: Seq<i32>, c0: nat, ins: Seq<i32>, n: nat, j: nat)
    requires
        1 <= buf.len(),
        j < n,
        n <= ins.len(),
        n - j <= buf.len(),
    ensures
        buf_after(buf, c0, ins, n)[((c0 + j) % buf.len()) as int] == ins[j as int],
    decreases n,
{
    let len: nat = buf.len();
    lemma_mod_bound((c0 + j) as int, len as int);
    lemma_buf_after_len(buf, c0, ins, (n - 1) as nat);
    lemma_mod_bound((c0 + n - 1) as int, len as int);
    if n == j + 1 {
    } else {
        lemma_buf_after_recent(buf, c0, ins, (n - 1) as nat, j);
        let delta: nat = (n - 1 - j) as nat;
        assert((c0 + n - 1) % (len as int) != (c0 + j) as int % (len as int)) by {
            if (c0 + n - 1) % (len as int) == (c0 + j) as int % (len as int) {
                lemma_mod_equivalence((c0 + n - 1) as int, (c0 + j) as int, len as int);
                lemma_small_mod(delta, len);
                assert(false);
            }
        };
    }
}

/// Steady-state echo: at full wet mix, a frame at least `ds` frames into the
/// block (where `ds` is that frame's delay in samples) carries exactly the
/// input `ds` frames before it — whatever the delay line held at the start
/// of the block, wherever the cursor stood, and however long the block runs.
pub proof fn lemma_constant_delay_echo(
    buf: Seq<i32>,
    c0: nat,
    sr: nat,
    ins: Seq<i32>,
    dts: Seq<u32>,
    ws: Seq<u32>,
    i: nat,
)
    requires
        1 <= buf.len(),
        c0 < buf.len(),
        i < ins.len(),
        dts.len() == ins.len(),
        ws.len() == ins.len(),
        ws[i as int] == 1000u32,
        delay_samples_spec(dts[i as int] as nat, sr, buf.len()) <= i,
    ensures
        out_at(buf, c0, sr, ins, dts, ws, i) == ins[i - delay_samples_spec(
            dts[i as int] as nat,
            sr,
            buf.len(),
        )] as int,
{
    let len: nat = buf.len();
    let ds: nat = delay_samples_spec(dts[i as int] as nat, sr, len);
    lemma_delay_samples_lt(dts[i as int] as nat, sr, len);
    let cur: nat = (c0 + i) % len;
    lemma_mod_bound((c0 + i) as int, len as int);
    if ds == 0 {
        lemma_mod_add_multiples_vanish(cur as int, len as int);
        lemma_small_mod(cur, len);
    } else {
        lemma_small_mod((len - ds) as nat, len);
        lemma_add_mod_noop((c0 + i) as int, (len - ds) as int, len as int);
        lemma_mod_add_multiples_vanish(c0 + i - ds, len as int);
    }
    assert(read_index_spec(cur, len, ds) as int == (c0 + (i - ds)) % (len as int));
    lemma_buf_after_recent(buf, c0, ins, (i + 1) as nat, (i - ds) as nat);
    lemma_mix_full_wet(ins[i as int] as int, ins[i - ds] as int);
}

/// Zero-delay edge case: when the delay time resolves to zero samples, the
/// delayed sample read back is the dry sample just written, so at full wet
/// mix the output equals the input frame for frame.
pub proof fn lemma_zero_delay_passthrough(
    buf: Seq<i32>,
    c0: nat,
    sr: nat,
    ins: Seq<i32>,
    dts: Seq<u32>,
    ws: Seq<u32>,
    i: nat,
)
    requires
        1 <= buf.len(),
        c0 < buf.len(),
        i < ins.len(),
        dts.len() == ins.len(),
        ws.len() == ins.len(),
        delay_samples_spec(dts[i as int] as nat, sr, buf.len()) == 0,
        ws[i as int] == 1000u32,
    ensures
        out_at(buf, c0, sr, ins, dts, ws, i) == ins[i as int] as int,
{
    let len: nat = buf.len();
    let cur: nat = (c0 + i) % len;
    lemma_mod_bound((c0 + i) as int, len as int);
    lemma_mod_add_multiples_vanish(cur as int, len as int);
    lemma_small_mod(cur, len);
    lemma_buf_after_len(buf, c0, ins, i);
    lemma_mix_full_wet(ins[i as int] as int, ins[i as int] as int);
}

} // verus!
