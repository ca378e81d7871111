//! Step timing: how long to wait before each sixteenth-note step, with swing.
use vstd::prelude::*;

verus! {

/// The tempo the timing works at: `bpm` held to 40..=280.
pub open spec fn clamped_bpm(bpm: u16) -> int {
    if bpm < 40 {
        40
    } else if bpm > 280 {
        280
    } else {
        bpm as int
    }
}

/// Length of a straight sixteenth note in whole milliseconds: 15000 / bpm.
pub open spec fn base_step_ms(bpm: u16) -> int {
    15000int / clamped_bpm(bpm)
}

/// How far swing moves a step from the straight grid: `swing` percent of the
/// base length, but never so far that the short step drops under 4 ms.
pub open spec fn swing_offset_ms(bpm: u16, swing: u8) -> int {
    let base = base_step_ms(bpm);
    let want = base * swing / 100;
    let cap = if base >= 4 { base - 4 } else { 0 };
    if want < cap { want } else { cap }
}

/// Duration in milliseconds to wait before firing step `next_step`: the base
/// length without swing; with swing, even steps are shortened and odd steps
/// lengthened by the swing offset.
pub open spec fn step_duration(next_step: u8, bpm: u16, swing: u8) -> int {
    let base = base_step_ms(bpm);
    if swing == 0 {
        base
    } else if next_step % 2 == 0 {
        base - swing_offset_ms(bpm, swing)
    } else {
        base + swing_offset_ms(bpm, swing)
    }
}

proof fn lemma_base_bounds(bpm: u16)
    ensures
        53 <= base_step_ms(bpm) <= 375,
{
    let b = clamped_bpm(bpm);
    assert(40 <= b <= 280);
    assert(15000int / b <= 375 && 15000int / b >= 53) by (nonlinear_arith)
        requires
            40 <= b <= 280,
    ;
}

proof fn lemma_offset_bounds(bpm: u16, swing: u8)
    ensures
        0 <= swing_offset_ms(bpm, swing) <= base_step_ms(bpm) - 4,
{
    lemma_base_bounds(bpm);
    let base = base_step_ms(bpm);
    assert(base * swing / 100 >= 0) by (nonlinear_arith)
        requires
            base >= 0,
            swing >= 0,
    ;
}

/// Duration in milliseconds to wait before firing `next_step`.
///
/// Each step is a 16th note, so at 4/4 time sixteen steps = one bar.
/// Base duration = 15_000 / bpm ms.  Swing creates alternating short/long
/// durations that sum to 2×base, preserving overall tempo.  Even-numbered
/// steps are shorter; odd steps are longer.
pub fn step_duration_ms(next_step: u8, bpm: u16, swing: u8) -> (r: u64)
    ensures
        r as int == step_duration(next_step, bpm, swing),
{
    proof {
        lemma_base_bounds(bpm);
        lemma_offset_bounds(bpm, swing);
    }
    let b: u64 = if bpm < 40 {
        40
    } else if bpm > 280 {
        280
    } else {
        bpm as u64
    };
    let base: u64 = 15_000u64 / b;
    if swing == 0 {
        return base;
    }
    assert(base * (swing as u64) <= 375 * 255) by (nonlinear_arith)
        requires
            base <= 375,
            swing <= 255,
    ;
    let want: u64 = base * (swing as u64) / 100;
    let cap: u64 = if base >= 4 { base - 4 } else { 0 };
    let offset: u64 = if want < cap { want } else { cap };
    if next_step % 2 == 0 {
        base - offset
    } else {
        base + offset
    }
}

/// Every step lasts between 4 and 750 ms, whatever the tempo and swing.
pub proof fn lemma_step_duration_positive(next_step: u8, bpm: u16, swing: u8)
    ensures
        4 <= step_duration(next_step, bpm, swing) <= 750,
{
    lemma_base_bounds(bpm);
    lemma_offset_bounds(bpm, swing);
}

/// Swing keeps the tempo: an even step and an odd step together always last
/// two straight steps, and the even one is never the longer of the two.
pub proof fn lemma_swing_pair_sums_to_two_base(even: u8, odd: u8, bpm: u16, swing: u8)
    requires
        even % 2 == 0,
        odd % 2 == 1,
    ensures
        step_duration(even, bpm, swing) + step_duration(odd, bpm, swing) == 2 * base_step_ms(bpm),
        step_duration(even, bpm, swing) <= base_step_ms(bpm) <= step_duration(odd, bpm, swing),
{
    lemma_offset_bounds(bpm, swing);
}

/// Without swing every step has the same, straight length.
pub proof fn lemma_straight_timing(s: u8, bpm: u16)
    ensures
        step_duration(s, bpm, 0) == base_step_ms(bpm),
{
}

/// Tempos outside 40..=280 time like the nearest end of that range.
pub proof fn lemma_tempo_clamped(s: u8, bpm: u16, swing: u8)
    ensures
        bpm < 40 ==> step_duration(s, bpm, swing) == step_duration(s, 40, swing),
        bpm > 280 ==> step_duration(s, bpm, swing) == step_duration(s, 280, swing),
{
}

/// Total length of steps `0..n`.
pub open spec fn steps_total(n: nat, bpm: u16, swing: u8) -> int
    decreases n,
{
    if n == 0 {
        0
    } else {
        steps_total((n - 1) as nat, bpm, swing) + step_duration((n - 1) as u8, bpm, swing)
    }
}

/// Any even number of steps (up to a bar of 16) lasts exactly as long with
/// swing as without: a bar is always sixteen straight steps long.
pub proof fn lemma_bar_length(k: nat, bpm: u16, swing: u8)
    requires
        k <= 8,
    ensures
        steps_total(2 * k, bpm, swing) == 2 * k * base_step_ms(bpm),
    decreases k,
{
    if k > 0 {
        let km1: nat = (k - 1) as nat;
        lemma_bar_length(km1, bpm, swing);
        let e = (2 * k - 2) as u8;
        let o = (2 * k - 1) as u8;
        assert(e % 2 == 0 && o % 2 == 1);
        lemma_swing_pair_sums_to_two_base(e, o, bpm, swing);
        let n2: nat = 2 * k;
        let n1: nat = (2 * k - 1) as nat;
        let n0: nat = 2 * km1;
        assert(n1 == (n2 - 1) as nat && n0 == (n1 - 1) as nat);
        assert(steps_total(n2, bpm, swing) == steps_total(n1, bpm, swing) + step_duration(
            o,
            bpm,
            swing,
        ));
        assert(steps_total(n1, bpm, swing) == steps_total(n0, bpm, swing) + step_duration(
            e,
            bpm,
            swing,
        ));
        let b = base_step_ms(bpm);
        assert(2 * k * b == 2 * km1 * b + 2 * b) by (nonlinear_arith)
            requires
                km1 == k - 1,
        ;
    } else {
        let b = base_step_ms(bpm);
        assert(2 * k * b == 0) by (nonlinear_arith)
            requires
                k == 0,
        ;
    }
}

} // verus!
