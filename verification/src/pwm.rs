//! Pulse-width modulation with the Timer/PWM Module (TPM) or FlexIO timers.

pub mod flexio;
pub mod tpm;
pub mod waveform;

use vstd::prelude::*;

use crate::clocks::FLEXIO_CLOCK_HZ;
use crate::clocks::TPM_CLOCK_HZ;
use crate::gpio::Bank;

verus! {

/// PWM output polarity.
#[derive(Clone, Copy, Debug, PartialEq, Eq, Structural)]
pub enum Polarity {
    /// The output is high during the active portion of the cycle.
    ActiveHigh,
    /// The output is low during the active portion of the cycle.
    ActiveLow,
}

/// Whether a PWM channel can be used.
#[derive(Clone, Copy, Debug, PartialEq, Eq, Structural)]
pub enum ChannelState {
    /// The instance has no such channel.
    Missing,
    /// The channel is not configured.
    Disabled,
    /// The channel is configured.
    Enabled,
}

/// The pin of an output.
#[derive(Clone, Copy, Debug, PartialEq, Eq, Structural)]
pub struct OutputPin {
    pub bank: Bank,
    pub pin: u8,
}

/// TPM prescaler selection (`SC[PS]`): the counter clock is divided by `2^PS`.
#[derive(Clone, Copy, Debug, PartialEq, Eq, Structural)]
#[allow(non_camel_case_types)]
pub enum Ps {
    _000,
    _001,
    _010,
    _011,
    _100,
    _101,
    _110,
    _111,
}

impl Ps {
    /// The field value as a number.
    pub open spec fn bits(self) -> int {
        match self {
            Ps::_000 => 0,
            Ps::_001 => 1,
            Ps::_010 => 2,
            Ps::_011 => 3,
            Ps::_100 => 4,
            Ps::_101 => 5,
            Ps::_110 => 6,
            Ps::_111 => 7,
        }
    }

    /// The field value.
    pub fn to_bits(self) -> (r: u8)
        ensures
            r == self.bits(),
    {
        match self {
            Ps::_000 => 0,
            Ps::_001 => 1,
            Ps::_010 => 2,
            Ps::_011 => 3,
            Ps::_100 => 4,
            Ps::_101 => 5,
            Ps::_110 => 6,
            Ps::_111 => 7,
        }
    }

    /// The prescaler with this field value; only the low three bits count.
    pub fn from_bits(bits: u8) -> (r: Ps)
        ensures
            r.bits() == bits % 8,
    {
        match bits % 8 {
            0 => Ps::_000,
            1 => Ps::_001,
            2 => Ps::_010,
            3 => Ps::_011,
            4 => Ps::_100,
            5 => Ps::_101,
            6 => Ps::_110,
            _ => Ps::_111,
        }
    }
}

/// What prescaler setting `ps` divides the counter clock by.
pub open spec fn divider(ps: int) -> int {
    vstd::arithmetic::power2::pow2(ps as nat) as int
}

/// Distance between the clock and what `request` asks of it when divided by `denominator`.
/// Divided by `denominator`, this is the distance of the two frequencies.
pub open spec fn mismatch(clock: int, request: int, denominator: int) -> int {
    if clock >= request * denominator {
        clock - request * denominator
    } else {
        request * denominator - clock
    }
}

/// Whether dividing by `d1` comes strictly closer to `request` than dividing by `d2`.
pub open spec fn closer(clock: int, request: int, d1: int, d2: int) -> bool {
    mismatch(clock, request, d1) * d2 < mismatch(clock, request, d2) * d1
}

/// Whether the setting `(ps1, ticks1)` is preferred to `(ps2, ticks2)`: the closer frequency,
/// then the longer period, then the smaller prescaler.
pub open spec fn preferred(request: int, ps1: int, ticks1: int, ps2: int, ticks2: int) -> bool {
    let d1 = divider(ps1) * ticks1;
    let d2 = divider(ps2) * ticks2;
    let clock = TPM_CLOCK_HZ as int;
    ||| closer(clock, request, d1, d2)
    ||| !closer(clock, request, d2, d1) && ticks1 > ticks2
    ||| !closer(clock, request, d2, d1) && ticks1 == ticks2 && ps1 < ps2
}

/// Whether `(ps, ticks)` is a setting the TPM can be given.
pub open spec fn representable(ps: int, ticks: int) -> bool {
    0 <= ps <= 7 && 2 <= ticks <= 65535
}

/// Whether no representable setting is preferred to `(ps, ticks)`.
pub open spec fn best_timing(request: int, ps: int, ticks: int) -> bool {
    &&& representable(ps, ticks)
    &&& forall|ps2: int, ticks2: int|
        representable(ps2, ticks2) ==> !#[trigger] preferred(request, ps2, ticks2, ps, ticks)
}

/// Being at least as close is transitive, strictly so where one of the steps is strict.
proof fn lemma_ratio_trans(e1: int, d1: int, e2: int, d2: int, e3: int, d3: int)
    requires
        e1 >= 0,
        e2 >= 0,
        e3 >= 0,
        d1 > 0,
        d2 > 0,
        d3 > 0,
        e1 * d2 <= e2 * d1,
        e2 * d3 <= e3 * d2,
    ensures
        e1 * d3 <= e3 * d1,
        e1 * d2 < e2 * d1 || e2 * d3 < e3 * d2 ==> e1 * d3 < e3 * d1,
{
    assert((e1 * d2) * d3 <= (e2 * d1) * d3) by (nonlinear_arith)
        requires
            e1 * d2 <= e2 * d1,
            d3 > 0,
    ;
    assert((e2 * d3) * d1 <= (e3 * d2) * d1) by (nonlinear_arith)
        requires
            e2 * d3 <= e3 * d2,
            d1 > 0,
    ;
    if e1 * d2 < e2 * d1 {
        assert((e1 * d2) * d3 < (e2 * d1) * d3) by (nonlinear_arith)
            requires
                e1 * d2 < e2 * d1,
                d3 > 0,
        ;
    }
    if e2 * d3 < e3 * d2 {
        assert((e2 * d3) * d1 < (e3 * d2) * d1) by (nonlinear_arith)
            requires
                e2 * d3 < e3 * d2,
                d1 > 0,
        ;
    }
    assert((e1 * d2) * d3 == (e1 * d3) * d2) by (nonlinear_arith);
    assert((e3 * d2) * d1 == (e3 * d1) * d2) by (nonlinear_arith);
    assert((e2 * d1) * d3 == (e2 * d3) * d1) by (nonlinear_arith);
    assert(e1 * d3 <= e3 * d1) by (nonlinear_arith)
        requires
            (e1 * d3) * d2 <= (e3 * d1) * d2,
            d2 > 0,
    ;
    if e1 * d2 < e2 * d1 || e2 * d3 < e3 * d2 {
        assert(e1 * d3 < e3 * d1) by (nonlinear_arith)
            requires
                (e1 * d3) * d2 < (e3 * d1) * d2,
                d2 > 0,
        ;
    }
}

proof fn lemma_divider(ps: int)
    requires
        0 <= ps <= 7,
    ensures
        1 <= divider(ps) <= 128,
        divider(ps) == 1u64 << (ps as u64),
{
    vstd::arithmetic::power2::lemma2_to64();
    assert(1u64 << 0u64 == 1 && 1u64 << 1u64 == 2 && 1u64 << 2u64 == 4 && 1u64 << 3u64 == 8 && 1u64
        << 4u64 == 16 && 1u64 << 5u64 == 32 && 1u64 << 6u64 == 64 && 1u64 << 7u64 == 128)
        by (bit_vector);
}

/// If neither `b` is preferred to `c` nor `a` to `b`, then `a` is not preferred to `c`.
proof fn lemma_preferred_trans(request: int, ps1: int, t1: int, ps2: int, t2: int, ps3: int, t3: int)
    requires
        request > 0,
        representable(ps1, t1),
        representable(ps2, t2),
        representable(ps3, t3),
        !preferred(request, ps1, t1, ps2, t2),
        !preferred(request, ps2, t2, ps3, t3),
    ensures
        !preferred(request, ps1, t1, ps3, t3),
{
    let clock = TPM_CLOCK_HZ as int;
    lemma_divider(ps1);
    lemma_divider(ps2);
    lemma_divider(ps3);
    let d1 = divider(ps1) * t1;
    let d2 = divider(ps2) * t2;
    let d3 = divider(ps3) * t3;
    assert(d1 > 0 && d2 > 0 && d3 > 0) by (nonlinear_arith)
        requires
            d1 == divider(ps1) * t1,
            d2 == divider(ps2) * t2,
            d3 == divider(ps3) * t3,
            divider(ps1) >= 1,
            divider(ps2) >= 1,
            divider(ps3) >= 1,
            t1 >= 2,
            t2 >= 2,
            t3 >= 2,
    ;
    lemma_ratio_trans(
        mismatch(clock, request, d3),
        d3,
        mismatch(clock, request, d2),
        d2,
        mismatch(clock, request, d1),
        d1,
    );
}

/// With the scaled request `scaled`, a period `t` is no better than `c` between it and the ideal
/// period.
proof fn lemma_towards_ideal(clock: int, request: int, div: int, t: int, c: int)
    requires
        clock > 0,
        request > 0,
        div > 0,
        t > 0,
        c > 0,
        (t <= c && request * div * c <= clock) || (c <= t && request * div * c >= clock),
    ensures
        mismatch(clock, request, div * c) * (div * t) <= mismatch(clock, request, div * t) * (div * c),
        t != c ==> closer(clock, request, div * c, div * t),
{
    let r = request * div;
    assert(request * (div * c) == r * c) by (nonlinear_arith)
        requires
            r == request * div,
    ;
    assert(request * (div * t) == r * t) by (nonlinear_arith)
        requires
            r == request * div,
    ;
    assert(r > 0) by (nonlinear_arith)
        requires
            r == request * div,
            request > 0,
            div > 0,
    ;
    let ec = mismatch(clock, request, div * c);
    let et = mismatch(clock, request, div * t);
    if t <= c && r * c <= clock {
        assert(r * t <= r * c) by (nonlinear_arith)
            requires
                t <= c,
                r > 0,
        ;
        assert(ec * t <= et * c && (t != c ==> ec * t < et * c)) by (nonlinear_arith)
            requires
                ec == clock - r * c,
                et == clock - r * t,
                t <= c,
                clock > 0,
        ;
    } else {
        assert(r * t >= r * c) by (nonlinear_arith)
            requires
                t >= c,
                r > 0,
        ;
        assert(ec * t <= et * c && (t != c ==> ec * t < et * c)) by (nonlinear_arith)
            requires
                ec == r * c - clock,
                et == r * t - clock,
                t >= c,
                clock > 0,
        ;
    }
    assert(ec * (div * t) == div * (ec * t)) by (nonlinear_arith);
    assert(et * (div * c) == div * (et * c)) by (nonlinear_arith);
    assert(div * (ec * t) <= div * (et * c) && (t != c ==> div * (ec * t) < div * (et * c)))
        by (nonlinear_arith)
        requires
            ec * t <= et * c,
            t != c ==> ec * t < et * c,
            div > 0,
    ;
}

/// A candidate period `c` for `t`, out of the two that `timing` looks at, is at least as good.
proof fn lemma_candidates(clock: int, request: int, div: int, lo: int, hi: int, t: int) -> (c: int)
    requires
        clock > 0,
        request > 0,
        div > 0,
        2 <= lo <= t <= hi,
    ensures
        ({
            let ideal = clock / (request * div);
            c == clamped(ideal, lo, hi) || c == clamped(ideal + 1, lo, hi)
        }),
        mismatch(clock, request, div * c) * (div * t) <= mismatch(clock, request, div * t) * (div * c),
        t != c ==> closer(clock, request, div * c, div * t),
{
    let r = request * div;
    assert(r > 0) by (nonlinear_arith)
        requires
            r == request * div,
            request > 0,
            div > 0,
    ;
    let ideal = clock / r;
    vstd::arithmetic::div_mod::lemma_fundamental_div_mod(clock, r);
    vstd::arithmetic::div_mod::lemma_mod_bound(clock, r);
    assert(r * (ideal + 1) == r * ideal + r) by (nonlinear_arith);
    let c = if t <= ideal {
        clamped(ideal, lo, hi)
    } else {
        clamped(ideal + 1, lo, hi)
    };
    if t <= ideal {
        assert(t <= c <= ideal);
        assert(r * c <= r * ideal) by (nonlinear_arith)
            requires
                c <= ideal,
                r > 0,
        ;
    } else {
        assert(ideal + 1 <= c <= t);
        assert(r * c >= r * (ideal + 1)) by (nonlinear_arith)
            requires
                c >= ideal + 1,
                r > 0,
        ;
    }
    lemma_towards_ideal(clock, request, div, t, c);
    c
}

/// `x` brought into the range `lo..=hi`.
pub open spec fn clamped(x: int, lo: int, hi: int) -> int {
    if x < lo {
        lo
    } else if x > hi {
        hi
    } else {
        x
    }
}

/// Whether `(ps, ticks)` is as good as every representable setting with a prescaler below `limit`.
spec fn best_below(request: int, limit: int, ps: int, ticks: int) -> bool {
    &&& representable(ps, ticks)
    &&& forall|ps2: int, ticks2: int|
        representable(ps2, ticks2) && ps2 < limit ==> !#[trigger] preferred(
            request,
            ps2,
            ticks2,
            ps,
            ticks,
        )
}

/// Looking at both candidates of one more prescaler extends the range that the best is taken from.
proof fn lemma_extend_best(request: int, limit: int, ps: int, ticks: int, old_ps: int, old_ticks: int)
    requires
        request > 0,
        0 <= limit <= 7,
        representable(ps, ticks),
        limit > 0 ==> best_below(request, limit, old_ps, old_ticks),
        limit > 0 ==> !preferred(request, old_ps, old_ticks, ps, ticks),
        ({
            let ideal = TPM_CLOCK_HZ as int / (request * divider(limit));
            &&& !preferred(request, limit, clamped(ideal, 2, 65535), ps, ticks)
            &&& !preferred(request, limit, clamped(ideal + 1, 2, 65535), ps, ticks)
        }),
    ensures
        best_below(request, limit + 1, ps, ticks),
{
    assert forall|ps2: int, ticks2: int| representable(ps2, ticks2) && ps2 < limit
        + 1 implies !#[trigger] preferred(request, ps2, ticks2, ps, ticks) by {
        if ps2 < limit {
            lemma_preferred_trans(request, ps2, ticks2, old_ps, old_ticks, ps, ticks);
        } else {
            lemma_divider(limit);
            let c = lemma_candidates(
                TPM_CLOCK_HZ as int,
                request,
                divider(limit),
                2,
                65535,
                ticks2,
            );
            assert(!preferred(request, limit, ticks2, limit, c));
            lemma_preferred_trans(request, limit, ticks2, limit, c, ps, ticks);
        }
    }
}

/// The prescaler and period that come closest to `requested`, and the frequency they give.
///
/// Errors are compared as exact rational numbers. For each prescaler only the two periods around
/// the ideal value can be best; the larger period wins when errors are equal, for greater
/// resolution.
pub fn timing(requested: u32) -> (r: (Ps, u16, u32))
    requires
        1 <= requested <= 2_000_000,
    ensures
        best_timing(requested as int, r.0.bits(), r.1 as int),
        r.2 == TPM_CLOCK_HZ as int / (divider(r.0.bits()) * r.1),
{
    let mut best: Option<(u64, u64, u16, u8)> = None;
    let mut ps_bits: u8 = 0;
    while ps_bits <= 7
        invariant
            1 <= requested <= 2_000_000,
            0 <= ps_bits <= 8,
            ps_bits == 0 <==> best is None,
            best matches Some(b) ==> {
                &&& b.1 == divider(b.3 as int) * b.2
                &&& b.0 == mismatch(TPM_CLOCK_HZ as int, requested as int, b.1 as int)
                &&& b.3 < ps_bits
                &&& best_below(requested as int, ps_bits as int, b.3 as int, b.2 as int)
            },
        decreases 8 - ps_bits,
    {
        let div: u64 = 1u64 << ps_bits;
        proof {
            lemma_divider(ps_bits as int);
        }
        let ghost before = best;
        assert(requested * div <= 2_000_000 * 128) by (nonlinear_arith)
            requires
                requested <= 2_000_000,
                div <= 128,
        ;
        assert(requested * div > 0) by (nonlinear_arith)
            requires
                requested > 0,
                div > 0,
        ;
        let target_period: u64 = TPM_CLOCK_HZ as u64 / (requested as u64 * div);
        let mut which: u64 = 0;
        while which < 2
            invariant
                1 <= requested <= 2_000_000,
                0 <= ps_bits <= 7,
                which <= 2,
                div == divider(ps_bits as int),
                1 <= div <= 128,
                target_period == TPM_CLOCK_HZ as int / (requested * div),
                target_period <= 4_000_000,
                ps_bits == 0 && which == 0 <==> best is None,
                ps_bits == 0 <==> before is None,
                best matches Some(b) ==> {
                    &&& b.1 == divider(b.3 as int) * b.2
                    &&& b.0 == mismatch(TPM_CLOCK_HZ as int, requested as int, b.1 as int)
                    &&& b.3 <= ps_bits
                    &&& representable(b.3 as int, b.2 as int)
                    &&& before matches Some(a) ==> !preferred(
                        requested as int,
                        a.3 as int,
                        a.2 as int,
                        b.3 as int,
                        b.2 as int,
                    )
                    &&& which > 0 ==> !preferred(
                        requested as int,
                        ps_bits as int,
                        clamped(target_period as int, 2, 65535),
                        b.3 as int,
                        b.2 as int,
                    )
                    &&& which > 1 ==> !preferred(
                        requested as int,
                        ps_bits as int,
                        clamped(target_period + 1, 2, 65535),
                        b.3 as int,
                        b.2 as int,
                    )
                },
                before matches Some(a) ==> representable(a.3 as int, a.2 as int),
            decreases 2 - which,
        {
            let wanted: u64 = target_period + which;
            let ticks: u64 = if wanted < 2 {
                2
            } else if wanted > 65535 {
                65535
            } else {
                wanted
            };
            assert(div * ticks <= 128 * 65535) by (nonlinear_arith)
                requires
                    div <= 128,
                    ticks <= 65535,
            ;
            assert(div * ticks >= 2) by (nonlinear_arith)
                requires
                    div >= 1,
                    ticks >= 2,
            ;
            let denominator: u64 = div * ticks;
            assert(requested * denominator <= 2_000_000 * (128 * 65535)) by (nonlinear_arith)
                requires
                    requested <= 2_000_000,
                    denominator <= 128 * 65535,
            ;
            let target: u64 = requested as u64 * denominator;
            let clock: u64 = TPM_CLOCK_HZ as u64;
            let error: u64 = if clock >= target {
                clock - target
            } else {
                target - clock
            };
            let better: bool = match best {
                None => true,
                Some((best_error, best_denominator, best_ticks, best_ps)) => {
                    proof {
                        lemma_divider(best_ps as int);
                        assert(best_denominator <= 128 * 65535) by (nonlinear_arith)
                            requires
                                best_denominator == divider(best_ps as int) * best_ticks,
                                1 <= divider(best_ps as int) <= 128,
                                best_ticks <= 65535,
                        ;
                        assert(0 <= requested * best_denominator <= 2_000_000 * (128 * 65535))
                            by (nonlinear_arith)
                            requires
                                requested <= 2_000_000,
                                best_denominator <= 128 * 65535,
                        ;
                        assert(error * best_denominator <= 0xffff_ffff_ffff_ffff * 0xffff_ffff
                            && best_error * denominator <= 0xffff_ffff_ffff_ffff * 0xffff_ffff)
                            by (nonlinear_arith)
                            requires
                                error <= 0xffff_ffff_ffff_ffff,
                                best_error <= 0xffff_ffff_ffff_ffff,
                                best_denominator <= 0xffff_ffff,
                                denominator <= 0xffff_ffff,
                        ;
                        assert(0 <= error * best_denominator && 0 <= best_error * denominator)
                            by (nonlinear_arith)
                            requires
                                error >= 0,
                                best_error >= 0,
                                best_denominator >= 0,
                                denominator >= 0,
                        ;
                    }
                    let new_side: u128 = error as u128 * best_denominator as u128;
                    let old_side: u128 = best_error as u128 * denominator as u128;
                    new_side < old_side || (new_side == old_side && ticks > best_ticks as u64)
                },
            };
            proof {
                if let Some(b) = best {
                    assert(better <==> preferred(
                        requested as int,
                        ps_bits as int,
                        ticks as int,
                        b.3 as int,
                        b.2 as int,
                    ));
                    if better {
                        // What the previous best was not beaten by does not beat the new one.
                        assert(!preferred(
                            requested as int,
                            b.3 as int,
                            b.2 as int,
                            ps_bits as int,
                            ticks as int,
                        ));
                        if let Some(a) = before {
                            lemma_preferred_trans(
                                requested as int,
                                a.3 as int,
                                a.2 as int,
                                b.3 as int,
                                b.2 as int,
                                ps_bits as int,
                                ticks as int,
                            );
                        }
                        if which > 0 {
                            lemma_preferred_trans(
                                requested as int,
                                ps_bits as int,
                                clamped(target_period as int, 2, 65535),
                                b.3 as int,
                                b.2 as int,
                                ps_bits as int,
                                ticks as int,
                            );
                        }
                    }
                }
                assert(!preferred(
                    requested as int,
                    ps_bits as int,
                    ticks as int,
                    ps_bits as int,
                    ticks as int,
                ));
            }
            if better {
                best = Some((error, denominator, ticks as u16, ps_bits));
            }
            which = which + 1;
        }
        proof {
            let b = best->Some_0;
            let (old_ps, old_ticks) = match before {
                Some(a) => (a.3 as int, a.2 as int),
                None => (0int, 0int),
            };
            lemma_extend_best(
                requested as int,
                ps_bits as int,
                b.3 as int,
                b.2 as int,
                old_ps,
                old_ticks,
            );
        }
        ps_bits = ps_bits + 1;
    }
    let (_, denominator, ticks, ps): (u64, u64, u16, u8) = best.unwrap();
    proof {
        lemma_divider(ps as int);
        assert(2 <= denominator <= 128 * 65535) by (nonlinear_arith)
            requires
                denominator == divider(ps as int) * ticks,
                1 <= divider(ps as int) <= 128,
                2 <= ticks <= 65535,
        ;
    }
    (Ps::from_bits(ps), ticks, TPM_CLOCK_HZ / denominator as u32)
}

/// Whether a FlexIO period of `t1` ticks is preferred to one of `t2`: the closer frequency, then
/// the longer period.
pub open spec fn flexio_preferred(request: int, t1: int, t2: int) -> bool {
    let clock = FLEXIO_CLOCK_HZ as int;
    closer(clock, request, t1, t2) || (!closer(clock, request, t2, t1) && t1 > t2)
}

/// Whether no period of 2 to 256 ticks is preferred to `ticks`.
pub open spec fn best_flexio_period(request: int, ticks: int) -> bool {
    &&& 2 <= ticks <= 256
    &&& forall|t: int| 2 <= t <= 256 ==> !#[trigger] flexio_preferred(request, t, ticks)
}

proof fn lemma_flexio_trans(request: int, t1: int, t2: int, t3: int)
    requires
        request > 0,
        t1 > 0,
        t2 > 0,
        t3 > 0,
        !flexio_preferred(request, t1, t2),
        !flexio_preferred(request, t2, t3),
    ensures
        !flexio_preferred(request, t1, t3),
{
    let clock = FLEXIO_CLOCK_HZ as int;
    lemma_ratio_trans(
        mismatch(clock, request, t3),
        t3,
        mismatch(clock, request, t2),
        t2,
        mismatch(clock, request, t1),
        t1,
    );
}

/// The FlexIO period that comes closest to `requested`, and the frequency it gives. The dual
/// counters have eight bits each, so a period is 2 to 256 ticks.
pub fn flexio_timing(requested: u32) -> (r: (u16, u32))
    requires
        15_625 <= requested <= 2_000_000,
    ensures
        best_flexio_period(requested as int, r.0 as int),
        r.1 == FLEXIO_CLOCK_HZ as int / r.0 as int,
{
    let floor: u32 = FLEXIO_CLOCK_HZ / requested;
    let mut best: Option<(u64, u16)> = None;
    let mut which: u32 = 0;
    while which < 2
        invariant
            15_625 <= requested <= 2_000_000,
            which <= 2,
            floor == FLEXIO_CLOCK_HZ as int / requested as int,
            which == 0 <==> best is None,
            best matches Some(b) ==> {
                &&& 2 <= b.1 <= 256
                &&& b.0 == mismatch(FLEXIO_CLOCK_HZ as int, requested as int, b.1 as int)
                &&& !flexio_preferred(requested as int, clamped(floor as int, 2, 256), b.1 as int)
                &&& which > 1 ==> !flexio_preferred(
                    requested as int,
                    clamped(floor + 1, 2, 256),
                    b.1 as int,
                )
            },
        decreases 2 - which,
    {
        assert(floor <= 256) by (nonlinear_arith)
            requires
                floor == 4_000_000int / requested as int,
                requested >= 15_625,
        ;
        let wanted: u32 = floor + which;
        let ticks: u16 = if wanted < 2 {
            2
        } else if wanted > 256 {
            256
        } else {
            wanted as u16
        };
        let clock: u64 = FLEXIO_CLOCK_HZ as u64;
        assert(0 <= requested * ticks <= 2_000_000 * 256) by (nonlinear_arith)
            requires
                requested <= 2_000_000,
                ticks <= 256,
        ;
        let target: u64 = requested as u64 * ticks as u64;
        let error: u64 = if clock >= target {
            clock - target
        } else {
            target - clock
        };
        let better: bool = match best {
            None => true,
            Some((best_error, best_ticks)) => {
                assert(0 <= requested * best_ticks <= 2_000_000 * 256) by (nonlinear_arith)
                    requires
                        requested <= 2_000_000,
                        best_ticks <= 256,
                ;
                assert(error * best_ticks <= 512_000_000 * 256 && best_error * ticks <= 512_000_000
                    * 256) by (nonlinear_arith)
                    requires
                        error <= 512_000_000,
                        best_error <= 512_000_000,
                        best_ticks <= 256,
                        ticks <= 256,
                ;
                let new_side: u64 = error * best_ticks as u64;
                let old_side: u64 = best_error * ticks as u64;
                new_side < old_side || (new_side == old_side && ticks > best_ticks)
            },
        };
        proof {
            if let Some(b) = best {
                assert(better <==> flexio_preferred(requested as int, ticks as int, b.1 as int));
                if better {
                    assert(!flexio_preferred(requested as int, b.1 as int, ticks as int));
                    lemma_flexio_trans(
                        requested as int,
                        clamped(floor as int, 2, 256),
                        b.1 as int,
                        ticks as int,
                    );
                }
            }
            assert(!flexio_preferred(requested as int, ticks as int, ticks as int));
        }
        if better {
            best = Some((error, ticks));
        }
        which = which + 1;
    }
    let (_, ticks): (u64, u16) = best.unwrap();
    proof {
        assert forall|t: int| 2 <= t <= 256 implies !#[trigger] flexio_preferred(
            requested as int,
            t,
            ticks as int,
        ) by {
            assert(requested as int * 1 == requested);
            let c = lemma_candidates(FLEXIO_CLOCK_HZ as int, requested as int, 1, 2, 256, t);
            assert(1 * c == c && 1 * t == t);
            assert(!flexio_preferred(requested as int, t, c));
            lemma_flexio_trans(requested as int, t, c, ticks as int);
        }
    }
    (ticks, FLEXIO_CLOCK_HZ / ticks as u32)
}

/// A frequency that the TPM can make exactly is made exactly, with the longest period that does so
/// and so the greatest resolution.
pub proof fn law_exact_frequencies(request: int, ps: int, ticks: int, ps2: int, ticks2: int)
    requires
        request > 0,
        best_timing(request, ps, ticks),
        representable(ps2, ticks2),
        request * (divider(ps2) * ticks2) == TPM_CLOCK_HZ,
    ensures
        request * (divider(ps) * ticks) == TPM_CLOCK_HZ,
        ticks2 <= ticks,
{
    let clock = TPM_CLOCK_HZ as int;
    lemma_divider(ps);
    lemma_divider(ps2);
    let d = divider(ps) * ticks;
    let d2 = divider(ps2) * ticks2;
    assert(d > 0 && d2 > 0) by (nonlinear_arith)
        requires
            d == divider(ps) * ticks,
            d2 == divider(ps2) * ticks2,
            divider(ps) >= 1,
            divider(ps2) >= 1,
            ticks >= 2,
            ticks2 >= 2,
    ;
    assert(!preferred(request, ps2, ticks2, ps, ticks));
    let e = mismatch(clock, request, d);
    assert(mismatch(clock, request, d2) == 0);
    assert(0 * d == 0);
    assert(e == 0) by (nonlinear_arith)
        requires
            e >= 0,
            d2 > 0,
            !(0 < e * d2),
    ;
    assert(e * d2 == 0) by (nonlinear_arith)
        requires
            e == 0,
    ;
}

/// No two settings are the best for a frequency.
pub proof fn law_best_timing_is_unique(request: int, ps: int, ticks: int, ps2: int, ticks2: int)
    requires
        best_timing(request, ps, ticks),
        best_timing(request, ps2, ticks2),
    ensures
        ps == ps2,
        ticks == ticks2,
{
    assert(!preferred(request, ps2, ticks2, ps, ticks));
    assert(!preferred(request, ps, ticks, ps2, ticks2));
}

/// No two periods are the best for a FlexIO frequency.
pub proof fn law_best_flexio_period_is_unique(request: int, ticks: int, ticks2: int)
    requires
        best_flexio_period(request, ticks),
        best_flexio_period(request, ticks2),
    ensures
        ticks == ticks2,
{
    assert(!flexio_preferred(request, ticks2, ticks));
    assert(!flexio_preferred(request, ticks, ticks2));
}

} // verus!
