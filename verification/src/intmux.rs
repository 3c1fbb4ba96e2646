//! Interrupt multiplexer (INTMUX0).
//!
//! The peripherals that have no NVIC line of their own reach the core through INTMUX0: four
//! channels, each ORing up to 32 sources into one NVIC line. All multiplexed peripherals share
//! [`CHANNEL`], so several drivers bind their handlers to the same line and each one checks its own
//! peripheral's flags.

use vstd::prelude::*;

use crate::bits;

verus! {

/// The INTMUX channel used for every multiplexed peripheral, NVIC interrupt `INTMUX0_0`.
pub const CHANNEL: usize = 0;

/// What happens to the multiplexer when a source is routed.
#[derive(Clone, Copy, Debug, PartialEq, Eq, Structural)]
pub struct Routing {
    /// Open the clock gate of INTMUX0 first.
    pub open_clock: bool,
    /// The new value of the channel's interrupt enable register.
    pub ier: u32,
}

/// Route `source` (the peripheral's input number on the multiplexer) to a channel whose interrupt
/// enable register reads `ier`; `clocked` tells whether the multiplexer was given its clock before.
///
/// The register cannot be read before the clock gate is open: pass its reset value, zero, then. To
/// be applied atomically.
///
/// The channel is left in its reset configuration: OR mode, interrupt request while any enabled
/// source is pending. The request clears once the source deasserts, so handlers need nothing
/// beyond servicing their peripheral.
pub fn enable_source(clocked: &mut bool, ier: u32, source: u8) -> (r: Routing)
    requires
        source < 32,
    ensures
        *final(clocked),
        r.open_clock == !*old(clocked),
        r.ier == ier | (1u32 << source),
        forall|n: u8| n < 32 ==> #[trigger] bits::bit32(r.ier, n) == (n == source || bits::bit32(ier, n)),
{
    let open_clock: bool = !*clocked;
    if open_clock {
        *clocked = true;
    }
    proof {
        assert forall|n: u8| n < 32 implies #[trigger] bits::bit32(ier | (1u32 << source), n) == (n
            == source || bits::bit32(ier, n)) by {
            bits::lemma_set32(ier, source, n);
        }
    }
    Routing { open_clock, ier: ier | (1u32 << source) }
}

/// Stop routing `source` without disturbing the other sources on the channel: the new value of the
/// channel's interrupt enable register.
pub fn disable_source(ier: u32, source: u8) -> (r: u32)
    requires
        source < 32,
    ensures
        r == ier & !(1u32 << source),
        forall|n: u8| n < 32 ==> #[trigger] bits::bit32(r, n) == (n != source && bits::bit32(ier, n)),
{
    proof {
        assert forall|n: u8| n < 32 implies #[trigger] bits::bit32(ier & !(1u32 << source), n) == (n
            != source && bits::bit32(ier, n)) by {
            bits::lemma_clear32(ier, source, n);
        }
    }
    ier & !(1u32 << source)
}

/// Whether an interrupt handler may touch its peripheral's registers.
///
/// On a shared line a handler runs for other peripherals' interrupts too, possibly before its own
/// instance exists; the registers bus-fault while the clock gate is closed.
pub fn accessible(source: Option<u8>, clock_enabled: bool) -> (r: bool)
    ensures
        r == (source is None || clock_enabled),
{
    source.is_none() || clock_enabled
}

/// Routing a source and then not routing it leaves every other source as it was, and the source
/// itself off.
pub proof fn law_sources_are_independent(ier: u32, source: u8, other: u8)
    requires
        source < 32,
        other < 32,
    ensures
        bits::bit32(ier | (1u32 << source), source),
        !bits::bit32((ier | (1u32 << source)) & !(1u32 << source), source),
        other != source ==> bits::bit32((ier | (1u32 << source)) & !(1u32 << source), other)
            == bits::bit32(ier, other),
{
    bits::lemma_set32(ier, source, source);
    bits::lemma_set32(ier, source, other);
    bits::lemma_clear32(ier | (1u32 << source), source, source);
    bits::lemma_clear32(ier | (1u32 << source), source, other);
}

} // verus!
