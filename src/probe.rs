use vstd::arithmetic::div_mod::{lemma_fundamental_div_mod, lemma_mod_mod};
use vstd::prelude::*;

verus! {

/// Extended memory assumed present above the BIOS-reported low memory, in KB
/// (128 MiB); it is not detected.
pub const EXTENDED_MEMORY_KB: u32 = 131072;

/// Timer ticks per whole second, rounding the legacy timer's rate down.
pub const TICKS_PER_SECOND: u32 = 18;

/// Total memory in KB given the BIOS-reported low memory `base_kb`.
pub fn detect_memory_kb(base_kb: u16) -> (r: u32)
    ensures
        r == base_kb + 131072,
{
    base_kb as u32 + EXTENDED_MEMORY_KB
}

/// Whole seconds of uptime given the timer's tick count; the remainder is
/// dropped.
pub fn get_uptime_seconds(ticks: u32) -> (r: u32)
    ensures
        r == ticks / 18,
{
    ticks / TICKS_PER_SECOND
}

/// Splits a count of seconds into hours, minutes below an hour and seconds
/// below a minute.
pub fn split_uptime(uptime: u32) -> (r: (u32, u32, u32))
    ensures
        r == (uptime / 3600, (uptime % 3600) / 60, uptime % 60),
{
    (uptime / 3600, (uptime % 3600) / 60, uptime % 60)
}

/// Hours, minutes and seconds of a split uptime add back up to it, and the
/// minutes and seconds stay below sixty.
pub proof fn lemma_split_uptime_adds_up(uptime: nat)
    ensures
        (uptime / 3600) * 3600 + ((uptime % 3600) / 60) * 60 + uptime % 60 == uptime,
        (uptime % 3600) / 60 < 60,
        uptime % 60 < 60,
{
    let h = uptime / 3600;
    let r = uptime % 3600;
    lemma_fundamental_div_mod(uptime as int, 3600);
    lemma_fundamental_div_mod(r as int, 60);
    lemma_mod_mod(uptime as int, 60, 60);
    assert(r / 60 < 60) by (nonlinear_arith)
        requires
            r < 3600,
            0 <= r,
    ;
}

} // verus!
