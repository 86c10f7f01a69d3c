//! Mode sequencing: drive the peripheral through disable, enable, soft
//! reset, and the freeze window in which the mailbox table may be
//! initialized.
//!
//! On hardware each transition is a register write followed by a poll of
//! an acknowledgment bit; the model peripheral acknowledges with the
//! write itself, so each function checks the acknowledgment it would
//! otherwise wait for.

use vstd::prelude::*;
use crate::bits::{nth_bit, lemma_one_bit_mask, lemma_or_one_bit, lemma_and_not};
use crate::peripheral::{
    frz_bit, frzack_bit, halt_bit, lpmack_bit, maxmb_field, mdis_bit, softrst_bit, CanPeripheral,
};

verus! {

proof fn lemma_low_bits(a: u32)
    by (bit_vector)
    ensures
        (a & !(1u32 << 31)) & 0x7f == a & 0x7f,
        (a | (1u32 << 31)) & 0x7f == a & 0x7f,
        (a | (1u32 << 25)) & 0x7f == a & 0x7f,
        ((a | (1u32 << 30)) | (1u32 << 28)) & 0x7f == a & 0x7f,
        (a & !((1u32 << 30) | (1u32 << 28))) & 0x7f == a & 0x7f,
{
}

/// Clear the low-power request and wait until the module has left
/// low-power mode.
pub fn enable(p: &mut CanPeripheral)
    ensures
        !mdis_bit(final(p).mcr),
        !lpmack_bit(final(p).mcr),
        !softrst_bit(final(p).mcr),
        frz_bit(final(p).mcr) == frz_bit(old(p).mcr),
        halt_bit(final(p).mcr) == halt_bit(old(p).mcr),
        frzack_bit(final(p).mcr) == (frz_bit(old(p).mcr) && halt_bit(old(p).mcr)),
        forall|j: u32|
            j < 32 && j != 31 && j != 20 && j != 24 && j != 25 ==> #[trigger] nth_bit(
                final(p).mcr,
                j,
            ) == nth_bit(old(p).mcr, j),
        maxmb_field(final(p).mcr) == maxmb_field(old(p).mcr),
        final(p).ctrl1 == old(p).ctrl1,
        final(p).iflag1 == old(p).iflag1,
        final(p).rxmgmask == old(p).rxmgmask,
        final(p).fdctrl == old(p).fdctrl,
        final(p).timer == old(p).timer,
        final(p).ram == old(p).ram,
{
    let v = p.mcr & !(1u32 << 31);
    proof {
        lemma_low_bits(p.mcr);
        lemma_and_not(p.mcr, 1u32 << 31);
        lemma_one_bit_mask(31);
    }
    p.write_mcr(v);
    proof {
        assert forall|j: u32|
            j < 32 && j != 31 && j != 20 && j != 24 && j != 25 implies #[trigger] nth_bit(
            p.mcr,
            j,
        ) == nth_bit(old(p).mcr, j) by {
            assert(nth_bit(p.mcr, j) == nth_bit(v, j));
            assert(nth_bit(v, j) == nth_bit(old(p).mcr, j));
        };
        assert(!nth_bit(v, 31));
        assert(nth_bit(p.mcr, 28) == nth_bit(v, 28) && nth_bit(v, 28) == nth_bit(old(p).mcr, 28));
        assert(nth_bit(p.mcr, 30) == nth_bit(v, 30) && nth_bit(v, 30) == nth_bit(old(p).mcr, 30));
    }
}

/// Request low-power mode and wait until the module has entered it,
/// which also waits out any transmission or reception in progress.
pub fn disable(p: &mut CanPeripheral)
    ensures
        mdis_bit(final(p).mcr),
        lpmack_bit(final(p).mcr),
        !softrst_bit(final(p).mcr),
        !frzack_bit(final(p).mcr),
        frz_bit(final(p).mcr) == frz_bit(old(p).mcr),
        halt_bit(final(p).mcr) == halt_bit(old(p).mcr),
        forall|j: u32|
            j < 32 && j != 31 && j != 20 && j != 24 && j != 25 ==> #[trigger] nth_bit(
                final(p).mcr,
                j,
            ) == nth_bit(old(p).mcr, j),
        maxmb_field(final(p).mcr) == maxmb_field(old(p).mcr),
        final(p).ctrl1 == old(p).ctrl1,
        final(p).iflag1 == old(p).iflag1,
        final(p).rxmgmask == old(p).rxmgmask,
        final(p).fdctrl == old(p).fdctrl,
        final(p).timer == old(p).timer,
        final(p).ram == old(p).ram,
{
    let v = p.mcr | (1u32 << 31);
    proof {
        lemma_low_bits(p.mcr);
        lemma_or_one_bit(p.mcr, 31);
        lemma_one_bit_mask(31);
    }
    p.write_mcr(v);
    proof {
        assert forall|j: u32|
            j < 32 && j != 31 && j != 20 && j != 24 && j != 25 implies #[trigger] nth_bit(
            p.mcr,
            j,
        ) == nth_bit(old(p).mcr, j) by {
            assert(nth_bit(p.mcr, j) == nth_bit(v, j));
            assert(nth_bit(v, j) == nth_bit(old(p).mcr, j));
        };
        assert(nth_bit(v, 31));
        assert(nth_bit(p.mcr, 28) == nth_bit(v, 28) && nth_bit(v, 28) == nth_bit(old(p).mcr, 28));
        assert(nth_bit(p.mcr, 30) == nth_bit(v, 30) && nth_bit(v, 30) == nth_bit(old(p).mcr, 30));
    }
}

/// Soft reset: disable, force the peripheral clock source, re-enable,
/// assert soft reset until it self-clears, and disable again.  Used once
/// at construction, before the settings are applied.
pub fn reset(p: &mut CanPeripheral)
    ensures
        mdis_bit(final(p).mcr),
        lpmack_bit(final(p).mcr),
        !softrst_bit(final(p).mcr),
        !frzack_bit(final(p).mcr),
        frz_bit(final(p).mcr) == frz_bit(old(p).mcr),
        halt_bit(final(p).mcr) == halt_bit(old(p).mcr),
        forall|j: u32|
            j < 32 && j != 31 && j != 20 && j != 24 && j != 25 ==> #[trigger] nth_bit(
                final(p).mcr,
                j,
            ) == nth_bit(old(p).mcr, j),
        maxmb_field(final(p).mcr) == maxmb_field(old(p).mcr),
        nth_bit(final(p).ctrl1, 13),
        forall|j: u32|
            j < 32 && j != 13 ==> #[trigger] nth_bit(final(p).ctrl1, j) == nth_bit(
                old(p).ctrl1,
                j,
            ),
        final(p).iflag1 == old(p).iflag1,
        final(p).rxmgmask == old(p).rxmgmask,
        final(p).fdctrl == old(p).fdctrl,
        final(p).timer == old(p).timer,
        final(p).ram == old(p).ram,
{
    disable(p);

    // Force the peripheral clock source while disabled.
    let c = p.ctrl1 | (1u32 << 13);
    proof {
        lemma_or_one_bit(p.ctrl1, 13);
        lemma_one_bit_mask(13);
    }
    p.write_ctrl1(c);

    enable(p);

    // Soft reset; it self-clears once the internal state machines and
    // the affected registers are back at their reset values.
    let v = p.mcr | (1u32 << 25);
    proof {
        lemma_low_bits(p.mcr);
        lemma_or_one_bit(p.mcr, 25);
        lemma_one_bit_mask(25);
    }
    p.write_mcr(v);
    proof {
        assert forall|j: u32|
            j < 32 && j != 20 && j != 24 && j != 25 implies #[trigger] nth_bit(p.mcr, j)
            == nth_bit(v, j) by {
        };
    }

    disable(p);
}

/// Assert freeze and halt, then wait for the freeze acknowledgment.
/// The module must be enabled, or the acknowledgment would never come.
pub fn enter_freeze(p: &mut CanPeripheral)
    requires
        !mdis_bit(old(p).mcr),
    ensures
        frz_bit(final(p).mcr),
        halt_bit(final(p).mcr),
        frzack_bit(final(p).mcr),
        !mdis_bit(final(p).mcr),
        !lpmack_bit(final(p).mcr),
        !softrst_bit(final(p).mcr),
        forall|j: u32|
            j < 32 && j != 30 && j != 28 && j != 20 && j != 24 && j != 25 ==> #[trigger] nth_bit(
                final(p).mcr,
                j,
            ) == nth_bit(old(p).mcr, j),
        maxmb_field(final(p).mcr) == maxmb_field(old(p).mcr),
        final(p).ctrl1 == old(p).ctrl1,
        final(p).iflag1 == old(p).iflag1,
        final(p).rxmgmask == old(p).rxmgmask,
        final(p).fdctrl == old(p).fdctrl,
        final(p).timer == old(p).timer,
        final(p).ram == old(p).ram,
{
    let v1 = p.mcr | (1u32 << 30);
    let v = v1 | (1u32 << 28);
    proof {
        lemma_low_bits(p.mcr);
        lemma_or_one_bit(p.mcr, 30);
        lemma_or_one_bit(v1, 28);
        lemma_one_bit_mask(30);
        lemma_one_bit_mask(28);
    }
    p.write_mcr(v);
    proof {
        assert forall|j: u32|
            j < 32 && j != 30 && j != 28 && j != 20 && j != 24 && j != 25 implies #[trigger] nth_bit(
            p.mcr,
            j,
        ) == nth_bit(old(p).mcr, j) by {
            assert(nth_bit(p.mcr, j) == nth_bit(v, j));
            assert(nth_bit(v, j) == nth_bit(v1, j));
            assert(nth_bit(v1, j) == nth_bit(old(p).mcr, j));
        };
        assert(nth_bit(v, 30) && nth_bit(v, 28));
        assert(!nth_bit(v, 31));
    }
}

/// Clear halt and freeze, then wait for the freeze acknowledgment to
/// drop.
pub fn leave_freeze(p: &mut CanPeripheral)
    ensures
        !frz_bit(final(p).mcr),
        !halt_bit(final(p).mcr),
        !frzack_bit(final(p).mcr),
        !softrst_bit(final(p).mcr),
        mdis_bit(final(p).mcr) == mdis_bit(old(p).mcr),
        lpmack_bit(final(p).mcr) == mdis_bit(old(p).mcr),
        forall|j: u32|
            j < 32 && j != 30 && j != 28 && j != 20 && j != 24 && j != 25 ==> #[trigger] nth_bit(
                final(p).mcr,
                j,
            ) == nth_bit(old(p).mcr, j),
        maxmb_field(final(p).mcr) == maxmb_field(old(p).mcr),
        final(p).ctrl1 == old(p).ctrl1,
        final(p).iflag1 == old(p).iflag1,
        final(p).rxmgmask == old(p).rxmgmask,
        final(p).fdctrl == old(p).fdctrl,
        final(p).timer == old(p).timer,
        final(p).ram == old(p).ram,
{
    let v = p.mcr & !((1u32 << 30) | (1u32 << 28));
    proof {
        lemma_low_bits(p.mcr);
        lemma_and_not(p.mcr, (1u32 << 30) | (1u32 << 28));
        lemma_or_one_bit(1u32 << 30, 28);
        lemma_one_bit_mask(30);
        lemma_one_bit_mask(28);
    }
    p.write_mcr(v);
    proof {
        assert forall|j: u32|
            j < 32 && j != 30 && j != 28 && j != 20 && j != 24 && j != 25 implies #[trigger] nth_bit(
            p.mcr,
            j,
        ) == nth_bit(old(p).mcr, j) by {
            assert(nth_bit(p.mcr, j) == nth_bit(v, j));
            assert(nth_bit((1u32 << 30) | (1u32 << 28), j) == (j == 30 || j == 28));
            assert(nth_bit(v, j) == nth_bit(old(p).mcr, j));
        };
        assert(!nth_bit(v, 30) && !nth_bit(v, 28));
        assert(nth_bit(v, 31) == nth_bit(old(p).mcr, 31));
    }
}

} // verus!
