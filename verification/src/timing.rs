//! Bit-timing calculation: divide the source clock into a protocol-compliant
//! number of time quanta per bit and split those quanta into segments.

use vstd::prelude::*;
use crate::CanError;

verus! {

/// Values written verbatim into the bit-timing register fields.
#[derive(Clone, Copy, Debug, PartialEq, Eq, Structural)]
pub struct BitTiming {
    /// Prescaler division factor (8-bit field).
    pub presdiv: u8,
    /// Propagation segment (3-bit field).
    pub propseg: u8,
    /// Phase segment 1 (3-bit field).
    pub pseg1: u8,
    /// Phase segment 2 (3-bit field).
    pub pseg2: u8,
    /// Resync jump width (2-bit field).
    pub rjw: u8,
}

/// Coarse prescaler divisor, aiming at roughly 25 quanta per bit.
pub open spec fn presdiv_spec(source: u32, target: u32) -> int {
    (source as int / target as int) / 25
}

/// Actual time quanta per bit after prescaling.
pub open spec fn tqs_spec(source: u32, target: u32) -> int {
    (source as int / (presdiv_spec(source, target) + 1)) / target as int
}

/// A bit is one sync quantum plus the propagation and phase segments,
/// each of which occupies its register value plus one quanta.
pub open spec fn total_quanta(t: BitTiming) -> int {
    1 + (t.propseg + 1) + (t.pseg1 + 1) + (t.pseg2 + 1)
}

/// The whole calculation as a function of the two frequencies: the ratio
/// must be an exact integer of at least 5, the prescaler must fit its
/// 8-bit field, and the resulting quanta count must fall in one of the
/// standard-compliant table ranges.
pub open spec fn bit_timing_spec(source: u32, target: u32) -> Result<BitTiming, CanError> {
    if source % target != 0 || source / target < 5 || presdiv_spec(source, target) > 255 {
        Err(CanError::SettingsError)
    } else {
        let tqs = tqs_spec(source, target);
        if 8 <= tqs && tqs < 26 {
            let (pseg2, rjw): (int, int) = if tqs < 10 {
                (1, 1)
            } else if tqs < 15 {
                (3, 2)
            } else if tqs < 20 {
                (6, 2)
            } else {
                (7, 3)
            };
            let pseg1 = ((tqs - (pseg2 + 1)) / 2) - 1;
            let propseg = tqs - (pseg2 + 1) - (pseg1 + 1) - 2;
            Ok(BitTiming {
                presdiv: presdiv_spec(source, target) as u8,
                propseg: propseg as u8,
                pseg1: pseg1 as u8,
                pseg2: pseg2 as u8,
                rjw: rjw as u8,
            })
        } else {
            Err(CanError::ConfigurationFailed)
        }
    }
}

impl BitTiming {
    /// Compute the timing register fields for a source clock and a target
    /// bit rate.  Rejects ratios that are not exact multiples of at least
    /// 5, prescalers beyond the 8-bit register field, and quanta counts
    /// outside the supported table, always by returning an error.
    pub fn compute(source_frequency: u32, can_frequency: u32) -> (r: Result<BitTiming, CanError>)
        requires
            source_frequency > 0,
            can_frequency > 0,
        ensures
            r == bit_timing_spec(source_frequency, can_frequency),
            r matches Ok(t) ==> t.propseg <= 7 && t.pseg1 <= 7 && t.pseg2 <= 7 && t.rjw <= 3
                && total_quanta(t) == tqs_spec(source_frequency, can_frequency)
                && 8 <= tqs_spec(source_frequency, can_frequency) < 26,
    {
        if source_frequency % can_frequency != 0 {
            return Err(CanError::SettingsError);
        }
        let ratio = source_frequency / can_frequency;
        if ratio < 5 {
            return Err(CanError::SettingsError);
        }
        let presdiv = ratio / 25;
        if presdiv > 255 {
            return Err(CanError::SettingsError);
        }
        let tqs = (source_frequency / (presdiv + 1)) / can_frequency;

        let (pseg2, rjw): (u32, u32) = if tqs >= 8 && tqs < 10 {
            (1, 1)
        } else if tqs >= 10 && tqs < 15 {
            (3, 2)
        } else if tqs >= 15 && tqs < 20 {
            (6, 2)
        } else if tqs >= 20 && tqs < 26 {
            (7, 3)
        } else {
            return Err(CanError::ConfigurationFailed);
        };

        let pseg1 = ((tqs - (pseg2 + 1)) / 2) - 1;
        let propseg = tqs - (pseg2 + 1) - (pseg1 + 1) - 2;

        Ok(BitTiming {
            presdiv: presdiv as u8,
            propseg: propseg as u8,
            pseg1: pseg1 as u8,
            pseg2: pseg2 as u8,
            rjw: rjw as u8,
        })
    }
}

/// Every frequency pair whose exact ratio is at least 5, fits the
/// prescaler field, and lands in the supported quanta range yields
/// segments that account for every quantum of the bit; every other pair
/// fails with the corresponding error instead of aborting.
pub proof fn lemma_timing_quanta(source: u32, target: u32)
    requires
        target > 0,
    ensures
        (source % target == 0 && source / target >= 5 && presdiv_spec(source, target) <= 255
            && 8 <= tqs_spec(source, target) < 26)
            ==> (bit_timing_spec(source, target) matches Ok(t)
                && total_quanta(t) == tqs_spec(source, target)),
        (source % target == 0 && source / target >= 5 && presdiv_spec(source, target) <= 255
            && !(8 <= tqs_spec(source, target) < 26))
            ==> bit_timing_spec(source, target) == Err::<BitTiming, CanError>(
                CanError::ConfigurationFailed,
            ),
        (source % target != 0 || source / target < 5 || presdiv_spec(source, target) > 255)
            ==> bit_timing_spec(source, target) == Err::<BitTiming, CanError>(
                CanError::SettingsError,
            ),
{
}

} // verus!
