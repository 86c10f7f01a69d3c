//! Layout of the three kinds of mailbox words: the control/status word,
//! the identifier/priority word, and the two packed payload words.
//!
//! Every field has an extraction spec; the executable constructors are
//! proved to place each field where the extraction finds it, which is what
//! makes a write followed by a read reproduce the frame.

use vstd::prelude::*;
use crate::bits::nth_bit;
use crate::frame::ID;

verus! {

// ---- control/status word fields ----

/// The 4-bit buffer-state code, bits 24 to 27.
pub open spec fn code_field(cs: u32) -> u8 {
    ((cs >> 24) & 0xf) as u8
}

/// Error-state indicator, bit 29.
pub open spec fn esi_bit(cs: u32) -> bool {
    nth_bit(cs, 29)
}

/// Substitute remote request bit, bit 22; always written as 1.
pub open spec fn srr_bit(cs: u32) -> bool {
    nth_bit(cs, 22)
}

/// Extended-identifier bit, bit 21.
pub open spec fn ide_bit(cs: u32) -> bool {
    nth_bit(cs, 21)
}

/// Remote-frame bit, bit 20.
pub open spec fn rtr_bit(cs: u32) -> bool {
    nth_bit(cs, 20)
}

/// Data length code, bits 16 to 19.
pub open spec fn dlc_field(cs: u32) -> u8 {
    ((cs >> 16) & 0xf) as u8
}

/// Capture timestamp, bits 0 to 14.
pub open spec fn timestamp_field(cs: u32) -> u16 {
    (cs & 0x7fff) as u16
}

// ---- identifier/priority word fields ----

/// Software priority hint, bits 29 to 31.
pub open spec fn prio_field(idw: u32) -> u8 {
    ((idw >> 29) & 0x7) as u8
}

/// A 29-bit extended identifier, bits 0 to 28.
pub open spec fn ext_id_field(idw: u32) -> u32 {
    idw & 0x1fff_ffff
}

/// An 11-bit base identifier, bits 18 to 28.
pub open spec fn base_id_field(idw: u32) -> u16 {
    ((idw >> 18) & 0x7ff) as u16
}

/// The identifier described by a control word and an identifier word.
pub open spec fn parsed_id(cs: u32, idw: u32) -> ID {
    if ide_bit(cs) {
        ID::ExtendedID(ext_id_field(idw))
    } else {
        ID::BaseID(base_id_field(idw))
    }
}

/// The raw numeric identifier value held by a mailbox, used for
/// arbitration comparisons.
pub open spec fn held_id_value(cs: u32, idw: u32) -> u32 {
    parsed_id(cs, idw).value_spec()
}

// ---- payload word fields ----

/// Byte `j` of a payload word; byte 0 sits in the most significant bits.
pub open spec fn byte_field(w: u32, j: int) -> u8 {
    if j == 0 {
        ((w >> 24) & 0xff) as u8
    } else if j == 1 {
        ((w >> 16) & 0xff) as u8
    } else if j == 2 {
        ((w >> 8) & 0xff) as u8
    } else {
        (w & 0xff) as u8
    }
}

/// The 4-bit buffer-state code of a control/status word, as executable
/// code.
pub fn code_of(cs: u32) -> (r: u8)
    ensures
        r == code_field(cs),
        r < 16,
{
    proof {
        lemma_field_bounds(cs);
    }
    ((cs >> 24) & 0xf) as u8
}

// ---- bounds that every extraction obeys ----

pub proof fn lemma_field_bounds(w: u32)
    by (bit_vector)
    ensures
        (w >> 24) & 0xf < 16,
        (w >> 16) & 0xf < 16,
        w & 0x7fff < 0x8000,
        (w >> 29) & 0x7 < 8,
        w & 0x1fff_ffff < 0x2000_0000,
        (w >> 18) & 0x7ff < 0x800,
{
}

// ---- constructors ----

proof fn lemma_ctrl_word(r: u32, code: u32, esi_w: u32, ide_w: u32, rtr_w: u32, dlc: u32, ts: u32)
    by (bit_vector)
    requires
        code < 16,
        dlc <= 8,
        ts < 0x8000,
        esi_w <= 1,
        ide_w <= 1,
        rtr_w <= 1,
        r == (code << 24) | (esi_w << 29) | 0x0040_0000u32 | (ide_w << 21) | (rtr_w << 20) | (dlc
            << 16) | ts,
    ensures
        (r >> 24) & 0xf == code,
        (r >> 29) & 1 == esi_w,
        nth_bit(r, 22),
        (r >> 21) & 1 == ide_w,
        (r >> 20) & 1 == rtr_w,
        (r >> 16) & 0xf == dlc,
        r & 0x7fff == ts,
        !nth_bit(r, 31),
        !nth_bit(r, 30),
        !nth_bit(r, 28),
        !nth_bit(r, 23),
        !nth_bit(r, 15),
{
}

/// Assemble a control/status word.  The SRR bit is fixed to 1 as the
/// protocol requires; the CAN FD bit stays 0.
pub fn make_ctrl_word(code: u8, esi: bool, extended: bool, remote: bool, dlc: u8, timestamp: u16)
    -> (r: u32)
    requires
        code < 16,
        dlc <= 8,
        timestamp < 0x8000,
    ensures
        code_field(r) == code,
        esi_bit(r) == esi,
        srr_bit(r),
        ide_bit(r) == extended,
        rtr_bit(r) == remote,
        dlc_field(r) == dlc,
        timestamp_field(r) == timestamp,
        !nth_bit(r, 31),
        !nth_bit(r, 30),
        !nth_bit(r, 28),
        !nth_bit(r, 23),
        !nth_bit(r, 15),
{
    let esi_w: u32 = if esi { 1 } else { 0 };
    let ide_w: u32 = if extended { 1 } else { 0 };
    let rtr_w: u32 = if remote { 1 } else { 0 };
    let r = ((code as u32) << 24) | (esi_w << 29) | 0x0040_0000u32 | (ide_w << 21) | (rtr_w << 20)
        | ((dlc as u32) << 16) | (timestamp as u32);
    proof {
        lemma_ctrl_word(r, code as u32, esi_w, ide_w, rtr_w, dlc as u32, timestamp as u32);
    }
    r
}

proof fn lemma_ext_id_word(r: u32, p: u32, v: u32)
    by (bit_vector)
    requires
        p < 8,
        v < 0x2000_0000,
        r == (p << 29) | v,
    ensures
        (r >> 29) & 0x7 == p,
        r & 0x1fff_ffff == v,
{
}

proof fn lemma_base_id_word(r: u32, p: u32, v: u32)
    by (bit_vector)
    requires
        p < 8,
        v < 0x800,
        r == (p << 29) | (v << 18),
    ensures
        (r >> 29) & 0x7 == p,
        (r >> 18) & 0x7ff == v,
        r & 0x3ffff == 0,
{
}

/// Assemble the identifier/priority word: 29 or 11 significant identifier
/// bits depending on the identifier kind, plus the 3-bit priority hint.
pub fn make_id_word(id: &ID, priority: u8) -> (r: u32)
    requires
        id.wf(),
        priority < 8,
    ensures
        prio_field(r) == priority,
        id matches ID::ExtendedID(v) ==> ext_id_field(r) == v,
        id matches ID::BaseID(v) ==> base_id_field(r) == v && r & 0x3ffff == 0,
{
    match *id {
        ID::ExtendedID(v) => {
            let r = ((priority as u32) << 29) | v;
            proof {
                lemma_ext_id_word(r, priority as u32, v);
            }
            r
        },
        ID::BaseID(v) => {
            let r = ((priority as u32) << 29) | ((v as u32) << 18);
            proof {
                lemma_base_id_word(r, priority as u32, v as u32);
            }
            r
        },
    }
}

/// Byte `j` of a payload word.
pub fn get_byte(w: u32, j: usize) -> (r: u8)
    requires
        j < 4,
    ensures
        r == byte_field(w, j as int),
{
    match j {
        0 => ((w >> 24) & 0xff) as u8,
        1 => ((w >> 16) & 0xff) as u8,
        2 => ((w >> 8) & 0xff) as u8,
        _ => (w & 0xff) as u8,
    }
}

proof fn lemma_set_byte(w: u32, b: u32)
    by (bit_vector)
    requires
        b < 256,
    ensures
        (((w & 0x00ff_ffff) | (b << 24)) >> 24) & 0xff == b,
        (((w & 0x00ff_ffff) | (b << 24)) >> 16) & 0xff == (w >> 16) & 0xff,
        (((w & 0x00ff_ffff) | (b << 24)) >> 8) & 0xff == (w >> 8) & 0xff,
        ((w & 0x00ff_ffff) | (b << 24)) & 0xff == w & 0xff,
        (((w & 0xff00_ffff) | (b << 16)) >> 24) & 0xff == (w >> 24) & 0xff,
        (((w & 0xff00_ffff) | (b << 16)) >> 16) & 0xff == b,
        (((w & 0xff00_ffff) | (b << 16)) >> 8) & 0xff == (w >> 8) & 0xff,
        ((w & 0xff00_ffff) | (b << 16)) & 0xff == w & 0xff,
        (((w & 0xffff_00ff) | (b << 8)) >> 24) & 0xff == (w >> 24) & 0xff,
        (((w & 0xffff_00ff) | (b << 8)) >> 16) & 0xff == (w >> 16) & 0xff,
        (((w & 0xffff_00ff) | (b << 8)) >> 8) & 0xff == b,
        ((w & 0xffff_00ff) | (b << 8)) & 0xff == w & 0xff,
        (((w & 0xffff_ff00) | b) >> 24) & 0xff == (w >> 24) & 0xff,
        (((w & 0xffff_ff00) | b) >> 16) & 0xff == (w >> 16) & 0xff,
        (((w & 0xffff_ff00) | b) >> 8) & 0xff == (w >> 8) & 0xff,
        ((w & 0xffff_ff00) | b) & 0xff == b,
{
}

/// Replacing the code field with the Abort pattern leaves every other
/// control-word field as it was.
pub proof fn lemma_abort_word(cs: u32)
    by (bit_vector)
    ensures
        ((((cs & 0xf0ff_ffff) | 0x0900_0000) >> 24) & 0xf) == 9,
        ((((cs & 0xf0ff_ffff) | 0x0900_0000) >> 16) & 0xf) == (cs >> 16) & 0xf,
        (((cs & 0xf0ff_ffff) | 0x0900_0000) & 0x7fff) == cs & 0x7fff,
        nth_bit((cs & 0xf0ff_ffff) | 0x0900_0000, 29) == nth_bit(cs, 29),
        nth_bit((cs & 0xf0ff_ffff) | 0x0900_0000, 22) == nth_bit(cs, 22),
        nth_bit((cs & 0xf0ff_ffff) | 0x0900_0000, 21) == nth_bit(cs, 21),
        nth_bit((cs & 0xf0ff_ffff) | 0x0900_0000, 20) == nth_bit(cs, 20),
{
}

/// Code fields of the two bare inactivation words.
pub proof fn lemma_plain_codes()
    by (bit_vector)
    ensures
        ((0x0800_0000u32 >> 24) & 0xf) == 8,
        ((0u32 >> 24) & 0xf) == 0,
{
}

pub proof fn lemma_zero_word_bytes()
    by (bit_vector)
    ensures
        (0u32 >> 24) & 0xff == 0,
        (0u32 >> 16) & 0xff == 0,
        (0u32 >> 8) & 0xff == 0,
        0u32 & 0xff == 0,
{
}

/// Replace byte `j` of a payload word, leaving the other bytes alone.
pub fn set_byte(w: u32, j: usize, b: u8) -> (r: u32)
    requires
        j < 4,
    ensures
        byte_field(r, j as int) == b,
        forall|k: int| 0 <= k < 4 && k != j ==> byte_field(r, k) == byte_field(w, k),
{
    proof {
        lemma_set_byte(w, b as u32);
    }
    match j {
        0 => (w & 0x00ff_ffff) | ((b as u32) << 24),
        1 => (w & 0xff00_ffff) | ((b as u32) << 16),
        2 => (w & 0xffff_00ff) | ((b as u32) << 8),
        _ => (w & 0xffff_ff00) | (b as u32),
    }
}

} // verus!
