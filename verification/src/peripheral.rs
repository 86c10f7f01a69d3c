//! A plain-data image of the FlexCAN register surface.
//!
//! The real peripheral is a memory-mapped register block mutated through
//! volatile access; the driver's logic is written and verified against
//! this owned model instead.  Register writes apply the documented
//! immediate responses of a healthy peripheral: the low-power and freeze
//! acknowledgment bits follow their request bits, soft reset self-clears,
//! the completion-flag register is write-1-to-clear, and writing the
//! Abort code over a pending transmit buffer completes the abort and
//! raises the buffer's completion flag.  Frames arriving from the bus are
//! injected with [`CanPeripheral::frame_received`].

use vstd::prelude::*;
use crate::bits::{nth_bit, test_bit, lemma_or_one_bit, lemma_and_not};
use crate::frame::{CanFrame, ID};
use crate::layout::{
    code_field, esi_bit, srr_bit, ide_bit, rtr_bit, dlc_field, timestamp_field, prio_field,
    ext_id_field, base_id_field, byte_field, make_ctrl_word, make_id_word, set_byte,
};

verus! {

/// Number of transmit-role mailboxes (indices 0 to 7).
pub const TX_MAILBOXES: usize = 8;

/// Number of receive-role mailboxes (indices 8 to 15).
pub const RX_MAILBOXES: usize = 8;

// ---- mode/control register bits ----

pub open spec fn mdis_bit(v: u32) -> bool {
    nth_bit(v, 31)
}

pub open spec fn frz_bit(v: u32) -> bool {
    nth_bit(v, 30)
}

pub open spec fn rfen_bit(v: u32) -> bool {
    nth_bit(v, 29)
}

pub open spec fn halt_bit(v: u32) -> bool {
    nth_bit(v, 28)
}

pub open spec fn softrst_bit(v: u32) -> bool {
    nth_bit(v, 25)
}

pub open spec fn frzack_bit(v: u32) -> bool {
    nth_bit(v, 24)
}

pub open spec fn lpmack_bit(v: u32) -> bool {
    nth_bit(v, 20)
}

pub open spec fn srxdis_bit(v: u32) -> bool {
    nth_bit(v, 17)
}

pub open spec fn irmq_bit(v: u32) -> bool {
    nth_bit(v, 16)
}

pub open spec fn dma_bit(v: u32) -> bool {
    nth_bit(v, 15)
}

pub open spec fn aen_bit(v: u32) -> bool {
    nth_bit(v, 12)
}

pub open spec fn maxmb_field(v: u32) -> u8 {
    (v & 0x7f) as u8
}

// ---- control 1 (bit timing) register fields ----

pub open spec fn presdiv_field(v: u32) -> u8 {
    ((v >> 24) & 0xff) as u8
}

pub open spec fn rjw_field(v: u32) -> u8 {
    ((v >> 22) & 0x3) as u8
}

pub open spec fn pseg1_field(v: u32) -> u8 {
    ((v >> 19) & 0x7) as u8
}

pub open spec fn pseg2_field(v: u32) -> u8 {
    ((v >> 16) & 0x7) as u8
}

pub open spec fn propseg_field(v: u32) -> u8 {
    (v & 0x7) as u8
}

pub open spec fn clksrc_bit(v: u32) -> bool {
    nth_bit(v, 13)
}

pub open spec fn lpb_bit(v: u32) -> bool {
    nth_bit(v, 12)
}

/// Transceiver delay compensation enable, in the CAN FD control register.
pub open spec fn tdcen_bit(v: u32) -> bool {
    nth_bit(v, 15)
}

/// What the mode/control register holds after software writes `v`: the
/// acknowledgment bits immediately follow their requests and soft reset
/// self-clears.
pub open spec fn mcr_response_spec(v: u32) -> u32 {
    let cleared = v & 0xfcef_ffff;
    let with_lp = if nth_bit(v, 31) {
        cleared | 0x0010_0000
    } else {
        cleared
    };
    if nth_bit(v, 30) && nth_bit(v, 28) && !nth_bit(v, 31) {
        with_lp | 0x0100_0000
    } else {
        with_lp
    }
}

proof fn lemma_mcr_response(v: u32)
    by (bit_vector)
    ensures
        lpmack_bit(mcr_response_spec(v)) == mdis_bit(v),
        frzack_bit(mcr_response_spec(v)) == (frz_bit(v) && halt_bit(v) && !mdis_bit(v)),
        !softrst_bit(mcr_response_spec(v)),
        forall|j: u32|
            j < 32 && j != 20 && j != 24 && j != 25 ==> nth_bit(mcr_response_spec(v), j) == nth_bit(
                v,
                j,
            ),
        maxmb_field(mcr_response_spec(v)) == maxmb_field(v),
{
}

/// The software-visible state of the controller: the mode and timing
/// registers, the completion flags, the free-running timer, and the
/// mailbox memory of 4 words per mailbox.
pub struct CanPeripheral {
    pub mcr: u32,
    pub ctrl1: u32,
    pub iflag1: u32,
    pub rxmgmask: u32,
    pub fdctrl: u32,
    pub timer: u32,
    pub ram: Vec<u32>,
}

impl CanPeripheral {
    /// The mailbox memory holds 4 words for each of the 16 mailboxes.
    pub open spec fn wf(&self) -> bool {
        self.ram@.len() == 64
    }

    /// Control/status word of mailbox `m`.
    pub open spec fn cs(&self, m: int) -> u32 {
        self.ram@[4 * m]
    }

    /// Identifier/priority word of mailbox `m`.
    pub open spec fn idw(&self, m: int) -> u32 {
        self.ram@[4 * m + 1]
    }

    /// The 4-bit buffer-state code of mailbox `m`.
    pub open spec fn code(&self, m: int) -> u8 {
        code_field(self.cs(m))
    }

    /// Payload byte `k` of mailbox `m`.
    pub open spec fn mb_byte(&self, m: int, k: int) -> u8 {
        byte_field(self.ram@[4 * m + 2 + k / 4], k % 4)
    }

    /// Completion flag of mailbox `m`.
    pub open spec fn flagged(&self, m: int) -> bool {
        nth_bit(self.iflag1, m as u32)
    }

    /// A fresh peripheral in its after-reset state: module disabled and
    /// halted, every mailbox word and flag zero.
    pub fn new() -> (r: CanPeripheral)
        ensures
            r.wf(),
            r.mcr == 0xd890_000f,
            r.ctrl1 == 0,
            r.iflag1 == 0,
            r.rxmgmask == 0,
            r.fdctrl == 0,
            r.timer == 0,
            forall|j: int| 0 <= j < 64 ==> r.ram@[j] == 0,
    {
        let mut ram: Vec<u32> = Vec::new();
        while ram.len() < 64
            invariant
                ram@.len() <= 64,
                forall|j: int| 0 <= j < ram@.len() ==> ram@[j] == 0,
            decreases 64 - ram@.len(),
        {
            ram.push(0);
        }
        CanPeripheral { mcr: 0xd890_000f, ctrl1: 0, iflag1: 0, rxmgmask: 0, fdctrl: 0, timer: 0, ram }
    }

    /// Software write of the mode/control register; the stored value is
    /// the peripheral's immediate response.
    pub fn write_mcr(&mut self, v: u32)
        ensures
            final(self).mcr == mcr_response_spec(v),
            lpmack_bit(final(self).mcr) == mdis_bit(v),
            frzack_bit(final(self).mcr) == (frz_bit(v) && halt_bit(v) && !mdis_bit(v)),
            !softrst_bit(final(self).mcr),
            forall|j: u32|
                j < 32 && j != 20 && j != 24 && j != 25 ==> #[trigger] nth_bit(final(self).mcr, j)
                    == nth_bit(v, j),
            maxmb_field(final(self).mcr) == maxmb_field(v),
            final(self).ctrl1 == old(self).ctrl1,
            final(self).iflag1 == old(self).iflag1,
            final(self).rxmgmask == old(self).rxmgmask,
            final(self).fdctrl == old(self).fdctrl,
            final(self).timer == old(self).timer,
            final(self).ram == old(self).ram,
    {
        proof {
            lemma_mcr_response(v);
        }
        let cleared = v & 0xfcef_ffff;
        let with_lp = if test_bit(v, 31) {
            cleared | 0x0010_0000
        } else {
            cleared
        };
        let stored = if test_bit(v, 30) && test_bit(v, 28) && !test_bit(v, 31) {
            with_lp | 0x0100_0000
        } else {
            with_lp
        };
        self.mcr = stored;
    }

    /// Software write of the control 1 (bit timing) register.
    pub fn write_ctrl1(&mut self, v: u32)
        ensures
            final(self).ctrl1 == v,
            final(self).mcr == old(self).mcr,
            final(self).iflag1 == old(self).iflag1,
            final(self).rxmgmask == old(self).rxmgmask,
            final(self).fdctrl == old(self).fdctrl,
            final(self).timer == old(self).timer,
            final(self).ram == old(self).ram,
    {
        self.ctrl1 = v;
    }

    /// Software write of the completion-flag register: each flag is
    /// cleared by writing 1 to it, and writing 0 leaves it alone.
    pub fn write_iflag1(&mut self, v: u32)
        ensures
            final(self).iflag1 == old(self).iflag1 & !v,
            forall|j: int|
                0 <= j < 32 ==> final(self).flagged(j) == (old(self).flagged(j) && !nth_bit(
                    v,
                    j as u32,
                )),
            final(self).mcr == old(self).mcr,
            final(self).ctrl1 == old(self).ctrl1,
            final(self).rxmgmask == old(self).rxmgmask,
            final(self).fdctrl == old(self).fdctrl,
            final(self).timer == old(self).timer,
            final(self).ram == old(self).ram,
    {
        proof {
            lemma_and_not(self.iflag1, v);
        }
        self.iflag1 = self.iflag1 & !v;
    }

    /// Software write of the global acceptance mask register.
    pub fn write_rxmgmask(&mut self, v: u32)
        ensures
            final(self).rxmgmask == v,
            final(self).mcr == old(self).mcr,
            final(self).ctrl1 == old(self).ctrl1,
            final(self).iflag1 == old(self).iflag1,
            final(self).fdctrl == old(self).fdctrl,
            final(self).timer == old(self).timer,
            final(self).ram == old(self).ram,
    {
        self.rxmgmask = v;
    }

    /// Software write of the CAN FD control register.
    pub fn write_fdctrl(&mut self, v: u32)
        ensures
            final(self).fdctrl == v,
            final(self).mcr == old(self).mcr,
            final(self).ctrl1 == old(self).ctrl1,
            final(self).iflag1 == old(self).iflag1,
            final(self).rxmgmask == old(self).rxmgmask,
            final(self).timer == old(self).timer,
            final(self).ram == old(self).ram,
    {
        self.fdctrl = v;
    }

    /// Read the free-running timer.  On hardware this also releases any
    /// mailbox lock taken by a previous read.
    pub fn read_timer(&self) -> (r: u32)
        ensures
            r == self.timer,
    {
        self.timer
    }

    /// Read one word of the mailbox memory.
    pub fn read_ram_word(&self, i: usize) -> (r: u32)
        requires
            self.wf(),
            i < 64,
        ensures
            r == self.ram@[i as int],
    {
        self.ram[i]
    }

    /// Write one word of the mailbox memory.  Writing the Abort code
    /// over a control word currently holding a pending transmit frame
    /// completes the abort at once and raises that mailbox's completion
    /// flag; every other write just stores the word.
    pub fn write_ram_word(&mut self, i: usize, v: u32)
        requires
            old(self).wf(),
            i < 64,
        ensures
            final(self).wf(),
            final(self).ram@ == old(self).ram@.update(i as int, v),
            final(self).mcr == old(self).mcr,
            final(self).ctrl1 == old(self).ctrl1,
            final(self).rxmgmask == old(self).rxmgmask,
            final(self).fdctrl == old(self).fdctrl,
            final(self).timer == old(self).timer,
            (i % 4 == 0 && code_field(old(self).ram@[i as int]) == 0xc && code_field(v) == 0x9)
                ==> (final(self).iflag1 == old(self).iflag1 | (1u32 << ((i / 4) as u32))
                    && forall|j: int|
                        0 <= j < 32 ==> final(self).flagged(j) == (old(self).flagged(j) || j == i
                            / 4)),
            !(i % 4 == 0 && code_field(old(self).ram@[i as int]) == 0xc && code_field(v) == 0x9)
                ==> final(self).iflag1 == old(self).iflag1,
    {
        let old_code = crate::layout::code_of(self.ram[i]);
        let new_code = crate::layout::code_of(v);
        let respond = i % 4 == 0 && old_code == 0xc && new_code == 0x9;
        self.ram.set(i, v);
        if respond {
            proof {
                lemma_or_one_bit(self.iflag1, (i / 4) as u32);
            }
            self.iflag1 = self.iflag1 | (1u32 << ((i / 4) as u32));
        }
    }

    /// The bus delivers `frame` into receive mailbox `mailbox`: the
    /// hardware stores the frame with the Full code, pads the unused
    /// payload bytes with zeroes, and raises the completion flag.
    pub fn frame_received(&mut self, mailbox: usize, frame: &CanFrame, timestamp: u16)
        requires
            old(self).wf(),
            TX_MAILBOXES <= mailbox < TX_MAILBOXES + RX_MAILBOXES,
            frame.wf(),
            timestamp < 0x8000,
        ensures
            final(self).wf(),
            holds_frame(*final(self), mailbox as int, 0x2, false, 0, timestamp, *frame),
            forall|k: int|
                frame.dlc_spec() <= k < 8 ==> final(self).mb_byte(mailbox as int, k) == 0,
            forall|j: int|
                0 <= j < 64 && !(4 * mailbox <= j < 4 * mailbox + 4) ==> final(self).ram@[j] == old(
                    self,
                ).ram@[j],
            final(self).iflag1 == old(self).iflag1 | (1u32 << (mailbox as u32)),
            forall|j: int|
                0 <= j < 32 ==> final(self).flagged(j) == (old(self).flagged(j) || j == mailbox),
            final(self).mcr == old(self).mcr,
            final(self).ctrl1 == old(self).ctrl1,
            final(self).rxmgmask == old(self).rxmgmask,
            final(self).fdctrl == old(self).fdctrl,
            final(self).timer == old(self).timer,
    {
        let base = 4 * mailbox;
        let id = frame.id();
        let extended = id.is_extended();
        let remote = frame.is_remote();
        let dlc: u8 = match frame {
            CanFrame::DataFrame(df) => df.data.len() as u8,
            CanFrame::RemoteFrame(_) => 0,
        };
        let cs = make_ctrl_word(0x2, false, extended, remote, dlc, timestamp);
        let idw = make_id_word(&id, 0);

        proof {
            crate::layout::lemma_zero_word_bytes();
        }
        let mut w2: u32 = 0;
        let mut w3: u32 = 0;
        if let CanFrame::DataFrame(df) = frame {
            let len = df.data.len();
            let mut k: usize = 0;
            while k < len
                invariant
                    len == df.data@.len() <= 8,
                    k <= len,
                    forall|j: int| 0 <= j < k && j < 4 ==> byte_field(w2, j) == df.data@[j],
                    forall|j: int| 4 <= j < k ==> byte_field(w3, j - 4) == df.data@[j],
                    forall|j: int| k <= j < 4 ==> byte_field(w2, j) == 0,
                    forall|j: int| 0 <= j < 4 && k <= j + 4 ==> byte_field(w3, j) == 0,
                decreases len - k,
            {
                if k < 4 {
                    w2 = set_byte(w2, k, df.data[k]);
                } else {
                    w3 = set_byte(w3, k - 4, df.data[k]);
                }
                k = k + 1;
            }
        }

        self.ram.set(base, cs);
        self.ram.set(base + 1, idw);
        self.ram.set(base + 2, w2);
        self.ram.set(base + 3, w3);
        proof {
            lemma_or_one_bit(self.iflag1, mailbox as u32);
        }
        self.iflag1 = self.iflag1 | (1u32 << (mailbox as u32));
    }
}

/// Mailbox `m` of `p` holds `f`, stored under buffer-state `code` with
/// the given error-state indicator, priority hint, and timestamp, with
/// every field sitting where the hardware layout puts it.
pub open spec fn holds_frame(
    p: CanPeripheral,
    m: int,
    code: u8,
    esi: bool,
    prio: u8,
    ts: u16,
    f: CanFrame,
) -> bool {
    &&& p.code(m) == code
    &&& esi_bit(p.cs(m)) == esi
    &&& srr_bit(p.cs(m))
    &&& ide_bit(p.cs(m)) == f.id_spec().is_extended_spec()
    &&& rtr_bit(p.cs(m)) == f.is_remote_spec()
    &&& dlc_field(p.cs(m)) as int == f.dlc_spec()
    &&& timestamp_field(p.cs(m)) == ts
    &&& !nth_bit(p.cs(m), 31)
    &&& !nth_bit(p.cs(m), 30)
    &&& !nth_bit(p.cs(m), 28)
    &&& !nth_bit(p.cs(m), 23)
    &&& !nth_bit(p.cs(m), 15)
    &&& prio_field(p.idw(m)) == prio
    &&& (match f.id_spec() {
        ID::ExtendedID(v) => ext_id_field(p.idw(m)) == v,
        ID::BaseID(v) => base_id_field(p.idw(m)) == v && p.idw(m) & 0x3ffff == 0,
    })
    &&& forall|k: int| 0 <= k < f.dlc_spec() ==> p.mb_byte(m, k) == f.data_spec()[k]
}

} // verus!
