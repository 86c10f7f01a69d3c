//! Raw mailbox access: reading and writing one mailbox's control word,
//! identifier word and payload words, with the write preconditions the
//! hardware imposes.
//!
//! The control word is written strictly after the identifier and payload
//! words: that final write is what hands the mailbox to the hardware, so
//! the order is a correctness requirement, not style.

use vstd::prelude::*;
use crate::CanError;
use crate::bits::{nth_bit, test_bit, lemma_one_bit_mask, lemma_and_not};
use crate::codec::{
    decode_spec, encode_spec, MessageBufferCode, ReceiveBufferState, TransmitBufferState,
};
use crate::frame::{CanFrame, DataFrame, RemoteFrame, ID};
use crate::layout::{
    code_field, code_of, dlc_field, esi_bit, get_byte, lemma_abort_word, lemma_field_bounds,
    lemma_plain_codes, make_ctrl_word, make_id_word, parsed_id, prio_field, rtr_bit, set_byte,
    timestamp_field,
};
use crate::peripheral::{holds_frame, CanPeripheral};

verus! {

/// How often a busy receive buffer is re-read before the driver gives up
/// with a timeout error instead of spinning forever.
pub const BUSY_RETRIES: u32 = 64;

/// Per-mailbox header fields stored alongside a frame.
#[derive(Clone, Copy, Debug, PartialEq, Eq, Structural)]
pub struct MailboxHeader {
    /// Whether the transmitting node is error active or error passive.
    pub error_state_indicator: bool,

    /// The buffer-state code; writing it activates hardware processing.
    pub code: MessageBufferCode,

    /// Free-running timer value captured when the identifier field of the
    /// frame appears on the bus.
    pub time_stamp: u16,

    /// 3-bit software priority hint appended to the identifier; unused
    /// for arbitration by this driver.
    pub priority: u8,
}

impl MailboxHeader {
    /// The priority hint fits its 3-bit field and the timestamp its
    /// 15-bit slot in the control word.
    pub open spec fn wf(&self) -> bool {
        self.priority < 8 && self.time_stamp < 0x8000
    }

    /// Header for an idle transmit mailbox.
    pub fn default_transmit() -> (r: Self)
        ensures
            r == (MailboxHeader {
                error_state_indicator: false,
                code: MessageBufferCode::Transmit(TransmitBufferState::Inactive),
                time_stamp: 0,
                priority: 0,
            }),
            r.wf(),
    {
        MailboxHeader {
            error_state_indicator: false,
            code: MessageBufferCode::Transmit(TransmitBufferState::Inactive),
            time_stamp: 0,
            priority: 0,
        }
    }

    /// Header for a receive mailbox armed to accept a frame.
    pub fn default_receive() -> (r: Self)
        ensures
            r == (MailboxHeader {
                error_state_indicator: false,
                code: MessageBufferCode::Receive(crate::codec::ReceiveBufferCode {
                    state: ReceiveBufferState::Empty,
                    busy: false,
                }),
                time_stamp: 0,
                priority: 0,
            }),
            r.wf(),
    {
        MailboxHeader {
            error_state_indicator: false,
            code: MessageBufferCode::Receive(crate::codec::ReceiveBufferCode {
                state: ReceiveBufferState::Empty,
                busy: false,
            }),
            time_stamp: 0,
            priority: 0,
        }
    }
}

/// States in which a mailbox belongs to the hardware or still holds
/// unread data, so that a software write must be refused.
pub open spec fn refuses_write(c: MessageBufferCode) -> bool {
    match c {
        MessageBufferCode::Transmit(t) => t == TransmitBufferState::DataRemote || t
            == TransmitBufferState::Tanswer,
        MessageBufferCode::Receive(rc) => rc.state != ReceiveBufferState::Inactive,
    }
}

/// A receive code whose busy flag is set.
pub open spec fn busy_code(code: u8) -> bool {
    match decode_spec(code) {
        Some(MessageBufferCode::Receive(rc)) => rc.busy,
        _ => false,
    }
}

/// Mailbox `m` of `new_p` now holds `frame` under `header`, and nothing
/// else of the mailbox memory moved: payload bytes past the frame's
/// length and all words of other mailboxes still read as in `old_p`.
pub open spec fn written_words(
    old_p: CanPeripheral,
    new_p: CanPeripheral,
    m: int,
    header: MailboxHeader,
    frame: CanFrame,
) -> bool {
    &&& new_p.ram@.len() == 64
    &&& holds_frame(
        new_p,
        m,
        encode_spec(header.code),
        header.error_state_indicator,
        header.priority,
        header.time_stamp,
        frame,
    )
    &&& forall|k: int| frame.dlc_spec() <= k < 8 ==> new_p.mb_byte(m, k) == old_p.mb_byte(m, k)
    &&& forall|j: int|
        0 <= j < 64 && !(4 * m <= j < 4 * m + 4) ==> new_p.ram@[j] == old_p.ram@[j]
}

/// The frame a successful read of mailbox `m` rebuilds from the words of
/// `p_old`.
pub open spec fn frame_read(p_old: CanPeripheral, m: int, f: CanFrame) -> bool {
    let cs = p_old.cs(m);
    let idw = p_old.idw(m);
    &&& f.id_spec() == parsed_id(cs, idw)
    &&& f.is_remote_spec() == rtr_bit(cs)
    &&& f.dlc_spec() == (if rtr_bit(cs) {
        0int
    } else {
        dlc_field(cs) as int
    })
    &&& (forall|k: int| 0 <= k < f.dlc_spec() ==> f.data_spec()[k] == p_old.mb_byte(m, k))
    &&& f.wf()
}

/// What a successful mailbox read returns: the header and frame that the
/// mailbox words of `p_old` describe.
pub open spec fn read_result(p_old: CanPeripheral, m: int, h: MailboxHeader, f: CanFrame) -> bool {
    let cs = p_old.cs(m);
    let idw = p_old.idw(m);
    &&& decode_spec(code_field(cs)) == Some(h.code)
    &&& h.error_state_indicator == esi_bit(cs)
    &&& h.time_stamp == timestamp_field(cs)
    &&& h.priority == prio_field(idw)
    &&& h.wf()
    &&& frame_read(p_old, m, f)
}

/// Read and decode one mailbox's buffer-state code.  Reads the
/// free-running timer afterwards, which on hardware releases the mailbox
/// lock the read may have taken.
pub fn read_mailbox_code(p: &CanPeripheral, mailbox: usize) -> (r: Result<
    MessageBufferCode,
    CanError,
>)
    requires
        p.wf(),
        mailbox < 16,
    ensures
        r matches Ok(c) ==> decode_spec(p.code(mailbox as int)) == Some(c),
        r is Err ==> r == Err::<MessageBufferCode, CanError>(CanError::DecodeError) && decode_spec(
            p.code(mailbox as int),
        ) is None,
{
    let cs = p.read_ram_word(4 * mailbox);
    let code = match MessageBufferCode::decode(code_of(cs)) {
        Ok(c) => Ok(c),
        Err(()) => Err(CanError::DecodeError),
    };
    let _time = p.read_timer();
    code
}

/// Write `frame` under `header` into mailbox `mailbox`.
///
/// Fails without touching any register if the mailbox's current code
/// signals hardware ownership or unread data, or does not decode at all.
/// Otherwise the completion flag is cleared first, then the identifier
/// word, then the payload bytes packed four to a word, and the control
/// word last, which is the write that arms the hardware.
pub fn write_mailbox(
    p: &mut CanPeripheral,
    header: &MailboxHeader,
    frame: &CanFrame,
    mailbox: usize,
) -> (r: Result<(), CanError>)
    requires
        old(p).wf(),
        mailbox < 16,
        header.wf(),
        frame.wf(),
    ensures
        final(p).wf(),
        decode_spec(old(p).code(mailbox as int)) is None ==> r == Err::<(), CanError>(
            CanError::DecodeError,
        ) && *final(p) == *old(p),
        decode_spec(old(p).code(mailbox as int)) matches Some(c) ==> (if refuses_write(c) {
            r == Err::<(), CanError>(CanError::BusyMailboxWriteAttempted) && *final(p) == *old(p)
        } else {
            &&& r == Ok::<(), CanError>(())
            &&& written_words(*old(p), *final(p), mailbox as int, *header, *frame)
            &&& final(p).iflag1 == old(p).iflag1 & !(1u32 << (mailbox as u32))
            &&& (forall|j: int|
                0 <= j < 32 ==> final(p).flagged(j) == (old(p).flagged(j) && j != mailbox))
            &&& final(p).mcr == old(p).mcr
            &&& final(p).ctrl1 == old(p).ctrl1
            &&& final(p).rxmgmask == old(p).rxmgmask
            &&& final(p).fdctrl == old(p).fdctrl
            &&& final(p).timer == old(p).timer
        }),
{
    let base = 4 * mailbox;

    // Check whether the mailbox is ready for a write.
    let cs_now = p.read_ram_word(base);
    let current = match MessageBufferCode::decode(code_of(cs_now)) {
        Ok(c) => c,
        Err(()) => return Err(CanError::DecodeError),
    };
    match current {
        MessageBufferCode::Transmit(TransmitBufferState::DataRemote)
        | MessageBufferCode::Transmit(TransmitBufferState::Tanswer) => {
            return Err(CanError::BusyMailboxWriteAttempted);
        },
        MessageBufferCode::Receive(rc) => {
            match rc.state {
                ReceiveBufferState::Empty
                | ReceiveBufferState::Full
                | ReceiveBufferState::Overrun
                | ReceiveBufferState::Ranswer => {
                    return Err(CanError::BusyMailboxWriteAttempted);
                },
                ReceiveBufferState::Inactive => {},
            }
        },
        _ => {},
    }

    // Clear the completion flag first, so a stale flag cannot be taken
    // for this write finishing.
    proof {
        lemma_one_bit_mask(mailbox as u32);
    }
    p.write_iflag1(1u32 << (mailbox as u32));

    // Identifier word and priority.
    let id = frame.id();
    let idw = make_id_word(&id, header.priority);
    p.write_ram_word(base + 1, idw);

    let ghost p1 = *p;

    // Payload bytes, four per word, most significant byte first.
    if let CanFrame::DataFrame(df) = frame {
        let len = df.data.len();
        let mut k: usize = 0;
        while k < len
            invariant
                p.wf(),
                base == 4 * mailbox,
                mailbox < 16,
                k <= len,
                len == df.data@.len() <= 8,
                frame == CanFrame::DataFrame(*df),
                forall|j: int|
                    0 <= j < 64 && j != base + 2 && j != base + 3 ==> p.ram@[j] == p1.ram@[j],
                forall|j: int| 0 <= j < k ==> p.mb_byte(mailbox as int, j) == df.data@[j],
                forall|j: int|
                    k <= j < 8 ==> p.mb_byte(mailbox as int, j) == p1.mb_byte(mailbox as int, j),
                p.iflag1 == p1.iflag1,
                p.mcr == p1.mcr,
                p.ctrl1 == p1.ctrl1,
                p.rxmgmask == p1.rxmgmask,
                p.fdctrl == p1.fdctrl,
                p.timer == p1.timer,
            decreases len - k,
        {
            let wi = base + 2 + k / 4;
            let w = p.read_ram_word(wi);
            let updated = set_byte(w, k % 4, df.data[k]);
            p.write_ram_word(wi, updated);
            k = k + 1;
        }
    }

    let dlc: u8 = match frame {
        CanFrame::DataFrame(df) => df.data.len() as u8,
        CanFrame::RemoteFrame(_) => 0,
    };

    proof {
        let m = mailbox as int;
        assert(p.ram@[4 * m] == p1.ram@[4 * m]);
        assert(p1.ram@[4 * m] == old(p).ram@[4 * m]);
        assert(code_field(p.ram@[4 * m]) != 0xc);
    }

    // Control word last: length, flags, the SRR bit fixed to 1, and the
    // new code, which activates the mailbox.
    let cs = make_ctrl_word(
        header.code.encode(),
        header.error_state_indicator,
        id.is_extended(),
        frame.is_remote(),
        dlc,
        header.time_stamp,
    );
    p.write_ram_word(base, cs);

    proof {
        let m = mailbox as int;
        assert(p.ram@.len() == 64);
        assert(p.cs(m) == cs);
        assert(p1.ram@[4 * m + 1] == idw);
        assert(p.ram@[4 * m + 1] == p1.ram@[4 * m + 1]);
        assert(p.idw(m) == idw);
        assert(code_field(cs) == encode_spec(header.code));
        assert(forall|k: int|
            0 <= k < frame.dlc_spec() ==> p.mb_byte(m, k) == frame.data_spec()[k]);
        assert(forall|k: int| frame.dlc_spec() <= k < 8 ==> p.mb_byte(m, k) == p1.mb_byte(m, k));
        assert(forall|k: int| 0 <= k < 8 ==> p1.mb_byte(m, k) == old(p).mb_byte(m, k));
        assert forall|j: int|
            0 <= j < 64 && !(4 * m <= j < 4 * m + 4) implies p.ram@[j] == old(p).ram@[j] by {
            assert(p.ram@[j] == p1.ram@[j]);
            assert(p1.ram@[j] == old(p).ram@[j]);
        };
        assert(p.iflag1 == old(p).iflag1 & !(1u32 << (mailbox as u32)));
        assert forall|k: int|
            frame.dlc_spec() <= k < 8 implies p.mb_byte(m, k) == old(p).mb_byte(m, k) by {
            assert(p.mb_byte(m, k) == p1.mb_byte(m, k));
            assert(p1.mb_byte(m, k) == old(p).mb_byte(m, k));
        };
        assert forall|j: int|
            0 <= j < 32 implies p.flagged(j) == (old(p).flagged(j) && j != mailbox) by {
            lemma_and_not(old(p).iflag1, 1u32 << (mailbox as u32));
            lemma_one_bit_mask(mailbox as u32);
            assert(nth_bit(1u32 << (mailbox as u32), j as u32) == (j as u32 == mailbox as u32));
        };
        assert(holds_frame(
            *p,
            m,
            encode_spec(header.code),
            header.error_state_indicator,
            header.priority,
            header.time_stamp,
            *frame,
        ));
        assert(written_words(*old(p), *p, m, *header, *frame));
    }

    Ok(())
}

/// Read mailbox `mailbox`: wait (a bounded number of re-reads) while the
/// hardware is updating it, decode the header, rebuild the frame, then
/// acknowledge the completion flag and read the free-running timer to
/// release the hardware's mailbox lock.
pub fn read_mailbox(p: &mut CanPeripheral, mailbox: usize) -> (r: Result<
    (MailboxHeader, CanFrame),
    CanError,
>)
    requires
        old(p).wf(),
        mailbox < 16,
    ensures
        final(p).wf(),
        ({
            let cs = old(p).cs(mailbox as int);
            match decode_spec(code_field(cs)) {
                None => r == Err::<(MailboxHeader, CanFrame), CanError>(CanError::DecodeError)
                    && *final(p) == *old(p),
                Some(c) => {
                    if (c matches MessageBufferCode::Receive(rc) && rc.busy) {
                        r == Err::<(MailboxHeader, CanFrame), CanError>(CanError::Timeout)
                            && *final(p) == *old(p)
                    } else if !rtr_bit(cs) && dlc_field(cs) > 8 {
                        r == Err::<(MailboxHeader, CanFrame), CanError>(CanError::DecodeError)
                            && *final(p) == *old(p)
                    } else {
                        &&& r matches Ok((h, f)) && read_result(*old(p), mailbox as int, h, f)
                        &&& final(p).ram@ == old(p).ram@
                        &&& final(p).iflag1 == old(p).iflag1 & !(1u32 << (mailbox as u32))
                        &&& (forall|j: int|
                            0 <= j < 32 ==> final(p).flagged(j) == (old(p).flagged(j) && j
                                != mailbox))
                        &&& final(p).mcr == old(p).mcr
                        &&& final(p).ctrl1 == old(p).ctrl1
                        &&& final(p).rxmgmask == old(p).rxmgmask
                        &&& final(p).fdctrl == old(p).fdctrl
                        &&& final(p).timer == old(p).timer
                    }
                },
            }
        }),
{
    let base = 4 * mailbox;

    // Read the control/status word, re-reading while the hardware is
    // busy updating the slot, up to a bounded number of attempts.
    let mut cs = p.read_ram_word(base);
    let mut attempts: u32 = 0;
    while attempts < BUSY_RETRIES && receive_busy(code_of(cs))
        invariant
            *p == *old(p),
            p.wf(),
            base == 4 * mailbox,
            mailbox < 16,
            cs == old(p).cs(mailbox as int),
        decreases BUSY_RETRIES - attempts,
    {
        cs = p.read_ram_word(base);
        attempts = attempts + 1;
    }

    let code = match MessageBufferCode::decode(code_of(cs)) {
        Ok(c) => c,
        Err(()) => return Err(CanError::DecodeError),
    };
    if receive_busy(code_of(cs)) {
        return Err(CanError::Timeout);
    }

    // Rebuild the identifier, then the frame.
    let idw = p.read_ram_word(base + 1);
    let extended = test_bit(cs, 21);
    let id = if extended {
        ID::ExtendedID(idw & 0x1fff_ffff)
    } else {
        ID::BaseID(((idw >> 18) & 0x7ff) as u16)
    };
    let remote = test_bit(cs, 20);
    let dlc = ((cs >> 16) & 0xf) as u8;

    let frame = if remote {
        CanFrame::RemoteFrame(RemoteFrame { id })
    } else {
        if dlc > 8 {
            return Err(CanError::DecodeError);
        }
        let mut data: Vec<u8> = Vec::new();
        let mut k: usize = 0;
        while k < dlc as usize
            invariant
                *p == *old(p),
                p.wf(),
                base == 4 * mailbox,
                mailbox < 16,
                k <= dlc <= 8,
                data@.len() == k,
                forall|j: int| 0 <= j < k ==> data@[j] == old(p).mb_byte(mailbox as int, j),
            decreases dlc as int - k,
        {
            let w = p.read_ram_word(base + 2 + k / 4);
            data.push(get_byte(w, k % 4));
            k = k + 1;
        }
        CanFrame::DataFrame(DataFrame { id, data })
    };

    let priority = ((idw >> 29) & 0x7) as u8;
    let header = MailboxHeader {
        error_state_indicator: test_bit(cs, 29),
        code,
        time_stamp: (cs & 0x7fff) as u16,
        priority,
    };

    // Acknowledge the completion flag.
    proof {
        lemma_one_bit_mask(mailbox as u32);
        lemma_field_bounds(idw);
        lemma_field_bounds(cs);
    }
    p.write_iflag1(1u32 << (mailbox as u32));

    // Read the free-running timer to release the mailbox lock.
    let _time = p.read_timer();

    Ok((header, frame))
}

/// True when `code` is a receive pattern with the busy flag set.
fn receive_busy(code: u8) -> (r: bool)
    ensures
        r == busy_code(code),
{
    match MessageBufferCode::decode(code) {
        Ok(MessageBufferCode::Receive(rc)) => rc.busy,
        _ => false,
    }
}

/// Force mailbox `mailbox` to the Inactive code that fits its current
/// role: transmit-coded mailboxes get the transmit Inactive code,
/// receive-coded ones the receive Inactive code, and a mailbox whose code
/// does not decode has its control word zeroed outright rather than
/// guessing a role.
pub fn inactivate_mailbox(p: &mut CanPeripheral, mailbox: usize)
    requires
        old(p).wf(),
        mailbox < 16,
    ensures
        final(p).wf(),
        decode_spec(old(p).code(mailbox as int)) matches Some(c) ==> (match c {
            MessageBufferCode::Transmit(_) => final(p).ram@ == old(p).ram@.update(
                4 * mailbox as int,
                0x0800_0000u32,
            ) && final(p).code(mailbox as int) == 8,
            MessageBufferCode::Receive(_) => final(p).ram@ == old(p).ram@.update(
                4 * mailbox as int,
                0u32,
            ) && final(p).code(mailbox as int) == 0,
        }),
        decode_spec(old(p).code(mailbox as int)) is None ==> final(p).ram@ == old(p).ram@.update(
            4 * mailbox as int,
            0u32,
        ) && final(p).code(mailbox as int) == 0,
        final(p).iflag1 == old(p).iflag1,
        final(p).mcr == old(p).mcr,
        final(p).ctrl1 == old(p).ctrl1,
        final(p).rxmgmask == old(p).rxmgmask,
        final(p).fdctrl == old(p).fdctrl,
        final(p).timer == old(p).timer,
{
    let base = 4 * mailbox;
    let cs = p.read_ram_word(base);
    proof {
        lemma_plain_codes();
    }
    match MessageBufferCode::decode(code_of(cs)) {
        Ok(MessageBufferCode::Transmit(_)) => {
            p.write_ram_word(base, 0x0800_0000);
        },
        Ok(MessageBufferCode::Receive(_)) => {
            p.write_ram_word(base, 0);
        },
        Err(()) => {
            p.write_ram_word(base, 0);
        },
    }
}

/// Abort mailbox `mailbox` if it holds a pending transmit frame.
///
/// Clears the completion flag, writes the Abort code over the code field,
/// waits for the abort to complete, and re-reads the mailbox.  A re-read
/// Abort code means the frame never reached the bus and it is returned;
/// an Inactive code means the hardware won the race and transmitted it;
/// any other outcome is surfaced as an error rather than asserted away.
pub fn abort_mailbox(p: &mut CanPeripheral, mailbox: usize) -> (r: Result<
    Option<CanFrame>,
    CanError,
>)
    requires
        old(p).wf(),
        mailbox < 16,
    ensures
        final(p).wf(),
        old(p).code(mailbox as int) != 0xc ==> r == Ok::<Option<CanFrame>, CanError>(None)
            && *final(p) == *old(p),
        old(p).code(mailbox as int) == 0xc ==> ({
            let cs = old(p).cs(mailbox as int);
            let idw = old(p).idw(mailbox as int);
            &&& final(p).ram@ == old(p).ram@.update(
                4 * mailbox as int,
                (cs & 0xf0ff_ffff) | 0x0900_0000,
            )
            &&& final(p).mcr == old(p).mcr
            &&& final(p).ctrl1 == old(p).ctrl1
            &&& final(p).rxmgmask == old(p).rxmgmask
            &&& final(p).fdctrl == old(p).fdctrl
            &&& final(p).timer == old(p).timer
            &&& if !rtr_bit(cs) && dlc_field(cs) > 8 {
                r == Err::<Option<CanFrame>, CanError>(CanError::DecodeError) && (forall|j: int|
                    0 <= j < 32 ==> final(p).flagged(j) == (old(p).flagged(j) || j == mailbox))
            } else {
                &&& r matches Ok(Some(f))
                &&& f.id_spec() == parsed_id(cs, idw)
                &&& f.is_remote_spec() == rtr_bit(cs)
                &&& f.dlc_spec() == (if rtr_bit(cs) {
                    0int
                } else {
                    dlc_field(cs) as int
                })
                &&& (forall|k: int|
                    0 <= k < f.dlc_spec() ==> f.data_spec()[k] == old(p).mb_byte(mailbox as int, k))
                &&& f.wf()
                &&& (forall|j: int|
                    0 <= j < 32 ==> final(p).flagged(j) == (old(p).flagged(j) && j != mailbox))
            }
        }),
{
    let base = 4 * mailbox;
    let cs = p.read_ram_word(base);
    if code_of(cs) != 0xc {
        return Ok(None);
    }

    // Clear the completion flag, then request the abort by writing the
    // Abort code over the code field, keeping every other field.
    proof {
        lemma_one_bit_mask(mailbox as u32);
    }
    p.write_iflag1(1u32 << (mailbox as u32));
    let aborted = (cs & 0xf0ff_ffff) | 0x0900_0000;
    proof {
        lemma_abort_word(cs);
    }
    p.write_ram_word(base, aborted);

    // The model peripheral completes the abort with the write itself, so
    // the completion flag is already set and there is nothing to poll.
    proof {
        assert(p.flagged(mailbox as int));
    }

    match read_mailbox(p, mailbox) {
        Err(e) => Err(e),
        Ok((header, frame)) => match header.code {
            MessageBufferCode::Transmit(TransmitBufferState::Abort) => Ok(Some(frame)),
            MessageBufferCode::Transmit(TransmitBufferState::Inactive) => Ok(None),
            _ => Err(CanError::InvalidMailboxState),
        },
    }
}

/// Writing a frame into a mailbox and reading that mailbox back yields
/// the identical identifier (kind and value), remote flag, data length
/// and payload bytes, and the header fields survive unchanged too.
pub proof fn lemma_write_read_roundtrip(
    old_p: CanPeripheral,
    mid_p: CanPeripheral,
    m: int,
    h: MailboxHeader,
    f: CanFrame,
    h2: MailboxHeader,
    f2: CanFrame,
)
    requires
        written_words(old_p, mid_p, m, h, f),
        read_result(mid_p, m, h2, f2),
        f.wf(),
        h.wf(),
        0 <= m < 16,
    ensures
        f2.id_spec() == f.id_spec(),
        f2.is_remote_spec() == f.is_remote_spec(),
        f2.dlc_spec() == f.dlc_spec(),
        f2.data_spec() == f.data_spec(),
        h2.code == h.code,
        h2.error_state_indicator == h.error_state_indicator,
        h2.priority == h.priority,
        h2.time_stamp == h.time_stamp,
{
    crate::codec::lemma_decode_encode(h.code);
    assert(f2.data_spec() =~= f.data_spec());
}

} // verus!
