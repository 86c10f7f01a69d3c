//! The driver facade: construction, the priority-aware transmit arbiter,
//! and the receive scanner.
//!
//! Mailboxes 0 to 7 are permanently transmit-role and 8 to 15 permanently
//! receive-role; the role is derived from the index and never stored.

use vstd::prelude::*;
use crate::CanError;
use crate::bits::{nth_bit, test_bit, lemma_const_bits, lemma_one_bit_mask, lemma_and_not};
use crate::codec::{decode_spec, MessageBufferCode, TransmitBufferState};
use crate::frame::{CanFrame, DataFrame, ID};
use crate::layout::{
    code_field, dlc_field, esi_bit, ext_id_field, held_id_value, ide_bit, lemma_abort_word,
    prio_field, rtr_bit, srr_bit, timestamp_field,
};
use crate::mailbox::{
    abort_mailbox, frame_read, inactivate_mailbox, read_mailbox, read_mailbox_code, write_mailbox,
    written_words, MailboxHeader,
};
use crate::modes::{enable, enter_freeze, leave_freeze, reset};
use crate::peripheral::{
    aen_bit, clksrc_bit, dma_bit, frz_bit, frzack_bit, halt_bit, irmq_bit, lpb_bit, lpmack_bit,
    maxmb_field, mdis_bit, presdiv_field, propseg_field, pseg1_field, pseg2_field, rfen_bit,
    rjw_field, softrst_bit, srxdis_bit, tdcen_bit, CanPeripheral, RX_MAILBOXES, TX_MAILBOXES,
};
use crate::settings::{CanSettings, ClockSource};
use crate::timing::{bit_timing_spec, BitTiming};

verus! {

/// The header under which the arbiter activates a transmit mailbox: the
/// pending data/remote code, no error state, priority hint 0.
pub open spec fn transmit_header_spec() -> MailboxHeader {
    MailboxHeader {
        error_state_indicator: false,
        code: MessageBufferCode::Transmit(TransmitBufferState::DataRemote),
        time_stamp: 0,
        priority: 0,
    }
}

/// First transmit mailbox among `0..n` whose code is the transmit
/// Inactive pattern, or `n` if there is none.
pub open spec fn first_inactive_tx(p: CanPeripheral, n: int) -> int
    decreases n,
{
    if n <= 0 {
        0
    } else if first_inactive_tx(p, n - 1) < n - 1 {
        first_inactive_tx(p, n - 1)
    } else if p.code(n - 1) == 0x8 {
        n - 1
    } else {
        n
    }
}

proof fn lemma_first_inactive_tx(p: CanPeripheral, n: int, k: int)
    requires
        0 <= k <= n,
        forall|x: int| 0 <= x < k ==> p.code(x) != 0x8,
        k < n ==> p.code(k) == 0x8,
    ensures
        first_inactive_tx(p, n) == if k < n {
            k
        } else {
            n
        },
    decreases n,
{
    if n > 0 {
        if k >= n {
            lemma_first_inactive_tx(p, n - 1, n - 1);
        } else if k == n - 1 {
            lemma_first_inactive_tx(p, n - 1, n - 1);
        } else {
            lemma_first_inactive_tx(p, n - 1, k);
        }
    }
}

/// First transmit mailbox among `0..n` whose code is not the pending
/// data/remote pattern, or `n` if all are pending.
pub open spec fn first_non_pending_tx(p: CanPeripheral, n: int) -> int
    decreases n,
{
    if n <= 0 {
        0
    } else if first_non_pending_tx(p, n - 1) < n - 1 {
        first_non_pending_tx(p, n - 1)
    } else if p.code(n - 1) != 0xc {
        n - 1
    } else {
        n
    }
}

proof fn lemma_first_non_pending_tx(p: CanPeripheral, n: int, k: int)
    requires
        0 <= k <= n,
        forall|x: int| 0 <= x < k ==> p.code(x) == 0xc,
        k < n ==> p.code(k) != 0xc,
    ensures
        first_non_pending_tx(p, n) == if k < n {
            k
        } else {
            n
        },
    decreases n,
{
    if n > 0 {
        if k >= n {
            lemma_first_non_pending_tx(p, n - 1, n - 1);
        } else if k == n - 1 {
            lemma_first_non_pending_tx(p, n - 1, n - 1);
        } else {
            lemma_first_non_pending_tx(p, n - 1, k);
        }
    }
}

/// First receive mailbox at or above `i` whose completion flag is set,
/// or 16 if none is.
pub open spec fn first_flagged_rx(p: CanPeripheral, i: int) -> int
    decreases 16 - i,
{
    if i >= 16 {
        16
    } else if p.flagged(i) {
        i
    } else {
        first_flagged_rx(p, i + 1)
    }
}

proof fn lemma_first_flagged_rx(p: CanPeripheral, i: int, j: int)
    requires
        0 <= i <= j <= 16,
        forall|x: int| i <= x < j ==> !p.flagged(x),
        j < 16 ==> p.flagged(j),
    ensures
        first_flagged_rx(p, i) == if j < 16 {
            j
        } else {
            16
        },
    decreases j - i,
{
    if i < j {
        lemma_first_flagged_rx(p, i + 1, j);
    }
}

/// The raw numeric identifier held by transmit mailbox `i`.
pub open spec fn held_id(p: CanPeripheral, i: int) -> u32 {
    held_id_value(p.cs(i), p.idw(i))
}

/// Among mailboxes `0..n`, the first one holding the numerically largest
/// identifier, which is the pending frame of lowest bus priority.
pub open spec fn worst_pending_idx(p: CanPeripheral, n: int) -> int
    decreases n,
{
    if n <= 1 {
        0
    } else {
        let w = worst_pending_idx(p, n - 1);
        if held_id(p, n - 1) > held_id(p, w) {
            n - 1
        } else {
            w
        }
    }
}

/// The worst-pending index really is the first maximum: nothing holds a
/// larger identifier, and everything before it holds a strictly smaller
/// one.
pub proof fn lemma_worst_pending_idx(p: CanPeripheral, n: int)
    requires
        1 <= n,
    ensures
        0 <= worst_pending_idx(p, n) < n,
        forall|k: int| 0 <= k < n ==> #[trigger] held_id(p, k) <= held_id(p, worst_pending_idx(p, n)),
        forall|k: int|
            0 <= k < worst_pending_idx(p, n) ==> #[trigger] held_id(p, k) < held_id(
                p,
                worst_pending_idx(p, n),
            ),
    decreases n,
{
    if n > 1 {
        lemma_worst_pending_idx(p, n - 1);
    }
}

/// The mailbox's stored length is consistent: either a remote frame, or
/// a data length of at most 8, so that a read can rebuild the frame.
pub open spec fn tx_parseable(p: CanPeripheral, i: int) -> bool {
    rtr_bit(p.cs(i)) || dlc_field(p.cs(i)) <= 8
}

/// The clock frequency the selected source feeds into the prescaler.
pub open spec fn source_spec(settings: CanSettings, core: u32, sosc: Option<u32>) -> u32 {
    match settings.clock_source {
        ClockSource::Sys => core,
        ClockSource::Soscdiv2 => match sosc {
            Some(f) => f,
            None => 0,
        },
    }
}

/// A transmit mailbox as construction leaves it: Inactive, armed with
/// the extended-identifier filter frame of identifier 0 and no payload.
pub open spec fn init_tx_ready(p: CanPeripheral, i: int) -> bool {
    &&& p.code(i) == 0x8
    &&& srr_bit(p.cs(i))
    &&& ide_bit(p.cs(i))
    &&& !rtr_bit(p.cs(i))
    &&& !esi_bit(p.cs(i))
    &&& dlc_field(p.cs(i)) == 0
    &&& timestamp_field(p.cs(i)) == 0
    &&& prio_field(p.idw(i)) == 0
    &&& ext_id_field(p.idw(i)) == 0
}

/// A receive mailbox as construction leaves it: Empty and armed to
/// accept a frame.
pub open spec fn init_rx_ready(p: CanPeripheral, i: int) -> bool {
    &&& p.code(i) == 0x4
    &&& srr_bit(p.cs(i))
    &&& ide_bit(p.cs(i))
    &&& !rtr_bit(p.cs(i))
    &&& !esi_bit(p.cs(i))
    &&& dlc_field(p.cs(i)) == 0
    &&& timestamp_field(p.cs(i)) == 0
    &&& prio_field(p.idw(i)) == 0
    &&& ext_id_field(p.idw(i)) == 0
}

proof fn lemma_mcr_config(r: u32, o: u32, rfen_w: u32, srx_w: u32, irmq_w: u32)
    by (bit_vector)
    requires
        rfen_w <= 1,
        srx_w <= 1,
        irmq_w <= 1,
        r == (o & !0x2003_907fu32) | (rfen_w << 29) | (srx_w << 17) | (irmq_w << 16) | (1u32 << 12)
            | 15u32,
    ensures
        nth_bit(r, 29) == (rfen_w == 1),
        nth_bit(r, 17) == (srx_w == 1),
        nth_bit(r, 16) == (irmq_w == 1),
        nth_bit(r, 12),
        !nth_bit(r, 15),
        r & 0x7f == 15,
        nth_bit(r, 31) == nth_bit(o, 31),
        nth_bit(r, 30) == nth_bit(o, 30),
        nth_bit(r, 28) == nth_bit(o, 28),
{
}

proof fn lemma_ctrl1_config(
    r: u32,
    o: u32,
    presdiv: u32,
    rjw: u32,
    pseg1: u32,
    pseg2: u32,
    lpb_w: u32,
    propseg: u32,
)
    by (bit_vector)
    requires
        presdiv < 256,
        rjw < 4,
        pseg1 < 8,
        pseg2 < 8,
        lpb_w <= 1,
        propseg < 8,
        r == (o & 0x0000_eff8u32) | (presdiv << 24) | (rjw << 22) | (pseg1 << 19) | (pseg2 << 16)
            | (lpb_w << 12) | propseg,
    ensures
        (r >> 24) & 0xff == presdiv,
        (r >> 22) & 0x3 == rjw,
        (r >> 19) & 0x7 == pseg1,
        (r >> 16) & 0x7 == pseg2,
        r & 0x7 == propseg,
        nth_bit(r, 12) == (lpb_w == 1),
        nth_bit(r, 13) == nth_bit(o, 13),
{
}

/// The driver: it owns the register surface for its lifetime and
/// forwards transmit and receive calls to the arbiter and the scanner.
pub struct Can {
    pub register_block: CanPeripheral,
}

impl Can {
    pub open spec fn wf(&self) -> bool {
        self.register_block.wf()
    }

    /// Construct the driver: validate the settings, compute the bit
    /// timing, soft-reset the peripheral, apply the mode and timing
    /// configuration inside a freeze window, initialize every mailbox to
    /// its role-appropriate Inactive or Empty state, clear all
    /// completion flags, and leave freeze mode.  Every validation error
    /// is reported before any register is touched.
    pub fn init(
        register_block: CanPeripheral,
        core_frequency: u32,
        soscdiv2_frequency: Option<u32>,
        settings: &CanSettings,
    ) -> (r: Result<Can, CanError>)
        requires
            register_block.wf(),
            settings.can_frequency > 0,
            core_frequency > 0,
            soscdiv2_frequency matches Some(f) ==> f > 0,
        ensures
            ({
                if settings.clock_source == ClockSource::Soscdiv2 && soscdiv2_frequency is None {
                    r == Err::<Can, CanError>(CanError::ClockSourceDisabled)
                } else {
                    let source = source_spec(*settings, core_frequency, soscdiv2_frequency);
                    match bit_timing_spec(source, settings.can_frequency) {
                        Err(e) => r == Err::<Can, CanError>(e),
                        Ok(t) => {
                            &&& r matches Ok(c)
                            &&& c.wf()
                            &&& (forall|i: int| 0 <= i < 8 ==> init_tx_ready(c.register_block, i))
                            &&& (forall|i: int| 8 <= i < 16 ==> init_rx_ready(c.register_block, i))
                            &&& c.register_block.iflag1 == 0
                            &&& !mdis_bit(c.register_block.mcr)
                            &&& !frz_bit(c.register_block.mcr)
                            &&& !halt_bit(c.register_block.mcr)
                            &&& !frzack_bit(c.register_block.mcr)
                            &&& !lpmack_bit(c.register_block.mcr)
                            &&& !softrst_bit(c.register_block.mcr)
                            &&& rfen_bit(c.register_block.mcr) == settings.rx_fifo
                            &&& srxdis_bit(c.register_block.mcr) == !settings.self_reception
                            &&& irmq_bit(c.register_block.mcr) == settings.individual_masking
                            &&& aen_bit(c.register_block.mcr)
                            &&& !dma_bit(c.register_block.mcr)
                            &&& maxmb_field(c.register_block.mcr) == 15
                            &&& presdiv_field(c.register_block.ctrl1) == t.presdiv
                            &&& rjw_field(c.register_block.ctrl1) == t.rjw
                            &&& pseg1_field(c.register_block.ctrl1) == t.pseg1
                            &&& pseg2_field(c.register_block.ctrl1) == t.pseg2
                            &&& propseg_field(c.register_block.ctrl1) == t.propseg
                            &&& lpb_bit(c.register_block.ctrl1) == settings.loopback_mode
                            &&& clksrc_bit(c.register_block.ctrl1) == (settings.clock_source
                                == ClockSource::Sys)
                            &&& c.register_block.rxmgmask == 0
                            &&& (settings.loopback_mode ==> !tdcen_bit(c.register_block.fdctrl))
                        },
                    }
                }
            }),
    {
        let source_frequency = match settings.clock_source {
            ClockSource::Sys => core_frequency,
            ClockSource::Soscdiv2 => match soscdiv2_frequency {
                Some(f) => f,
                None => {
                    return Err(CanError::ClockSourceDisabled);
                },
            },
        };

        let timing = match BitTiming::compute(source_frequency, settings.can_frequency) {
            Ok(t) => t,
            Err(e) => {
                return Err(e);
            },
        };

        let mut p = register_block;
        reset(&mut p);

        // Select the clock source before enabling the module.
        let clksrc_set = settings.clock_source == ClockSource::Sys;
        let c0 = if clksrc_set {
            p.ctrl1 | (1u32 << 13)
        } else {
            p.ctrl1 & !(1u32 << 13)
        };
        proof {
            crate::bits::lemma_or_one_bit(p.ctrl1, 13);
            lemma_and_not(p.ctrl1, 1u32 << 13);
            lemma_one_bit_mask(13);
        }
        p.write_ctrl1(c0);

        enable(&mut p);
        enter_freeze(&mut p);

        // Mode configuration: FIFO, self reception, masking scheme,
        // abort enable, no DMA, and the highest mailbox in use.
        let rfen_w: u32 = if settings.rx_fifo { 1 } else { 0 };
        let srx_w: u32 = if !settings.self_reception { 1 } else { 0 };
        let irmq_w: u32 = if settings.individual_masking { 1 } else { 0 };
        let mcr_v = (p.mcr & !0x2003_907fu32) | (rfen_w << 29) | (srx_w << 17) | (irmq_w << 16) | (
        1u32 << 12) | 15u32;
        proof {
            lemma_mcr_config(mcr_v, p.mcr, rfen_w, srx_w, irmq_w);
        }
        p.write_mcr(mcr_v);

        // Bit timing and loop-back configuration.
        let lpb_w: u32 = if settings.loopback_mode { 1 } else { 0 };
        let ctrl1_v = (p.ctrl1 & 0x0000_eff8u32) | ((timing.presdiv as u32) << 24) | ((timing.rjw
            as u32) << 22) | ((timing.pseg1 as u32) << 19) | ((timing.pseg2 as u32) << 16) | (lpb_w
            << 12) | (timing.propseg as u32);
        proof {
            lemma_ctrl1_config(
                ctrl1_v,
                p.ctrl1,
                timing.presdiv as u32,
                timing.rjw as u32,
                timing.pseg1 as u32,
                timing.pseg2 as u32,
                lpb_w,
                timing.propseg as u32,
            );
        }
        p.write_ctrl1(ctrl1_v);

        // In loop-back mode the transceiver delay compensation is off.
        if settings.loopback_mode {
            let fd_v = p.fdctrl & !(1u32 << 15);
            proof {
                lemma_and_not(p.fdctrl, 1u32 << 15);
                lemma_one_bit_mask(15);
            }
            p.write_fdctrl(fd_v);
        }

        // Accept every frame: the global acceptance mask matches nothing.
        p.write_rxmgmask(0);

        let ghost p_cfg = p;

        // Initialize the mailbox table, transmit half first.
        let filter_frame = CanFrame::DataFrame(DataFrame { id: ID::ExtendedID(0), data: Vec::new() });
        let tx_header = MailboxHeader::default_transmit();
        let mut mb: usize = 0;
        while mb < TX_MAILBOXES
            invariant
                p.wf(),
                filter_frame.wf(),
                filter_frame.dlc_spec() == 0,
                filter_frame.id_spec() == ID::ExtendedID(0),
                !filter_frame.is_remote_spec(),
                tx_header == (MailboxHeader {
                    error_state_indicator: false,
                    code: MessageBufferCode::Transmit(TransmitBufferState::Inactive),
                    time_stamp: 0,
                    priority: 0,
                }),
                mb <= 8,
                same_regs(p_cfg, p),
                forall|i: int| 0 <= i < mb ==> init_tx_ready(p, i),
            decreases 8 - mb,
        {
            let ghost p_head = p;
            inactivate_mailbox(&mut p, mb);
            let ghost p_a = p;
            match write_mailbox(&mut p, &tx_header, &filter_frame, mb) {
                Ok(()) => {},
                Err(_) => {
                    // Unreachable: the mailbox was just inactivated.
                    return Err(CanError::ConfigurationFailed);
                },
            }
            proof {
                assert(init_tx_ready(p, mb as int));
                assert forall|i: int| 0 <= i < mb + 1 implies init_tx_ready(p, i) by {
                    if i < mb {
                        assert(init_tx_ready(p_head, i));
                        assert(p_a.ram@[4 * i] == p_head.ram@[4 * i]);
                        assert(p_a.ram@[4 * i + 1] == p_head.ram@[4 * i + 1]);
                        assert(p.ram@[4 * i] == p_a.ram@[4 * i]);
                        assert(p.ram@[4 * i + 1] == p_a.ram@[4 * i + 1]);
                        assert(p.cs(i) == p_head.cs(i) && p.idw(i) == p_head.idw(i));
                    }
                };
            }
            mb = mb + 1;
        }

        // Receive half: armed Empty.
        let rx_header = MailboxHeader::default_receive();
        let mut mb2: usize = TX_MAILBOXES;
        while mb2 < TX_MAILBOXES + RX_MAILBOXES
            invariant
                p.wf(),
                filter_frame.wf(),
                filter_frame.dlc_spec() == 0,
                filter_frame.id_spec() == ID::ExtendedID(0),
                !filter_frame.is_remote_spec(),
                rx_header == (MailboxHeader {
                    error_state_indicator: false,
                    code: MessageBufferCode::Receive(crate::codec::ReceiveBufferCode {
                        state: crate::codec::ReceiveBufferState::Empty,
                        busy: false,
                    }),
                    time_stamp: 0,
                    priority: 0,
                }),
                8 <= mb2 <= 16,
                same_regs(p_cfg, p),
                forall|i: int| 0 <= i < 8 ==> init_tx_ready(p, i),
                forall|i: int| 8 <= i < mb2 ==> init_rx_ready(p, i),
            decreases 16 - mb2,
        {
            let ghost p_head = p;
            inactivate_mailbox(&mut p, mb2);
            let ghost p_a = p;
            match write_mailbox(&mut p, &rx_header, &filter_frame, mb2) {
                Ok(()) => {},
                Err(_) => {
                    // Unreachable: the mailbox was just inactivated.
                    return Err(CanError::ConfigurationFailed);
                },
            }
            proof {
                assert(init_rx_ready(p, mb2 as int));
                assert forall|i: int| 0 <= i < 8 implies init_tx_ready(p, i) by {
                    assert(init_tx_ready(p_head, i));
                    assert(p_a.ram@[4 * i] == p_head.ram@[4 * i]);
                    assert(p_a.ram@[4 * i + 1] == p_head.ram@[4 * i + 1]);
                    assert(p.ram@[4 * i] == p_a.ram@[4 * i]);
                    assert(p.ram@[4 * i + 1] == p_a.ram@[4 * i + 1]);
                    assert(p.cs(i) == p_head.cs(i) && p.idw(i) == p_head.idw(i));
                };
                assert forall|i: int| 8 <= i < mb2 + 1 implies init_rx_ready(p, i) by {
                    if i < mb2 {
                        assert(init_rx_ready(p_head, i));
                        assert(p_a.ram@[4 * i] == p_head.ram@[4 * i]);
                        assert(p_a.ram@[4 * i + 1] == p_head.ram@[4 * i + 1]);
                        assert(p.ram@[4 * i] == p_a.ram@[4 * i]);
                        assert(p.ram@[4 * i + 1] == p_a.ram@[4 * i + 1]);
                        assert(p.cs(i) == p_head.cs(i) && p.idw(i) == p_head.idw(i));
                    }
                };
            }
            mb2 = mb2 + 1;
        }

        let ghost p_mb = p;

        // Clear every completion flag so no stale data dangles.
        proof {
            lemma_const_bits();
        }
        p.write_iflag1(0xffff_ffff);

        leave_freeze(&mut p);

        proof {
            assert(p.iflag1 == 0);
            assert(p.ctrl1 == ctrl1_v);
            assert(presdiv_field(p.ctrl1) == timing.presdiv);
            assert(rjw_field(p.ctrl1) == timing.rjw);
            assert(pseg1_field(p.ctrl1) == timing.pseg1);
            assert(pseg2_field(p.ctrl1) == timing.pseg2);
            assert(propseg_field(p.ctrl1) == timing.propseg);
            assert(lpb_bit(p.ctrl1) == settings.loopback_mode);
            assert(clksrc_bit(p.ctrl1) == (settings.clock_source == ClockSource::Sys));
            assert(nth_bit(p.mcr, 29) == nth_bit(p_cfg.mcr, 29));
            assert(nth_bit(p.mcr, 17) == nth_bit(p_cfg.mcr, 17));
            assert(nth_bit(p.mcr, 16) == nth_bit(p_cfg.mcr, 16));
            assert(nth_bit(p.mcr, 12) == nth_bit(p_cfg.mcr, 12));
            assert(nth_bit(p.mcr, 15) == nth_bit(p_cfg.mcr, 15));
            assert(rfen_bit(p.mcr) == settings.rx_fifo);
            assert(srxdis_bit(p.mcr) == !settings.self_reception);
            assert(irmq_bit(p.mcr) == settings.individual_masking);
            assert(aen_bit(p.mcr) && !dma_bit(p.mcr));
            assert(maxmb_field(p.mcr) == 15);
            assert(!mdis_bit(p.mcr) && !frz_bit(p.mcr) && !halt_bit(p.mcr) && !frzack_bit(p.mcr)
                && !lpmack_bit(p.mcr) && !softrst_bit(p.mcr));
            assert forall|i: int| 0 <= i < 8 implies init_tx_ready(p, i) by {
                assert(init_tx_ready(p_mb, i));
                assert(p.cs(i) == p_mb.cs(i) && p.idw(i) == p_mb.idw(i));
            };
            assert forall|i: int| 8 <= i < 16 implies init_rx_ready(p, i) by {
                assert(init_rx_ready(p_mb, i));
                assert(p.cs(i) == p_mb.cs(i) && p.idw(i) == p_mb.idw(i));
            };
        }

        Ok(Can { register_block: p })
    }

    /// Construction for the variable-bit-rate frame mode, which this
    /// driver does not support: the timing fields of the control 1
    /// register do not apply to it, so nothing is configured and the
    /// handle is merely stored.
    pub fn init_fd(register_block: CanPeripheral, _settings: &CanSettings) -> (r: Result<
        Can,
        CanError,
    >)
        requires
            register_block.wf(),
        ensures
            r matches Ok(c) && c.register_block == register_block,
            r matches Ok(c) && c.wf(),
    {
        Ok(Can { register_block })
    }

    /// Write `frame` into the first Inactive transmit mailbox, without
    /// evicting anything: a burst of low-priority frames can starve a
    /// late high-priority one under this call.
    pub fn transmit_quick(&mut self, frame: &CanFrame) -> (r: Result<(), CanError>)
        requires
            old(self).wf(),
            frame.wf(),
        ensures
            final(self).wf(),
            ({
                let k = first_inactive_tx(old(self).register_block, 8);
                if k < 8 {
                    &&& r == Ok::<(), CanError>(())
                    &&& written_words(
                        old(self).register_block,
                        final(self).register_block,
                        k,
                        transmit_header_spec(),
                        *frame,
                    )
                    &&& (forall|j: int|
                        0 <= j < 32 ==> final(self).register_block.flagged(j) == (old(self).register_block.flagged(j) && j != k))
                    &&& final(self).register_block.mcr == old(self).register_block.mcr
                    &&& final(self).register_block.ctrl1 == old(self).register_block.ctrl1
                    &&& final(self).register_block.rxmgmask == old(self).register_block.rxmgmask
                    &&& final(self).register_block.fdctrl == old(self).register_block.fdctrl
                    &&& final(self).register_block.timer == old(self).register_block.timer
                } else {
                    r == Err::<(), CanError>(CanError::BufferExhausted) && *final(self) == *old(self)
                }
            }),
    {
        let mut header = MailboxHeader::default_transmit();
        header.code = MessageBufferCode::Transmit(TransmitBufferState::DataRemote);

        let mut i: usize = 0;
        while i < TX_MAILBOXES
            invariant
                old(self).wf(),
                frame.wf(),
                *self == *old(self),
                i <= 8,
                forall|x: int| 0 <= x < i ==> old(self).register_block.code(x) != 0x8,
                header == transmit_header_spec(),
            decreases 8 - i,
        {
            match read_mailbox_code(&self.register_block, i) {
                Ok(MessageBufferCode::Transmit(TransmitBufferState::Inactive)) => {
                    proof {
                        lemma_first_inactive_tx(old(self).register_block, 8, i as int);
                    }
                    match write_mailbox(&mut self.register_block, &header, frame, i) {
                        Ok(()) => {
                            return Ok(());
                        },
                        Err(e) => {
                            // Unreachable: the mailbox was just seen Inactive.
                            return Err(e);
                        },
                    }
                },
                _ => {},
            }
            i = i + 1;
        }
        proof {
            lemma_first_inactive_tx(old(self).register_block, 8, 8);
        }
        Err(CanError::BufferExhausted)
    }

    /// Return the first frame whose receive mailbox has its completion
    /// flag set, scanning in fixed ascending index order; the read also
    /// acknowledges that flag.  Failing with `BufferExhausted` means "no
    /// frame currently available": retry later.
    pub fn receive(&mut self) -> (r: Result<CanFrame, CanError>)
        requires
            old(self).wf(),
        ensures
            final(self).wf(),
            ({
                let j = first_flagged_rx(old(self).register_block, 8);
                if j >= 16 {
                    r == Err::<CanFrame, CanError>(CanError::BufferExhausted) && *final(self)
                        == *old(self)
                } else {
                    let cs = old(self).register_block.cs(j);
                    match decode_spec(code_field(cs)) {
                        None => r == Err::<CanFrame, CanError>(CanError::DecodeError) && *final(self) == *old(self),
                        Some(c) => {
                            if (c matches MessageBufferCode::Receive(rc) && rc.busy) {
                                r == Err::<CanFrame, CanError>(CanError::Timeout) && *final(self)
                                    == *old(self)
                            } else if !rtr_bit(cs) && dlc_field(cs) > 8 {
                                r == Err::<CanFrame, CanError>(CanError::DecodeError) && *final(self) == *old(self)
                            } else {
                                &&& r matches Ok(f) && frame_read(old(self).register_block, j, f)
                                &&& final(self).register_block.ram@ == old(self).register_block.ram@
                                &&& (forall|x: int|
                                    0 <= x < 32 ==> final(self).register_block.flagged(x) == (old(self).register_block.flagged(x) && x != j))
                                &&& final(self).register_block.mcr == old(self).register_block.mcr
                                &&& final(self).register_block.ctrl1 == old(self).register_block.ctrl1
                                &&& final(self).register_block.rxmgmask == old(self).register_block.rxmgmask
                                &&& final(self).register_block.fdctrl == old(self).register_block.fdctrl
                                &&& final(self).register_block.timer == old(self).register_block.timer
                            }
                        },
                    }
                }
            }),
    {
        let mut i: usize = TX_MAILBOXES;
        while i < TX_MAILBOXES + RX_MAILBOXES
            invariant
                old(self).wf(),
                *self == *old(self),
                8 <= i <= 16,
                forall|x: int| 8 <= x < i ==> !old(self).register_block.flagged(x),
            decreases 16 - i,
        {
            if test_bit(self.register_block.iflag1, i as u32) {
                proof {
                    lemma_first_flagged_rx(old(self).register_block, 8, i as int);
                }
                match read_mailbox(&mut self.register_block, i) {
                    Ok((_header, f)) => {
                        return Ok(f);
                    },
                    Err(e) => {
                        return Err(e);
                    },
                }
            }
            i = i + 1;
        }
        proof {
            lemma_first_flagged_rx(old(self).register_block, 8, 16);
        }
        Err(CanError::BufferExhausted)
    }

    /// Transmit with eviction: write into an Inactive mailbox if one
    /// exists; otherwise, if the incoming frame's identifier is
    /// numerically smaller (higher bus priority) than the largest
    /// identifier currently pending, abort that mailbox, install the new
    /// frame there, and hand the evicted frame back to the caller.  If
    /// the incoming frame is not higher priority than the worst pending
    /// one, fail with `BufferExhausted` and evict nothing.
    pub fn transmit(&mut self, frame: &CanFrame) -> (r: Result<Option<CanFrame>, CanError>)
        requires
            old(self).wf(),
            frame.wf(),
        ensures
            final(self).wf(),
            ({
                let p0 = old(self).register_block;
                let k = first_non_pending_tx(p0, 8);
                if !(forall|x: int| 0 <= x < k ==> tx_parseable(p0, x)) {
                    &&& r == Err::<Option<CanFrame>, CanError>(CanError::DecodeError)
                    &&& final(self).register_block.ram@ == p0.ram@
                    &&& (forall|x: int|
                        0 <= x < 32 ==> (final(self).register_block.flagged(x) ==> p0.flagged(x)))
                    &&& (forall|x: int|
                        8 <= x < 32 ==> final(self).register_block.flagged(x) == p0.flagged(x))
                    &&& same_regs(p0, final(self).register_block)
                } else if k < 8 {
                    let cs = p0.cs(k);
                    match decode_spec(code_field(cs)) {
                        None => r == Err::<Option<CanFrame>, CanError>(CanError::DecodeError)
                            && final(self).register_block.ram@ == p0.ram@ && flags_cleared_below(
                            p0,
                            final(self).register_block,
                            k,
                        ) && same_regs(p0, final(self).register_block),
                        Some(c) => {
                            if (c matches MessageBufferCode::Receive(rc) && rc.busy) {
                                r == Err::<Option<CanFrame>, CanError>(CanError::Timeout) && final(self).register_block.ram@ == p0.ram@ && flags_cleared_below(
                                    p0,
                                    final(self).register_block,
                                    k,
                                ) && same_regs(p0, final(self).register_block)
                            } else if !tx_parseable(p0, k) {
                                r == Err::<Option<CanFrame>, CanError>(CanError::DecodeError)
                                    && final(self).register_block.ram@ == p0.ram@
                                    && flags_cleared_below(p0, final(self).register_block, k)
                                    && same_regs(p0, final(self).register_block)
                            } else if c == MessageBufferCode::Transmit(
                                TransmitBufferState::Inactive,
                            ) {
                                &&& r == Ok::<Option<CanFrame>, CanError>(None)
                                &&& written_words(
                                    p0,
                                    final(self).register_block,
                                    k,
                                    transmit_header_spec(),
                                    *frame,
                                )
                                &&& flags_cleared_below(p0, final(self).register_block, k + 1)
                                &&& same_regs(p0, final(self).register_block)
                            } else {
                                &&& r == Err::<Option<CanFrame>, CanError>(
                                    CanError::InvalidMailboxState,
                                )
                                &&& final(self).register_block.ram@ == p0.ram@
                                &&& flags_cleared_below(p0, final(self).register_block, k + 1)
                                &&& same_regs(p0, final(self).register_block)
                            }
                        },
                    }
                } else {
                    let w = worst_pending_idx(p0, 8);
                    if frame.id_spec().value_spec() < held_id(p0, w) {
                        &&& r matches Ok(Some(ev)) && frame_read(p0, w, ev)
                        &&& written_words(
                            p0,
                            final(self).register_block,
                            w,
                            transmit_header_spec(),
                            *frame,
                        )
                        &&& flags_cleared_below(p0, final(self).register_block, 8)
                        &&& same_regs(p0, final(self).register_block)
                    } else {
                        &&& r == Err::<Option<CanFrame>, CanError>(CanError::BufferExhausted)
                        &&& final(self).register_block.ram@ == p0.ram@
                        &&& flags_cleared_below(p0, final(self).register_block, 8)
                        &&& same_regs(p0, final(self).register_block)
                    }
                }
            }),
    {
        let ghost p0 = self.register_block;
        let mut highest_id: u32 = 0;
        let mut mailbox_number: usize = 0;

        let mut transmit_header = MailboxHeader::default_transmit();
        transmit_header.code = MessageBufferCode::Transmit(TransmitBufferState::DataRemote);

        let mut i: usize = 0;
        while i < TX_MAILBOXES
            invariant
                old(self).wf(),
                frame.wf(),
                self.register_block.wf(),
                p0 == old(self).register_block,
                i <= 8,
                forall|x: int| 0 <= x < i ==> p0.code(x) == 0xc,
                forall|x: int| 0 <= x < i ==> tx_parseable(p0, x),
                self.register_block.ram@ == p0.ram@,
                same_regs(p0, self.register_block),
                flags_cleared_below(p0, self.register_block, i as int),
                transmit_header == transmit_header_spec(),
                i == 0 ==> highest_id == 0 && mailbox_number == 0,
                i >= 1 ==> mailbox_number as int == worst_pending_idx(p0, i as int) && highest_id
                    == held_id(p0, mailbox_number as int) && (mailbox_number as int) < i,
            decreases 8 - i,
        {
            match read_mailbox(&mut self.register_block, i) {
                Err(e) => {
                    proof {
                        assert(self.register_block.cs(i as int) == p0.cs(i as int));
                        let k = first_non_pending_tx(p0, 8);
                        if p0.code(i as int) != 0xc {
                            lemma_first_non_pending_tx(p0, 8, i as int);
                            assert(k == i as int);
                            assert(flags_cleared_below(p0, self.register_block, k));
                        } else {
                            lemma_first_non_pending_lb(p0, 8, i as int + 1);
                            assert(k > i as int);
                            assert(!tx_parseable(p0, i as int));
                            assert(!(forall|x: int| 0 <= x < k ==> tx_parseable(p0, x)));
                            assert(forall|x: int|
                                0 <= x < 32 ==> (self.register_block.flagged(x) ==> p0.flagged(
                                    x,
                                )));
                            assert(forall|x: int|
                                8 <= x < 32 ==> self.register_block.flagged(x) == p0.flagged(x));
                        }
                    }
                    return Err(e);
                },
                Ok((header, old_frame)) => {
                    match header.code {
                        MessageBufferCode::Transmit(TransmitBufferState::Inactive) => {
                            proof {
                                lemma_first_non_pending_tx(p0, 8, i as int);
                            }
                            match write_mailbox(&mut self.register_block, &transmit_header, frame, i) {
                                Ok(()) => {
                                    return Ok(None);
                                },
                                Err(e) => {
                                    // Unreachable: the mailbox was just seen Inactive.
                                    return Err(e);
                                },
                            }
                        },
                        MessageBufferCode::Transmit(TransmitBufferState::DataRemote) => {
                            let held = old_frame.id().value();
                            if held > highest_id {
                                highest_id = held;
                                mailbox_number = i;
                            }
                        },
                        _ => {
                            proof {
                                lemma_first_non_pending_tx(p0, 8, i as int);
                            }
                            return Err(CanError::InvalidMailboxState);
                        },
                    }
                },
            }
            i = i + 1;
        }
        proof {
            lemma_first_non_pending_tx(p0, 8, 8);
        }

        if highest_id > frame.id().value() {
            proof {
                assert(mailbox_number as int == worst_pending_idx(p0, 8));
                assert(p0.code(mailbox_number as int) == 0xc);
                assert(tx_parseable(p0, mailbox_number as int));
                assert(self.register_block.code(mailbox_number as int) == 0xc);
            }
            let evicted = match abort_mailbox(&mut self.register_block, mailbox_number) {
                Ok(ev) => ev,
                Err(e) => {
                    // Unreachable: the mailbox held a parseable pending frame.
                    return Err(e);
                },
            };
            let ghost p2 = self.register_block;
            proof {
                assert(evicted matches Some(f) && frame_read(p0, mailbox_number as int, f));
                lemma_abort_word(p0.cs(mailbox_number as int));
                assert(p2.code(mailbox_number as int) == 0x9);
            }
            match write_mailbox(&mut self.register_block, &transmit_header, frame, mailbox_number) {
                Ok(()) => {
                    proof {
                        let w = mailbox_number as int;
                        assert(written_words(p2, self.register_block, w, transmit_header_spec(), *frame));
                        assert(forall|kk: int|
                            frame.dlc_spec() <= kk < 8 ==> p2.mb_byte(w, kk) == p0.mb_byte(w, kk));
                        assert(forall|j: int|
                            0 <= j < 64 && !(4 * w <= j < 4 * w + 4) ==> p2.ram@[j] == p0.ram@[j]);
                        assert(written_words(p0, self.register_block, w, transmit_header_spec(), *frame));
                        assert(flags_cleared_below(p0, self.register_block, 8));
                    }
                    Ok(evicted)
                },
                Err(e) => {
                    // Unreachable: the mailbox was just aborted.
                    Err(e)
                },
            }
        } else {
            Err(CanError::BufferExhausted)
        }
    }
}

/// The control, timing, mask and timer registers of `a` and `b` agree.
pub open spec fn same_regs(a: CanPeripheral, b: CanPeripheral) -> bool {
    &&& b.mcr == a.mcr
    &&& b.ctrl1 == a.ctrl1
    &&& b.rxmgmask == a.rxmgmask
    &&& b.fdctrl == a.fdctrl
    &&& b.timer == a.timer
}

/// Completion flags below `n` are cleared in `b`; all others read as in
/// `a`.
pub open spec fn flags_cleared_below(a: CanPeripheral, b: CanPeripheral, n: int) -> bool {
    forall|x: int| 0 <= x < 32 ==> b.flagged(x) == (a.flagged(x) && !(x < n))
}

proof fn lemma_first_non_pending_lb(p: CanPeripheral, n: int, m: int)
    requires
        0 <= m <= n,
        forall|x: int| 0 <= x < m ==> p.code(x) == 0xc,
    ensures
        first_non_pending_tx(p, n) >= m,
    decreases n,
{
    if n > 0 {
        if m >= n {
            lemma_first_non_pending_lb(p, n - 1, n - 1);
        } else {
            lemma_first_non_pending_lb(p, n - 1, m);
        }
    }
}

} // verus!
