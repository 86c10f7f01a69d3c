use flexcan::can::Can;
use flexcan::frame::{CanFrame, DataFrame, ID};
use flexcan::mailbox::read_mailbox;
use flexcan::peripheral::CanPeripheral;
use flexcan::settings::{CanSettings, ClockSource};
use flexcan::CanError;

fn settings_sys(can_frequency: u32) -> CanSettings {
    let mut s = CanSettings::default();
    s.clock_source = ClockSource::Sys;
    s.can_frequency = can_frequency;
    s
}

fn data_frame(id: u16, data: Vec<u8>) -> CanFrame {
    CanFrame::DataFrame(DataFrame { id: ID::BaseID(id), data })
}

fn fresh_driver() -> Can {
    Can::init(
        CanPeripheral::new(),
        8_000_000,
        None,
        &settings_sys(1_000_000),
    )
    .unwrap()
}

#[test]
fn default_settings() {
    let s = CanSettings::default();
    assert!(!s.warning_interrupt);
    assert!(s.self_reception);
    assert!(!s.rx_fifo);
    assert!(!s.individual_masking);
    assert!(!s.loopback_mode);
    assert_eq!(s.can_frequency, 1_000_000);
    assert_eq!(s.clock_source, ClockSource::Soscdiv2);
    assert_eq!(ClockSource::default(), ClockSource::Soscdiv2);
}

#[test]
fn init_prepares_every_mailbox() {
    let can = fresh_driver();
    for i in 0..8 {
        // Transmit half: Inactive, extended filter identifier 0.
        assert_eq!(can.register_block.read_ram_word(4 * i), 0x0860_0000);
        assert_eq!(can.register_block.read_ram_word(4 * i + 1), 0);
    }
    for i in 8..16 {
        // Receive half: Empty, armed to accept a frame.
        assert_eq!(can.register_block.read_ram_word(4 * i), 0x0460_0000);
        assert_eq!(can.register_block.read_ram_word(4 * i + 1), 0);
    }
    assert_eq!(can.register_block.iflag1, 0);
    assert_eq!(can.register_block.rxmgmask, 0);
    // Running: not disabled, not frozen, acknowledgments dropped.
    assert_eq!(can.register_block.mcr & (1 << 31), 0);
    assert_eq!(can.register_block.mcr & (1 << 30), 0);
    assert_eq!(can.register_block.mcr & (1 << 28), 0);
    assert_eq!(can.register_block.mcr & (1 << 24), 0);
    assert_eq!(can.register_block.mcr & (1 << 20), 0);
    // 16 mailboxes in use, abort enabled.
    assert_eq!(can.register_block.mcr & 0x7f, 15);
    assert_ne!(can.register_block.mcr & (1 << 12), 0);
}

#[test]
fn init_applies_bit_timing() {
    // 8 MHz source at 1 MHz bit rate: 8 quanta per bit.
    let can = fresh_driver();
    let ctrl1 = can.register_block.ctrl1;
    assert_eq!((ctrl1 >> 24) & 0xff, 0); // prescaler division factor
    assert_eq!((ctrl1 >> 22) & 0x3, 1); // resync jump width
    assert_eq!((ctrl1 >> 19) & 0x7, 2); // phase segment 1
    assert_eq!((ctrl1 >> 16) & 0x7, 1); // phase segment 2
    assert_eq!(ctrl1 & 0x7, 1); // propagation segment
    assert_ne!(ctrl1 & (1 << 13), 0); // system clock selected
}

#[test]
fn init_rejects_disabled_clock_source() {
    let s = CanSettings::default(); // selects Soscdiv2
    assert!(matches!(
        Can::init(CanPeripheral::new(), 48_000_000, None, &s),
        Err(CanError::ClockSourceDisabled)
    ));
}

#[test]
fn init_rejects_bad_ratio() {
    assert!(matches!(
        Can::init(CanPeripheral::new(), 4_000_000, None, &settings_sys(1_000_000)),
        Err(CanError::SettingsError)
    ));
}

#[test]
fn init_rejects_unsupported_quanta_count() {
    assert!(matches!(
        Can::init(CanPeripheral::new(), 6_000_000, None, &settings_sys(1_000_000)),
        Err(CanError::ConfigurationFailed)
    ));
}

#[test]
fn init_fd_stores_the_handle() {
    assert!(Can::init_fd(CanPeripheral::new(), &CanSettings::default()).is_ok());
}

#[test]
fn transmit_quick_succeeds_exactly_eight_times() {
    let mut can = fresh_driver();
    for i in 0..8u16 {
        assert_eq!(can.transmit_quick(&data_frame(0x100 + i, vec![i as u8])), Ok(()));
    }
    assert_eq!(
        can.transmit_quick(&data_frame(0x200, vec![])),
        Err(CanError::BufferExhausted)
    );
}

#[test]
fn transmit_evicts_the_lowest_priority_pending_frame() {
    let mut can = fresh_driver();
    // Mailboxes 0..8 fill in order; slot 3 holds 0x500, the rest hold
    // numerically larger (lower priority) identifiers.
    for i in 0..8u16 {
        let id = if i == 3 { 0x500 } else { 0x600 + i };
        can.transmit_quick(&data_frame(id, vec![i as u8])).unwrap();
    }
    // A higher-priority frame evicts the worst pending one.
    let evicted = can.transmit(&data_frame(0x100, vec![0xaa])).unwrap();
    assert_eq!(evicted, Some(data_frame(0x607, vec![7])));
    // The new frame sits in the evicted slot.
    let (_, back) = read_mailbox(&mut can.register_block, 7).unwrap();
    assert_eq!(back, data_frame(0x100, vec![0xaa]));
}

#[test]
fn transmit_returns_held_frame_for_highest_pending_identifier() {
    let mut can = fresh_driver();
    // One mailbox pending with 0x500; all others hold larger identifiers.
    for i in 0..8u16 {
        let id = if i == 3 { 0x500 } else { 0x600 + i };
        can.transmit_quick(&data_frame(id, vec![])).unwrap();
    }
    // 0x607 is the numerically largest pending identifier, at slot 7.
    let evicted = can.transmit(&data_frame(0x550, vec![])).unwrap();
    assert_eq!(evicted, Some(data_frame(0x607, vec![])));
}

#[test]
fn transmit_refuses_lower_priority_frame_and_evicts_nothing() {
    let mut can = fresh_driver();
    for i in 0..8u16 {
        let id = if i == 3 { 0x500 } else { 0x600 + i };
        can.transmit_quick(&data_frame(id, vec![i as u8])).unwrap();
    }
    let before: Vec<u32> = (0..64).map(|i| can.register_block.read_ram_word(i)).collect();
    assert_eq!(
        can.transmit(&data_frame(0x700, vec![])),
        Err(CanError::BufferExhausted)
    );
    let after: Vec<u32> = (0..64).map(|i| can.register_block.read_ram_word(i)).collect();
    assert_eq!(after, before);
}

#[test]
fn transmit_uses_a_free_mailbox_without_eviction() {
    let mut can = fresh_driver();
    assert_eq!(can.transmit(&data_frame(0x123, vec![1])), Ok(None));
    let (_, back) = read_mailbox(&mut can.register_block, 0).unwrap();
    assert_eq!(back, data_frame(0x123, vec![1]));
}

#[test]
fn transmit_surfaces_unexpected_mailbox_states() {
    let mut can = fresh_driver();
    // A transmit mailbox carrying a receive answer code is a state this
    // driver never produces; it is reported, not asserted away.
    can.register_block.write_ram_word(0, 0x0a00_0000);
    assert_eq!(
        can.transmit(&data_frame(0x123, vec![])),
        Err(CanError::InvalidMailboxState)
    );
}

#[test]
fn receive_returns_the_lowest_flagged_mailbox_first() {
    let mut can = fresh_driver();
    let f10 = data_frame(0x321, vec![1, 2]);
    let f13 = data_frame(0x322, vec![3]);
    can.register_block.frame_received(10, &f10, 7);
    can.register_block.frame_received(13, &f13, 8);
    assert_eq!(can.receive(), Ok(f10));
    // Mailbox 13 is untouched until polled again.
    assert_ne!(can.register_block.iflag1 & (1 << 13), 0);
    assert_eq!(can.register_block.iflag1 & (1 << 10), 0);
    assert_eq!(can.receive(), Ok(f13));
    assert_eq!(can.receive(), Err(CanError::BufferExhausted));
}

#[test]
fn receive_reports_nothing_available() {
    let mut can = fresh_driver();
    assert_eq!(can.receive(), Err(CanError::BufferExhausted));
}
