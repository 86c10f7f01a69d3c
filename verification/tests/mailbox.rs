use flexcan::codec::{MessageBufferCode, TransmitBufferState};
use flexcan::frame::{CanFrame, DataFrame, RemoteFrame, ID};
use flexcan::mailbox::{
    abort_mailbox, inactivate_mailbox, read_mailbox, read_mailbox_code, write_mailbox,
    MailboxHeader,
};
use flexcan::peripheral::CanPeripheral;
use flexcan::CanError;

fn pending_header() -> MailboxHeader {
    let mut h = MailboxHeader::default_transmit();
    h.code = MessageBufferCode::Transmit(TransmitBufferState::DataRemote);
    h
}

fn snapshot(p: &CanPeripheral) -> Vec<u32> {
    (0..64).map(|i| p.read_ram_word(i)).collect()
}

#[test]
fn base_frame_round_trip() {
    let mut p = CanPeripheral::new();
    let frame = CanFrame::DataFrame(DataFrame {
        id: ID::BaseID(0x123),
        data: vec![0xde, 0xad, 0xbe, 0xef, 0x01],
    });
    write_mailbox(&mut p, &pending_header(), &frame, 2).unwrap();
    let (header, back) = read_mailbox(&mut p, 2).unwrap();
    assert_eq!(back, frame);
    assert_eq!(
        header.code,
        MessageBufferCode::Transmit(TransmitBufferState::DataRemote)
    );
    assert_eq!(header.priority, 0);
    assert_eq!(header.time_stamp, 0);
    assert!(!header.error_state_indicator);
}

#[test]
fn extended_frame_round_trip_keeps_all_29_bits() {
    let mut p = CanPeripheral::new();
    let frame = CanFrame::DataFrame(DataFrame {
        id: ID::ExtendedID(0x1fff_ffff),
        data: vec![1, 2, 3, 4, 5, 6, 7, 8],
    });
    write_mailbox(&mut p, &pending_header(), &frame, 0).unwrap();
    let (_, back) = read_mailbox(&mut p, 0).unwrap();
    assert_eq!(back, frame);
}

#[test]
fn remote_frame_round_trip() {
    let mut p = CanPeripheral::new();
    let frame = CanFrame::RemoteFrame(RemoteFrame { id: ID::BaseID(0x7ff) });
    write_mailbox(&mut p, &pending_header(), &frame, 7).unwrap();
    let (_, back) = read_mailbox(&mut p, 7).unwrap();
    assert_eq!(back, frame);
}

#[test]
fn empty_payload_round_trip() {
    let mut p = CanPeripheral::new();
    let frame = CanFrame::DataFrame(DataFrame { id: ID::BaseID(0), data: vec![] });
    write_mailbox(&mut p, &pending_header(), &frame, 5).unwrap();
    let (_, back) = read_mailbox(&mut p, 5).unwrap();
    assert_eq!(back, frame);
}

#[test]
fn write_refused_while_hardware_owns_the_buffer() {
    // A mailbox in Receive:Full or Transmit:DataRemote refuses the write
    // and no register moves.
    for code in [0x02u32, 0x0c] {
        let mut p = CanPeripheral::new();
        p.write_ram_word(4 * 9, code << 24);
        let before = snapshot(&p);
        let frame = CanFrame::DataFrame(DataFrame { id: ID::BaseID(1), data: vec![9] });
        assert_eq!(
            write_mailbox(&mut p, &pending_header(), &frame, 9),
            Err(CanError::BusyMailboxWriteAttempted)
        );
        assert_eq!(snapshot(&p), before);
        assert_eq!(p.iflag1, 0);
    }
}

#[test]
fn write_refused_on_undecodable_code() {
    let mut p = CanPeripheral::new();
    p.write_ram_word(4 * 3, 0x0d00_0000);
    let before = snapshot(&p);
    let frame = CanFrame::DataFrame(DataFrame { id: ID::BaseID(1), data: vec![] });
    assert_eq!(
        write_mailbox(&mut p, &pending_header(), &frame, 3),
        Err(CanError::DecodeError)
    );
    assert_eq!(snapshot(&p), before);
}

#[test]
fn read_fails_on_undecodable_code() {
    let mut p = CanPeripheral::new();
    p.write_ram_word(4 * 1, 0x0f00_0000);
    assert_eq!(read_mailbox(&mut p, 1), Err(CanError::DecodeError));
}

#[test]
fn read_times_out_while_buffer_stays_busy() {
    // Receive:Full with the busy flag set never settles in this model.
    let mut p = CanPeripheral::new();
    p.write_ram_word(4 * 10, 0x0300_0000);
    assert_eq!(read_mailbox(&mut p, 10), Err(CanError::Timeout));
}

#[test]
fn read_fails_on_oversized_length_code() {
    // Data length codes above 8 cannot be rebuilt into a frame.
    let mut p = CanPeripheral::new();
    p.write_ram_word(4 * 2, 0x0c09_0000);
    assert_eq!(read_mailbox(&mut p, 2), Err(CanError::DecodeError));
}

#[test]
fn read_mailbox_code_decodes_current_state() {
    let mut p = CanPeripheral::new();
    p.write_ram_word(0, 0x0c00_0000);
    assert_eq!(
        read_mailbox_code(&p, 0),
        Ok(MessageBufferCode::Transmit(TransmitBufferState::DataRemote))
    );
    p.write_ram_word(0, 0x0d00_0000);
    assert_eq!(read_mailbox_code(&p, 0), Err(CanError::DecodeError));
}

#[test]
fn inactivate_follows_the_current_role() {
    let mut p = CanPeripheral::new();
    // Transmit-coded mailbox gets the transmit Inactive code.
    p.write_ram_word(4 * 4, 0x0c12_3456);
    inactivate_mailbox(&mut p, 4);
    assert_eq!(p.read_ram_word(4 * 4), 0x0800_0000);
    // Receive-coded mailbox gets the receive Inactive code.
    p.write_ram_word(4 * 12, 0x0212_3456);
    inactivate_mailbox(&mut p, 12);
    assert_eq!(p.read_ram_word(4 * 12), 0);
    // An undecodable code is zeroed outright.
    p.write_ram_word(4 * 6, 0x0fff_ffff);
    inactivate_mailbox(&mut p, 6);
    assert_eq!(p.read_ram_word(4 * 6), 0);
}

#[test]
fn abort_returns_the_pending_frame() {
    let mut p = CanPeripheral::new();
    let frame = CanFrame::DataFrame(DataFrame {
        id: ID::BaseID(0x500),
        data: vec![0x11, 0x22, 0x33],
    });
    write_mailbox(&mut p, &pending_header(), &frame, 1).unwrap();
    let aborted = abort_mailbox(&mut p, 1).unwrap();
    assert_eq!(aborted, Some(frame));
    // The code field now reads Abort and the completion flag is clear.
    assert_eq!((p.read_ram_word(4 * 1) >> 24) & 0xf, 0x9);
    assert_eq!(p.iflag1 & (1 << 1), 0);
}

#[test]
fn abort_of_idle_mailbox_returns_nothing() {
    let mut p = CanPeripheral::new();
    let before = snapshot(&p);
    assert_eq!(abort_mailbox(&mut p, 0), Ok(None));
    assert_eq!(snapshot(&p), before);
}
