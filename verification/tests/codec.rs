use flexcan::codec::{
    MessageBufferCode, ReceiveBufferCode, ReceiveBufferState, TransmitBufferState,
};

fn all_states() -> Vec<MessageBufferCode> {
    let mut v = Vec::new();
    for t in [
        TransmitBufferState::Inactive,
        TransmitBufferState::Abort,
        TransmitBufferState::DataRemote,
        TransmitBufferState::Tanswer,
    ] {
        v.push(MessageBufferCode::Transmit(t));
    }
    for s in [
        ReceiveBufferState::Inactive,
        ReceiveBufferState::Empty,
        ReceiveBufferState::Full,
        ReceiveBufferState::Overrun,
        ReceiveBufferState::Ranswer,
    ] {
        for busy in [false, true] {
            v.push(MessageBufferCode::Receive(ReceiveBufferCode { state: s, busy }));
        }
    }
    v
}

#[test]
fn decode_inverts_encode_for_every_state() {
    let states = all_states();
    assert_eq!(states.len(), 14);
    for s in states {
        assert_eq!(MessageBufferCode::decode(s.encode()), Ok(s));
    }
}

#[test]
fn encodings_are_distinct() {
    let states = all_states();
    for a in &states {
        for b in &states {
            if a != b {
                assert_ne!(a.encode(), b.encode());
            }
        }
    }
}

#[test]
fn exact_patterns() {
    assert_eq!(
        MessageBufferCode::Transmit(TransmitBufferState::Inactive).encode(),
        0b1000
    );
    assert_eq!(
        MessageBufferCode::Transmit(TransmitBufferState::Abort).encode(),
        0b1001
    );
    assert_eq!(
        MessageBufferCode::Transmit(TransmitBufferState::DataRemote).encode(),
        0b1100
    );
    assert_eq!(
        MessageBufferCode::Transmit(TransmitBufferState::Tanswer).encode(),
        0b1110
    );
    assert_eq!(
        MessageBufferCode::Receive(ReceiveBufferCode {
            state: ReceiveBufferState::Empty,
            busy: false,
        })
        .encode(),
        0b0100
    );
    assert_eq!(
        MessageBufferCode::Receive(ReceiveBufferCode {
            state: ReceiveBufferState::Full,
            busy: true,
        })
        .encode(),
        0b0011
    );
}

#[test]
fn reserved_patterns_fail_to_decode() {
    assert_eq!(MessageBufferCode::decode(0b1101), Err(()));
    assert_eq!(MessageBufferCode::decode(0b1111), Err(()));
}

#[test]
fn wide_values_fail_to_decode() {
    for b in 16..=255u8 {
        assert!(MessageBufferCode::decode(b).is_err());
    }
}
