//! The 4-bit message-buffer code and its bijective mapping to tagged
//! buffer states.
//!
//! The hardware stores each mailbox's state as a 4-bit field in the
//! control/status word.  Two of the sixteen patterns are reserved and must
//! fail to decode rather than being guessed at.

use vstd::prelude::*;

verus! {

/// State of a transmit-role message buffer.
#[derive(Clone, Copy, Debug, PartialEq, Eq, Structural)]
pub enum TransmitBufferState {
    /// Buffer is not active.
    Inactive,
    /// Buffer is being aborted.
    Abort,
    /// Buffer holds a pending data or remote frame (depending on the RTR bit).
    DataRemote,
    /// Buffer answers an incoming remote request frame.
    Tanswer,
}

/// State of a receive-role message buffer.
#[derive(Clone, Copy, Debug, PartialEq, Eq, Structural)]
pub enum ReceiveBufferState {
    /// Buffer is not active.
    Inactive,
    /// Buffer is active and empty.
    Empty,
    /// Buffer holds a received frame.
    Full,
    /// Buffer is being overwritten while full.
    Overrun,
    /// Buffer answers a remote request frame with a response frame.
    Ranswer,
}

/// A receive state together with the hardware's busy flag.  While `busy`
/// is set the hardware owns the buffer and software must not interpret
/// its contents.
#[derive(Clone, Copy, Debug, PartialEq, Eq, Structural)]
pub struct ReceiveBufferCode {
    pub state: ReceiveBufferState,
    pub busy: bool,
}

/// The tagged buffer state stored in a mailbox's 4-bit code field.
#[derive(Clone, Copy, Debug, PartialEq, Eq, Structural)]
pub enum MessageBufferCode {
    Receive(ReceiveBufferCode),
    Transmit(TransmitBufferState),
}

/// The fixed 4-bit pattern of each representable buffer state.  Receive
/// patterns carry the busy flag in bit 0 and the state in bits 1 to 3.
pub open spec fn encode_spec(code: MessageBufferCode) -> u8 {
    match code {
        MessageBufferCode::Receive(r) => match r.state {
            ReceiveBufferState::Inactive => if r.busy { 0x1 } else { 0x0 },
            ReceiveBufferState::Full => if r.busy { 0x3 } else { 0x2 },
            ReceiveBufferState::Empty => if r.busy { 0x5 } else { 0x4 },
            ReceiveBufferState::Overrun => if r.busy { 0x7 } else { 0x6 },
            ReceiveBufferState::Ranswer => if r.busy { 0xb } else { 0xa },
        },
        MessageBufferCode::Transmit(t) => match t {
            TransmitBufferState::Inactive => 0x8,
            TransmitBufferState::Abort => 0x9,
            TransmitBufferState::DataRemote => 0xc,
            TransmitBufferState::Tanswer => 0xe,
        },
    }
}

/// Inverse of `encode_spec`; `None` for the reserved patterns (0xd, 0xf)
/// and for values that do not fit in 4 bits.
pub open spec fn decode_spec(code: u8) -> Option<MessageBufferCode> {
    if code == 0x8 {
        Some(MessageBufferCode::Transmit(TransmitBufferState::Inactive))
    } else if code == 0x9 {
        Some(MessageBufferCode::Transmit(TransmitBufferState::Abort))
    } else if code == 0xc {
        Some(MessageBufferCode::Transmit(TransmitBufferState::DataRemote))
    } else if code == 0xe {
        Some(MessageBufferCode::Transmit(TransmitBufferState::Tanswer))
    } else if code == 0x0 || code == 0x1 {
        Some(MessageBufferCode::Receive(ReceiveBufferCode {
            state: ReceiveBufferState::Inactive,
            busy: code == 0x1,
        }))
    } else if code == 0x4 || code == 0x5 {
        Some(MessageBufferCode::Receive(ReceiveBufferCode {
            state: ReceiveBufferState::Empty,
            busy: code == 0x5,
        }))
    } else if code == 0x2 || code == 0x3 {
        Some(MessageBufferCode::Receive(ReceiveBufferCode {
            state: ReceiveBufferState::Full,
            busy: code == 0x3,
        }))
    } else if code == 0x6 || code == 0x7 {
        Some(MessageBufferCode::Receive(ReceiveBufferCode {
            state: ReceiveBufferState::Overrun,
            busy: code == 0x7,
        }))
    } else if code == 0xa || code == 0xb {
        Some(MessageBufferCode::Receive(ReceiveBufferCode {
            state: ReceiveBufferState::Ranswer,
            busy: code == 0xb,
        }))
    } else {
        None
    }
}

impl MessageBufferCode {
    /// The 4-bit hardware pattern for this buffer state.
    pub fn encode(&self) -> (r: u8)
        ensures
            r == encode_spec(*self),
            r < 16,
    {
        match *self {
            MessageBufferCode::Receive(r) => {
                let base: u8 = match r.state {
                    ReceiveBufferState::Inactive => 0x0,
                    ReceiveBufferState::Full => 0x2,
                    ReceiveBufferState::Empty => 0x4,
                    ReceiveBufferState::Overrun => 0x6,
                    ReceiveBufferState::Ranswer => 0xa,
                };
                if r.busy {
                    base + 1
                } else {
                    base
                }
            },
            MessageBufferCode::Transmit(t) => match t {
                TransmitBufferState::Inactive => 0x8,
                TransmitBufferState::Abort => 0x9,
                TransmitBufferState::DataRemote => 0xc,
                TransmitBufferState::Tanswer => 0xe,
            },
        }
    }

    /// Decode a 4-bit hardware pattern; reserved patterns fail rather
    /// than defaulting to some state.
    pub fn decode(code: u8) -> (r: Result<Self, ()>)
        ensures
            r matches Ok(c) ==> decode_spec(code) == Some(c),
            r is Err ==> decode_spec(code) is None,
    {
        match code {
            0x8 => Ok(MessageBufferCode::Transmit(TransmitBufferState::Inactive)),
            0x9 => Ok(MessageBufferCode::Transmit(TransmitBufferState::Abort)),
            0xc => Ok(MessageBufferCode::Transmit(TransmitBufferState::DataRemote)),
            0xe => Ok(MessageBufferCode::Transmit(TransmitBufferState::Tanswer)),
            0x0 => Ok(MessageBufferCode::Receive(ReceiveBufferCode {
                state: ReceiveBufferState::Inactive,
                busy: false,
            })),
            0x1 => Ok(MessageBufferCode::Receive(ReceiveBufferCode {
                state: ReceiveBufferState::Inactive,
                busy: true,
            })),
            0x4 => Ok(MessageBufferCode::Receive(ReceiveBufferCode {
                state: ReceiveBufferState::Empty,
                busy: false,
            })),
            0x5 => Ok(MessageBufferCode::Receive(ReceiveBufferCode {
                state: ReceiveBufferState::Empty,
                busy: true,
            })),
            0x2 => Ok(MessageBufferCode::Receive(ReceiveBufferCode {
                state: ReceiveBufferState::Full,
                busy: false,
            })),
            0x3 => Ok(MessageBufferCode::Receive(ReceiveBufferCode {
                state: ReceiveBufferState::Full,
                busy: true,
            })),
            0x6 => Ok(MessageBufferCode::Receive(ReceiveBufferCode {
                state: ReceiveBufferState::Overrun,
                busy: false,
            })),
            0x7 => Ok(MessageBufferCode::Receive(ReceiveBufferCode {
                state: ReceiveBufferState::Overrun,
                busy: true,
            })),
            0xa => Ok(MessageBufferCode::Receive(ReceiveBufferCode {
                state: ReceiveBufferState::Ranswer,
                busy: false,
            })),
            0xb => Ok(MessageBufferCode::Receive(ReceiveBufferCode {
                state: ReceiveBufferState::Ranswer,
                busy: true,
            })),
            _ => Err(()),
        }
    }
}

/// Decoding is a left inverse of encoding: every representable buffer
/// state survives a round trip through its 4-bit pattern unchanged.
pub proof fn lemma_decode_encode(code: MessageBufferCode)
    ensures
        decode_spec(encode_spec(code)) == Some(code),
{
}

/// The reserved patterns, and everything that does not fit in 4 bits,
/// fail to decode; every pattern that decodes re-encodes to itself.
pub proof fn lemma_reserved_patterns()
    ensures
        decode_spec(0xd) is None,
        decode_spec(0xf) is None,
        forall|b: u8| b >= 16 ==> decode_spec(b) is None,
        forall|b: u8| #[trigger] decode_spec(b) matches Some(c) ==> encode_spec(c) == b,
{
}

} // verus!
