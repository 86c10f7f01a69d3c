//! Driver logic for a FlexCAN-style CAN controller with a fixed bank of
//! shared transmit/receive message buffers ("mailboxes") instead of a
//! FIFO.
//!
//! The crate turns a desired bus bit rate into timing register values,
//! sequences the controller through its mandatory mode transitions,
//! encodes and decodes the 4-bit mailbox buffer-state codes, moves
//! frames through the raw mailboxes, and arbitrates transmit mailboxes
//! by identifier priority.  All of it runs against [`peripheral::CanPeripheral`],
//! a plain-data image of the register surface, so that every function is
//! verified down to the bits it writes.

pub mod bits;
pub mod can;
pub mod codec;
pub mod frame;
pub mod layout;
pub mod mailbox;
pub mod modes;
pub mod peripheral;
pub mod settings;
pub mod timing;

use vstd::prelude::*;

verus! {

/// Errors raised while configuring the controller or moving frames.
///
/// The first four arise during construction, before any transition that
/// could leave the hardware half-configured; the rest are runtime
/// conditions that the caller is expected to handle or retry.
#[derive(Clone, Copy, Debug, PartialEq, Eq, Structural)]
pub enum CanError {
    /// The freeze-mode handshake did not complete.
    FreezeModeError,
    /// The selected clock source reports no frequency.
    ClockSourceDisabled,
    /// The clock ratio is not an exact multiple of at least 5, or the
    /// prescaler does not fit its register field.
    SettingsError,
    /// The quanta count falls outside the supported timing table.
    ConfigurationFailed,
    /// A write was attempted against a mailbox owned by the hardware or
    /// still holding unread data.
    BusyMailboxWriteAttempted,
    /// No free transmit mailbox, no eviction justified, or no frame
    /// currently available on receive; retry later.
    BufferExhausted,
    /// A buffer-state code or length field does not decode.
    DecodeError,
    /// A mailbox reads back in a state this driver never produces.
    InvalidMailboxState,
    /// A busy buffer did not settle within the bounded number of
    /// re-reads.
    Timeout,
}

} // verus!
