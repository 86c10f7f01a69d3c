//! CAN identifiers and frames as plain values.
//!
//! An identifier is either an 11-bit base or a 29-bit extended value; the
//! numerically smaller value wins bus arbitration.  A frame is immutable
//! once constructed and carries either a payload of 0 to 8 bytes or a
//! remote request.

use vstd::prelude::*;

verus! {

/// A CAN arbitration identifier, base (11-bit) or extended (29-bit).
#[derive(Clone, Copy, Debug, PartialEq, Eq, Structural)]
pub enum ID {
    BaseID(u16),
    ExtendedID(u32),
}

impl ID {
    /// The identifier's value fits its width.
    pub open spec fn wf(&self) -> bool {
        match *self {
            ID::BaseID(v) => v < 0x800,
            ID::ExtendedID(v) => v < 0x2000_0000,
        }
    }

    pub open spec fn value_spec(&self) -> u32 {
        match *self {
            ID::BaseID(v) => v as u32,
            ID::ExtendedID(v) => v,
        }
    }

    pub open spec fn is_extended_spec(&self) -> bool {
        match *self {
            ID::BaseID(_) => false,
            ID::ExtendedID(_) => true,
        }
    }

    /// The raw numeric value; lower values have higher bus priority.
    pub fn value(&self) -> (r: u32)
        ensures
            r == self.value_spec(),
    {
        match *self {
            ID::BaseID(v) => v as u32,
            ID::ExtendedID(v) => v,
        }
    }

    pub fn is_extended(&self) -> (r: bool)
        ensures
            r == self.is_extended_spec(),
    {
        match *self {
            ID::BaseID(_) => false,
            ID::ExtendedID(_) => true,
        }
    }
}

/// A frame carrying up to 8 data bytes.
#[derive(Clone, Debug, PartialEq, Eq)]
pub struct DataFrame {
    pub id: ID,
    pub data: Vec<u8>,
}

impl DataFrame {
    pub open spec fn wf(&self) -> bool {
        self.id.wf() && self.data@.len() <= 8
    }

    /// Build a data frame; the payload length is exact and at most 8.
    pub fn new(id: ID, data: Vec<u8>) -> (r: DataFrame)
        requires
            id.wf(),
            data@.len() <= 8,
        ensures
            r.id == id,
            r.data@ == data@,
            r.wf(),
    {
        DataFrame { id, data }
    }
}

/// A remote request frame: an identifier and no payload.
#[derive(Clone, Copy, Debug, PartialEq, Eq, Structural)]
pub struct RemoteFrame {
    pub id: ID,
}

/// Either a data frame or a remote frame.
#[derive(Clone, Debug, PartialEq, Eq)]
pub enum CanFrame {
    DataFrame(DataFrame),
    RemoteFrame(RemoteFrame),
}

impl CanFrame {
    pub open spec fn wf(&self) -> bool {
        match *self {
            CanFrame::DataFrame(f) => f.wf(),
            CanFrame::RemoteFrame(f) => f.id.wf(),
        }
    }

    pub open spec fn id_spec(&self) -> ID {
        match *self {
            CanFrame::DataFrame(f) => f.id,
            CanFrame::RemoteFrame(f) => f.id,
        }
    }

    pub open spec fn is_remote_spec(&self) -> bool {
        match *self {
            CanFrame::DataFrame(_) => false,
            CanFrame::RemoteFrame(_) => true,
        }
    }

    /// Payload length: the exact byte count of a data frame, 0 for a
    /// remote frame.
    pub open spec fn dlc_spec(&self) -> int {
        match *self {
            CanFrame::DataFrame(f) => f.data@.len() as int,
            CanFrame::RemoteFrame(_) => 0,
        }
    }

    /// Payload bytes (empty for a remote frame).
    pub open spec fn data_spec(&self) -> Seq<u8> {
        match *self {
            CanFrame::DataFrame(f) => f.data@,
            CanFrame::RemoteFrame(_) => Seq::empty(),
        }
    }

    pub fn id(&self) -> (r: ID)
        ensures
            r == self.id_spec(),
    {
        match *self {
            CanFrame::DataFrame(ref f) => f.id,
            CanFrame::RemoteFrame(ref f) => f.id,
        }
    }

    pub fn is_remote(&self) -> (r: bool)
        ensures
            r == self.is_remote_spec(),
    {
        match *self {
            CanFrame::DataFrame(_) => false,
            CanFrame::RemoteFrame(_) => true,
        }
    }
}

} // verus!
