//! The domain-separation tag naming what category of payload was signed.

use vstd::prelude::*;

verus! {

/// What category of payload a signature covers.  Purely a domain-separation
/// tag: it is never itself verified cryptographically beyond being part of
/// the signed bytes.
#[derive(Clone, Copy, Debug, PartialEq, Eq, Structural)]
pub enum DataType {
    /// Default state.
    UninitializedUnspecified,
    /// Client state verification.
    ClientState,
    /// Consensus state verification.
    ConsensusState,
    /// Connection state verification.
    ConnectionState,
    /// Channel state verification.
    ChannelState,
    /// Packet commitment verification.
    PacketCommitment,
    /// Packet acknowledgement verification.
    PacketAcknowledgement,
    /// Packet receipt absence verification.
    PacketReceiptAbsence,
    /// Next sequence receive verification.
    NextSequenceRecv,
    /// Header verification.
    Header,
}

impl DataType {
    /// The numeric value this tag carries on the wire.
    pub open spec fn spec_wire_value(self) -> u64 {
        match self {
            DataType::UninitializedUnspecified => 0,
            DataType::ClientState => 1,
            DataType::ConsensusState => 2,
            DataType::ConnectionState => 3,
            DataType::ChannelState => 4,
            DataType::PacketCommitment => 5,
            DataType::PacketAcknowledgement => 6,
            DataType::PacketReceiptAbsence => 7,
            DataType::NextSequenceRecv => 8,
            DataType::Header => 9,
        }
    }

    /// The tag whose wire value is `v`, if any.
    pub open spec fn spec_from_wire_value(v: u64) -> Option<DataType> {
        if v == 0 {
            Some(DataType::UninitializedUnspecified)
        } else if v == 1 {
            Some(DataType::ClientState)
        } else if v == 2 {
            Some(DataType::ConsensusState)
        } else if v == 3 {
            Some(DataType::ConnectionState)
        } else if v == 4 {
            Some(DataType::ChannelState)
        } else if v == 5 {
            Some(DataType::PacketCommitment)
        } else if v == 6 {
            Some(DataType::PacketAcknowledgement)
        } else if v == 7 {
            Some(DataType::PacketReceiptAbsence)
        } else if v == 8 {
            Some(DataType::NextSequenceRecv)
        } else if v == 9 {
            Some(DataType::Header)
        } else {
            None
        }
    }

    /// Returns the numeric value this tag carries on the wire.
    pub fn wire_value(self) -> (r: u64)
        ensures
            r == self.spec_wire_value(),
            DataType::spec_from_wire_value(r) == Some(self),
    {
        match self {
            DataType::UninitializedUnspecified => 0,
            DataType::ClientState => 1,
            DataType::ConsensusState => 2,
            DataType::ConnectionState => 3,
            DataType::ChannelState => 4,
            DataType::PacketCommitment => 5,
            DataType::PacketAcknowledgement => 6,
            DataType::PacketReceiptAbsence => 7,
            DataType::NextSequenceRecv => 8,
            DataType::Header => 9,
        }
    }

    /// Returns the tag whose wire value is `v`, or `None` for an unknown
    /// value.
    pub fn from_wire_value(v: u64) -> (r: Option<DataType>)
        ensures
            r == DataType::spec_from_wire_value(v),
            r matches Some(d) ==> d.spec_wire_value() == v,
    {
        if v == 0 {
            Some(DataType::UninitializedUnspecified)
        } else if v == 1 {
            Some(DataType::ClientState)
        } else if v == 2 {
            Some(DataType::ConsensusState)
        } else if v == 3 {
            Some(DataType::ConnectionState)
        } else if v == 4 {
            Some(DataType::ChannelState)
        } else if v == 5 {
            Some(DataType::PacketCommitment)
        } else if v == 6 {
            Some(DataType::PacketAcknowledgement)
        } else if v == 7 {
            Some(DataType::PacketReceiptAbsence)
        } else if v == 8 {
            Some(DataType::NextSequenceRecv)
        } else if v == 9 {
            Some(DataType::Header)
        } else {
            None
        }
    }
}

} // verus!
