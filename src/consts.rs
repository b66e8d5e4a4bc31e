//! Fixed protocol values: control types, the protocol tag, the record-list
//! terminator and well-known hardware addresses.
use vstd::prelude::*;

verus! {

/// Named wire constants of the protocol.
#[derive(Debug, Clone, Copy, PartialEq, Eq, Structural)]
pub enum ProtoConsts {
    QueryRequest,
    TransmitRequest,
    QueryResponse,
    TransmitResponse,
    NDSP,
    Reserved,
    EndOfMessage,
    MACBroadcast,
    MACMyPC,
}

impl ProtoConsts {
    /// The bytes that each constant stands for on the wire.
    pub open spec fn bytes(self) -> Seq<u8> {
        match self {
            ProtoConsts::QueryRequest => seq![0x01u8, 0x01u8],
            ProtoConsts::TransmitRequest => seq![0x01u8, 0x03u8],
            ProtoConsts::QueryResponse => seq![0x01u8, 0x02u8],
            ProtoConsts::TransmitResponse => seq![0x10u8, 0x04u8],
            ProtoConsts::NDSP => seq![0x4Eu8, 0x53u8, 0x44u8, 0x50u8],
            ProtoConsts::Reserved => seq![0x00u8, 0x00u8],
            ProtoConsts::EndOfMessage => seq![0xFFu8, 0xFFu8, 0x00u8, 0x00u8],
            ProtoConsts::MACBroadcast => seq![0u8, 0u8, 0u8, 0u8, 0u8, 0u8],
            ProtoConsts::MACMyPC => seq![0x4cu8, 0xccu8, 0x6au8, 0x6cu8, 0xceu8, 0x7eu8],
        }
    }

    pub fn value(&self) -> (r: &[u8])
        ensures
            r@ == self.bytes(),
    {
        match self {
            ProtoConsts::QueryRequest => &[0x01, 0x01],
            ProtoConsts::TransmitRequest => &[0x01, 0x03],
            ProtoConsts::QueryResponse => &[0x01, 0x02],
            ProtoConsts::TransmitResponse => &[0x10, 0x04],
            ProtoConsts::NDSP => &[0x4E, 0x53, 0x44, 0x50],
            ProtoConsts::Reserved => &[0x00, 0x00],
            ProtoConsts::EndOfMessage => &[0xFF, 0xFF, 0x00, 0x00],
            ProtoConsts::MACBroadcast => &[0x00, 0x00, 0x00, 0x00, 0x00, 0x00],
            ProtoConsts::MACMyPC => &[0x4c, 0xcc, 0x6a, 0x6c, 0xce, 0x7e],
        }
    }
}

} // verus!
