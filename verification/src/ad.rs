//! The data model of one advertising-data element: its type classification
//! and its payload, together with the mathematical view the contracts of
//! the tokenizer speak of.

use vstd::prelude::*;

verus! {

/// The purpose of one AD structure, classified from its one-byte type code.
/// Every byte code maps to exactly one variant; a code outside the
/// recognized set is carried verbatim in `Unknown`.
#[derive(Debug, PartialEq)]
pub enum ADType {
    Flags,
    ServiceClassUUIDs,
    ShortendLocalName,
    CompleteLocalName,
    Unknown(u8),
}

/// One decoded AD structure: its classified type and an owned copy of its
/// payload bytes. It holds no reference into the buffer it was read from.
#[derive(Debug, PartialEq)]
pub struct ADStructure {
    pub ad_type: ADType,
    pub data: Vec<u8>,
}

/// The mathematical value of one AD structure: its type and its payload as
/// a sequence of bytes.
pub ghost struct AdView {
    pub ad_type: ADType,
    pub data: Seq<u8>,
}

impl View for ADStructure {
    type V = AdView;

    open spec fn view(&self) -> AdView {
        AdView { ad_type: self.ad_type, data: self.data@ }
    }
}

/// The classification of a one-byte AD type code; total over all 256 byte
/// values.
pub open spec fn ad_type_of(code: u8) -> ADType {
    if code == 0x01 {
        ADType::Flags
    } else if code == 0x03 {
        ADType::ServiceClassUUIDs
    } else if code == 0x08 {
        ADType::ShortendLocalName
    } else if code == 0x09 {
        ADType::CompleteLocalName
    } else {
        ADType::Unknown(code)
    }
}

/// The type code that puts an AD type on the wire.
pub open spec fn code_of(t: ADType) -> u8 {
    match t {
        ADType::Flags => 0x01,
        ADType::ServiceClassUUIDs => 0x03,
        ADType::ShortendLocalName => 0x08,
        ADType::CompleteLocalName => 0x09,
        ADType::Unknown(code) => code,
    }
}

/// A view that one wire element can carry: the payload fits the one-byte
/// length field (which also counts the type byte), and the type is the
/// classification of its own code, so that it survives a round trip over
/// the wire.
pub open spec fn wf_ad(v: AdView) -> bool {
    v.data.len() <= 254 && ad_type_of(code_of(v.ad_type)) == v.ad_type
}

} // verus!
