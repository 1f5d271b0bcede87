use vstd::prelude::*;

verus! {

/// The shapes of a cache reply this library distinguishes. An entity is
/// stored as one opaque JSON document in a binary/bulk payload; every
/// other shape is a decode-type failure for the entity codecs.
#[derive(Debug, Clone, PartialEq, Eq)]
pub enum CacheValue {
    /// A binary/bulk payload: the only shape an entity can be decoded from.
    Bulk(Vec<u8>),
    Nil,
    Int(i64),
    Status(String),
    /// Any reply shape the entity codecs have no use for.
    Other,
}

/// The mathematical value of a cache reply.
pub enum CacheValueV {
    Bulk(Seq<u8>),
    Nil,
    Int(i64),
    Status(Seq<char>),
    Other,
}

impl View for CacheValue {
    type V = CacheValueV;

    open spec fn view(&self) -> CacheValueV {
        match self {
            CacheValue::Bulk(b) => CacheValueV::Bulk(b@),
            CacheValue::Nil => CacheValueV::Nil,
            CacheValue::Int(n) => CacheValueV::Int(*n),
            CacheValue::Status(s) => CacheValueV::Status(s@),
            CacheValue::Other => CacheValueV::Other,
        }
    }
}

} // verus!
