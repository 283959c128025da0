//! The bookkeeping records kept beside expiring entries: an id, archived
//! with `rkyv`.
use vstd::prelude::*;

verus! {

/// The bytes of `v` archived by `rkyv`.
pub uninterp spec fn archived_u64(v: u64) -> Seq<u8>;

/// Archives an id with `rkyv::to_bytes`.
///
/// The contract claims of `rkyv::to_bytes` that its result is a function of
/// the value alone, named [`archived_u64`]. It fails only where the
/// serializer fails, which for a plain integer it does not: the `Panic`
/// strategy is used, so that no error value exists. The archive holds the
/// value itself, so it is never empty.
#[verifier::external_body]
pub(crate) fn archive_id(v: u64) -> (res: Vec<u8>)
    ensures
        res@ == archived_u64(v),
        res@.len() > 0,
{
    rkyv::to_bytes::<rkyv::rancor::Panic>(&v).unwrap().to_vec()
}

/// The id that `rkyv::from_bytes` reads from `bytes`, or `None` where it
/// refuses them.
pub uninterp spec fn read_back_id(bytes: Seq<u8>) -> Option<u64>;

/// Reads an id back with `rkyv::from_bytes`, after copying the bytes into an
/// aligned buffer.
///
/// The contract claims that the result is a function of the bytes alone,
/// named [`read_back_id`], and that bytes that `rkyv::to_bytes` wrote for an
/// id read back as that id, as the crate's documentation shows for its round
/// trip. Which other bytes are refused, and which are read as some id, is
/// left unsaid.
#[verifier::external_body]
pub(crate) fn read_archived_id(bytes: &[u8]) -> (res: Option<u64>)
    ensures
        res == read_back_id(bytes@),
        forall|v: u64| bytes@ == archived_u64(v) ==> res == Some(v),
{
    let mut aligned = rkyv::util::AlignedVec::<16>::new();
    aligned.extend_from_slice(bytes);
    rkyv::from_bytes::<u64, rkyv::rancor::Error>(&aligned).ok()
}

/// An optional id as the records hold it: zero stands for none.
pub open spec fn opt_id(id: Option<u64>) -> u64 {
    match id {
        Some(x) => x,
        None => 0,
    }
}

/// An id that a record holds, zero read as none.
pub open spec fn id_from_record(v: u64) -> Option<u64> {
    if v == 0 {
        None
    } else {
        Some(v)
    }
}

} // verus!
