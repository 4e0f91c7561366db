//! Operation records: a fixed 24-byte layout holding an operation id and a
//! charge's account, card and amount.

use vstd::prelude::*;

use crate::bytes::{
    be_u32, be_u64, get_u32_be, get_u64_be, lemma_read_u32_window, lemma_read_u64_window,
    lemma_u32_roundtrip, lemma_u64_roundtrip, push_u32_be, push_u64_be, read_u32_be, read_u64_be,
};
use crate::errors::{AppError, DecodeError};

verus! {

/// The length of a record.
pub const RECORD_LEN: usize = 24;

/// An operation record. The amount is the bit pattern of a single-precision
/// number.
#[derive(Clone, Copy, Debug, PartialEq, Eq, Structural)]
pub struct OperationRecord {
    pub id: u32,
    pub account_id: u64,
    pub card_id: u64,
    pub amount: u32,
}

/// The bytes of a record: id, account id, card id and amount, big-endian.
pub open spec fn spec_record_bytes(r: OperationRecord) -> Seq<u8> {
    be_u32(r.id) + be_u64(r.account_id) + be_u64(r.card_id) + be_u32(r.amount)
}

/// The record read from the first 24 bytes; fewer bytes are an error.
pub open spec fn spec_read_record(p: Seq<u8>) -> Result<OperationRecord, AppError> {
    if p.len() < RECORD_LEN {
        Err(AppError::InvalidData { reason: DecodeError::NotEnoughBytes })
    } else {
        Ok(
            OperationRecord {
                id: read_u32_be(p, 0),
                account_id: read_u64_be(p, 4),
                card_id: read_u64_be(p, 12),
                amount: read_u32_be(p, 20),
            },
        )
    }
}

/// Writes a record.
pub fn serialize_operation_record(r: OperationRecord) -> (srl: Vec<u8>)
    ensures
        srl@ == spec_record_bytes(r),
{
    let mut srl: Vec<u8> = Vec::new();
    push_u32_be(&mut srl, r.id);
    push_u64_be(&mut srl, r.account_id);
    push_u64_be(&mut srl, r.card_id);
    push_u32_be(&mut srl, r.amount);
    assert(srl@ =~= spec_record_bytes(r));
    srl
}

/// Reads a record from the first 24 bytes of `payload`.
pub fn deserialize_operation_record(payload: &[u8]) -> (res: Result<OperationRecord, AppError>)
    ensures
        res == spec_read_record(payload@),
{
    if payload.len() < RECORD_LEN {
        return Err(AppError::InvalidData { reason: DecodeError::NotEnoughBytes });
    }
    Ok(
        OperationRecord {
            id: get_u32_be(payload, 0),
            account_id: get_u64_be(payload, 4),
            card_id: get_u64_be(payload, 12),
            amount: get_u32_be(payload, 20),
        },
    )
}

/// Reading back the bytes of a record gives the record.
pub proof fn lemma_record_roundtrip(r: OperationRecord)
    ensures
        spec_read_record(spec_record_bytes(r)) == Ok::<OperationRecord, AppError>(r),
{
    let s = spec_record_bytes(r);
    assert(s.subrange(0, 4) =~= be_u32(r.id));
    assert(s.subrange(4, 12) =~= be_u64(r.account_id));
    assert(s.subrange(12, 20) =~= be_u64(r.card_id));
    assert(s.subrange(20, 24) =~= be_u32(r.amount));
    lemma_read_u32_window(s, 0, be_u32(r.id));
    lemma_read_u64_window(s, 4, be_u64(r.account_id));
    lemma_read_u64_window(s, 12, be_u64(r.card_id));
    lemma_read_u32_window(s, 20, be_u32(r.amount));
    lemma_u32_roundtrip(r.id);
    lemma_u64_roundtrip(r.account_id);
    lemma_u64_roundtrip(r.card_id);
    lemma_u32_roundtrip(r.amount);
}

} // verus!
