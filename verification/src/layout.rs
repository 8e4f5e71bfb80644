//! The wire format of an escrow record, stated over sequences of bytes.
//!
//! | Offset | Length | Field                                         |
//! |-------:|-------:|-----------------------------------------------|
//! |      0 |      1 | `is_initialized` (`0` or `1`)                 |
//! |      1 |     32 | `initializer_pubkey`                          |
//! |     33 |     32 | `temp_token_account_pubkey`                   |
//! |     65 |     32 | `initializer_token_to_receive_account_pubkey` |
//! |     97 |      8 | `expected_amount` (little-endian)             |
//!
//! There is no padding and no field of variable length: a record always
//! takes 105 bytes.

use vstd::prelude::*;
use crate::error::UnpackError;
use crate::le::{le_bytes, le_value, lemma_le_bytes_len, lemma_le_bytes_of_value,
    lemma_le_modulus_u64, lemma_le_value_bound, lemma_le_value_of_bytes};

verus! {

/// An escrow record as a mathematical value: identities are sequences of
/// bytes and the amount is a natural number.
#[verifier::ext_equal]
pub struct EscrowView {
    pub is_initialized: bool,
    pub initializer_pubkey: Seq<u8>,
    pub temp_token_account_pubkey: Seq<u8>,
    pub initializer_token_to_receive_account_pubkey: Seq<u8>,
    pub expected_amount: nat,
}

impl EscrowView {
    /// Whether this value can be held by a record: each identity has 32
    /// bytes and the amount fits in 64 bits.
    pub open spec fn wf(self) -> bool {
        &&& self.initializer_pubkey.len() == 32
        &&& self.temp_token_account_pubkey.len() == 32
        &&& self.initializer_token_to_receive_account_pubkey.len() == 32
        &&& self.expected_amount <= u64::MAX
    }

    /// The bytes that store this record.
    pub open spec fn packed(self) -> Seq<u8> {
        seq![if self.is_initialized { 1u8 } else { 0u8 }] + self.initializer_pubkey
            + self.temp_token_account_pubkey + self.initializer_token_to_receive_account_pubkey
            + le_bytes(self.expected_amount, 8)
    }

    /// The record that the first 105 bytes of `bytes` store, or the reason
    /// why they store none. Bytes past the record are not looked at.
    pub open spec fn unpacked(bytes: Seq<u8>) -> Result<EscrowView, UnpackError> {
        if bytes.len() < 105 {
            Err(UnpackError::BufferTooShort)
        } else if bytes[0] != 0 && bytes[0] != 1 {
            Err(UnpackError::InvalidAccountData)
        } else {
            Ok(
                EscrowView {
                    is_initialized: bytes[0] == 1,
                    initializer_pubkey: bytes.subrange(1, 33),
                    temp_token_account_pubkey: bytes.subrange(33, 65),
                    initializer_token_to_receive_account_pubkey: bytes.subrange(65, 97),
                    expected_amount: le_value(bytes.subrange(97, 105)),
                },
            )
        }
    }
}

/// A record is always stored in exactly 105 bytes, laid out field after
/// field at the offsets of the wire format.
pub proof fn lemma_packed_layout(v: EscrowView)
    requires
        v.wf(),
    ensures
        v.packed().len() == 105,
        v.packed()[0] == (if v.is_initialized { 1u8 } else { 0u8 }),
        v.packed().subrange(1, 33) == v.initializer_pubkey,
        v.packed().subrange(33, 65) == v.temp_token_account_pubkey,
        v.packed().subrange(65, 97) == v.initializer_token_to_receive_account_pubkey,
        v.packed().subrange(97, 105) == le_bytes(v.expected_amount, 8),
{
    lemma_le_bytes_len(v.expected_amount, 8);
}

/// Round trip: unpacking the bytes that store a record gives that record.
pub proof fn lemma_unpack_packed(v: EscrowView)
    requires
        v.wf(),
    ensures
        EscrowView::unpacked(v.packed()) == Ok::<EscrowView, UnpackError>(v),
{
    lemma_packed_layout(v);
    lemma_le_modulus_u64();
    lemma_le_value_of_bytes(v.expected_amount, 8);
    let unpacked = EscrowView::unpacked(v.packed());
    assert(unpacked is Ok);
    assert(unpacked->Ok_0 =~= v);
}

/// What unpacks from a buffer is a value that a record can hold, and it is
/// stored as the first 105 bytes of that buffer: no two different runs of 105
/// bytes unpack to the same record.
pub proof fn lemma_pack_unpacked(bytes: Seq<u8>)
    requires
        EscrowView::unpacked(bytes) is Ok,
    ensures
        EscrowView::unpacked(bytes)->Ok_0.wf(),
        EscrowView::unpacked(bytes)->Ok_0.packed() == bytes.subrange(0, 105),
{
    let v = EscrowView::unpacked(bytes)->Ok_0;
    let amount = bytes.subrange(97, 105);
    lemma_le_modulus_u64();
    lemma_le_value_bound(amount);
    lemma_le_bytes_of_value(amount);
    assert(v.packed() =~= bytes.subrange(0, 105));
}

/// Bytes past the record do not change what a buffer unpacks to.
pub proof fn lemma_unpacked_ignores_tail(bytes: Seq<u8>)
    requires
        bytes.len() >= 105,
    ensures
        EscrowView::unpacked(bytes) == EscrowView::unpacked(bytes.subrange(0, 105)),
{
    let head = bytes.subrange(0, 105);
    assert(head.subrange(1, 33) =~= bytes.subrange(1, 33));
    assert(head.subrange(33, 65) =~= bytes.subrange(33, 65));
    assert(head.subrange(65, 97) =~= bytes.subrange(65, 97));
    assert(head.subrange(97, 105) =~= bytes.subrange(97, 105));
}

} // verus!
