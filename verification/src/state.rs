//! The escrow record as it is held in memory, and its conversion to and from
//! the bytes of the account that stores it.

use vstd::prelude::*;
use crate::error::UnpackError;
use crate::layout::{EscrowView, lemma_packed_layout, lemma_unpack_packed,
    lemma_unpacked_ignores_tail};
use crate::le::{read_u64_le, write_u64_le};

verus! {

/// The state of one escrow account.
///
/// The three identities are opaque here: nothing is assumed about the
/// accounts they name.
#[derive(Debug, Clone, Copy, PartialEq, Eq)]
pub struct Escrow {
    /// Whether the account already holds an escrow.
    pub is_initialized: bool,
    /// The party that opened the escrow.
    pub initializer_pubkey: [u8; 32],
    /// The account that keeps the initializer's tokens until the exchange.
    pub temp_token_account_pubkey: [u8; 32],
    /// The initializer's account that receives the counterparty's tokens.
    pub initializer_token_to_receive_account_pubkey: [u8; 32],
    /// The amount that the counterparty has to supply.
    pub expected_amount: u64,
}

impl View for Escrow {
    type V = EscrowView;

    open spec fn view(&self) -> EscrowView {
        EscrowView {
            is_initialized: self.is_initialized,
            initializer_pubkey: self.initializer_pubkey@,
            temp_token_account_pubkey: self.temp_token_account_pubkey@,
            initializer_token_to_receive_account_pubkey:
                self.initializer_token_to_receive_account_pubkey@,
            expected_amount: self.expected_amount as nat,
        }
    }
}

/// Copies the 32 bytes of `src` that start at `offset`.
fn read_key(src: &[u8], offset: usize) -> (key: [u8; 32])
    requires
        offset + 32 <= src@.len(),
    ensures
        key@ == src@.subrange(offset as int, offset + 32),
{
    proof {
        vstd::slice::axiom_spec_len(src);
    }
    let mut key: [u8; 32] = [0u8; 32];
    let mut i: usize = 0;
    while i < 32
        invariant
            i <= 32,
            offset + 32 <= src@.len() <= usize::MAX,
            forall|k: int| 0 <= k < i ==> key@[k] == src@[offset + k],
        decreases 32 - i,
    {
        key[i] = src[offset + i];
        i = i + 1;
    }
    assert(key@ =~= src@.subrange(offset as int, offset + 32));
    key
}

/// Copies `key` over the 32 bytes of `dst` that start at `offset`, and
/// leaves every other byte as it was.
fn write_key(dst: &mut [u8], offset: usize, key: &[u8; 32])
    requires
        offset + 32 <= old(dst)@.len(),
    ensures
        final(dst)@.len() == old(dst)@.len(),
        final(dst)@.subrange(offset as int, offset + 32) == key@,
        forall|k: int|
            0 <= k < old(dst)@.len() && !(offset <= k < offset + 32) ==> final(dst)@[k] == old(
                dst,
            )@[k],
{
    proof {
        vstd::slice::axiom_spec_len(dst);
    }
    let mut i: usize = 0;
    while i < 32
        invariant
            i <= 32,
            dst@.len() == old(dst)@.len(),
            offset + 32 <= dst@.len() <= usize::MAX,
            forall|k: int| 0 <= k < i ==> dst@[offset + k] == key@[k],
            forall|k: int|
                0 <= k < dst@.len() && !(offset <= k < offset + i) ==> dst@[k] == old(dst)@[k],
        decreases 32 - i,
    {
        dst[offset + i] = key[i];
        i = i + 1;
    }
    assert(dst@.subrange(offset as int, offset + 32) =~= key@);
}

impl Escrow {
    /// The number of bytes that store a record.
    pub const LEN: usize = 105;

    /// Whether the account already holds an escrow.
    pub fn is_initialized(&self) -> (initialized: bool)
        ensures
            initialized == self@.is_initialized,
    {
        self.is_initialized
    }

    /// Reads a record from the first 105 bytes of `src`.
    ///
    /// Fails with `BufferTooShort` exactly when `src` has fewer than 105
    /// bytes, and otherwise with `InvalidAccountData` exactly when the flag
    /// byte is neither `0` nor `1`. Nothing is read past the record.
    pub fn unpack_from_slice(src: &[u8]) -> (result: Result<Escrow, UnpackError>)
        ensures
            match result {
                Ok(escrow) => EscrowView::unpacked(src@) == Ok::<EscrowView, UnpackError>(escrow@),
                Err(error) => EscrowView::unpacked(src@) == Err::<EscrowView, UnpackError>(error),
            },
            src@.len() < 105 ==> result == Err::<Escrow, UnpackError>(UnpackError::BufferTooShort),
            src@.len() >= 105 && src@[0] != 0 && src@[0] != 1 ==> result == Err::<
                Escrow,
                UnpackError,
            >(UnpackError::InvalidAccountData),
            src@.len() >= 105 && (src@[0] == 0 || src@[0] == 1) ==> result is Ok,
    {
        if src.len() < Self::LEN {
            return Err(UnpackError::BufferTooShort);
        }
        let flag: u8 = src[0];
        if flag != 0 && flag != 1 {
            return Err(UnpackError::InvalidAccountData);
        }
        let escrow = Escrow {
            is_initialized: flag == 1,
            initializer_pubkey: read_key(src, 1),
            temp_token_account_pubkey: read_key(src, 33),
            initializer_token_to_receive_account_pubkey: read_key(src, 65),
            expected_amount: read_u64_le(src, 97),
        };
        assert(EscrowView::unpacked(src@)->Ok_0 =~= escrow@);
        Ok(escrow)
    }

    /// Writes this record over the first 105 bytes of `dst` and leaves the
    /// bytes after them as they were.
    pub fn pack_into_slice(&self, dst: &mut [u8])
        requires
            old(dst)@.len() >= Self::LEN,
        ensures
            final(dst)@.len() == old(dst)@.len(),
            final(dst)@.subrange(0, 105) == self@.packed(),
            final(dst)@.subrange(105, old(dst)@.len() as int) == old(dst)@.subrange(
                105,
                old(dst)@.len() as int,
            ),
    {
        dst[0] = if self.is_initialized { 1 } else { 0 };
        write_key(dst, 1, &self.initializer_pubkey);
        write_key(dst, 33, &self.temp_token_account_pubkey);
        write_key(dst, 65, &self.initializer_token_to_receive_account_pubkey);
        write_u64_le(dst, 97, self.expected_amount);
        assert(dst@.subrange(0, 105) =~= self@.packed());
        assert(dst@.subrange(105, old(dst)@.len() as int) =~= old(dst)@.subrange(
            105,
            old(dst)@.len() as int,
        ));
    }
}

/// Every record in memory is one that the wire format can store, and it is
/// stored in exactly `LEN` bytes.
pub proof fn lemma_view_wf(escrow: Escrow)
    ensures
        escrow@.wf(),
        escrow@.packed().len() == Escrow::LEN,
{
    lemma_packed_layout(escrow@);
}

/// A record is determined by its mathematical value.
pub proof fn lemma_view_injective(a: Escrow, b: Escrow)
    requires
        a@ == b@,
    ensures
        a == b,
{
    assert(a.initializer_pubkey =~= b.initializer_pubkey);
    assert(a.temp_token_account_pubkey =~= b.temp_token_account_pubkey);
    assert(a.initializer_token_to_receive_account_pubkey
        =~= b.initializer_token_to_receive_account_pubkey);
}

/// Round trip: a buffer whose first 105 bytes store `escrow` unpacks to
/// `escrow` and to no other record.
pub proof fn lemma_unpack_packed_escrow(escrow: Escrow, bytes: Seq<u8>)
    requires
        bytes.len() >= 105,
        bytes.subrange(0, 105) == escrow@.packed(),
    ensures
        EscrowView::unpacked(bytes) == Ok::<EscrowView, UnpackError>(escrow@),
        forall|other: Escrow| #[trigger] other@ == escrow@ ==> other == escrow,
{
    lemma_unpack_packed(escrow@);
    lemma_unpacked_ignores_tail(bytes);
    assert forall|other: Escrow| #[trigger] other@ == escrow@ implies other == escrow by {
        lemma_view_injective(other, escrow);
    }
}

/// Two records are stored as the same bytes exactly when they are equal.
pub proof fn lemma_packed_injective(a: Escrow, b: Escrow)
    ensures
        a@.packed() == b@.packed() <==> a == b,
{
    if a@.packed() == b@.packed() {
        lemma_unpack_packed(a@);
        lemma_unpack_packed(b@);
        lemma_view_injective(a, b);
    }
}

} // verus!
