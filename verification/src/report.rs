//! The emitted report: one entry per processed account, each carrying a
//! raw or decoded view of its payload.

use vstd::prelude::*;

use crate::address::base58_of;
use crate::base64code::{base64_encode, lemma_b64_round_trip, spec_b64_decode, spec_base64};
use crate::decoder::alt_addresses_of;
use crate::hexcode::{hex_bytes, hex_encode, is_hex_seq, lemma_hex_round_trip, spec_hex};

verus! {

/// The `data` field of one entry: the payload rendered raw, or what the
/// decoder made of it.
pub enum DataView {
    /// The payload itself, in lowercase hex and in standard base64.
    Raw { hex: String, base64: String, size: usize },
    /// An address lookup table: its addresses in base58, in stored order.
    AddressLookupTable { addresses: Vec<String>, num_addresses: usize },
}

/// One emitted account record.
pub struct Entry {
    pub pubkey: String,
    pub lamports: u64,
    pub owner: String,
    pub data: DataView,
}

/// The whole run's result.
pub struct Report {
    pub program: String,
    pub count: usize,
    pub accounts: Vec<Entry>,
}

/// A raw view shows exactly the payload bytes `b`: hex and base64 are
/// both encodings of `b`, and `size` is its length.
pub open spec fn raw_view_ok(d: DataView, b: Seq<u8>) -> bool {
    d matches DataView::Raw { hex, base64, size } && hex@ == spec_hex(b) && base64@ == spec_base64(
        b,
    ) && size == b.len()
}

/// A lookup-table view lists the base58 text of every stored address, in
/// order, and their number.
pub open spec fn alt_view_ok(d: DataView, b: Seq<u8>) -> bool {
    d matches DataView::AddressLookupTable { addresses, num_addresses } && alt_addresses_of(b)
        matches Some(addrs) && addresses@.len() == addrs.len() && (forall|i: int|
        0 <= i < addrs.len() ==> (#[trigger] addresses@[i])@ == base58_of(addrs[i]))
        && num_addresses == addrs.len()
}

/// Builds the raw view of a payload.
pub fn make_raw_view(b: &Vec<u8>) -> (r: DataView)
    requires
        b@.len() <= usize::MAX as nat / 4,
    ensures
        raw_view_ok(r, b@),
{
    let hex = hex_encode(b);
    let base64 = base64_encode(b);
    let size = b.len();
    DataView::Raw { hex, base64, size }
}

/// A raw view is self-consistent: its `hex` field decodes back to the
/// payload, its `base64` field decodes back to the same bytes, and
/// `size` equals both the payload length and half the hex length.
pub proof fn lemma_raw_view_round_trip(d: DataView, b: Seq<u8>)
    requires
        raw_view_ok(d, b),
    ensures
        d matches DataView::Raw { hex, base64, size } && is_hex_seq(hex@) && hex_bytes(hex@) == b
            && spec_b64_decode(base64@) == Some(b) && size == b.len() && hex@.len() == 2 * size,
{
    lemma_hex_round_trip(b);
    lemma_b64_round_trip(b);
}

} // verus!
