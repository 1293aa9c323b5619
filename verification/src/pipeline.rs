//! The result pipeline: the ordered accounts the call returned become
//! report entries, with per-account failures tolerated and counted out.

use vstd::prelude::*;

use crate::address::{base58_encode, base58_of, Address};
use crate::base64code::spec_b64_decode;
use crate::decoder::{alt_addresses_of, AltDecoder, DecoderKind};
use crate::hexcode::{hex_bytes, is_hex_seq};
use crate::report::{
    lemma_raw_view_round_trip, make_raw_view, raw_view_ok, alt_view_ok, DataView, Entry, Report,
};

verus! {

/// One account as the call returned it, reduced to plain values: the
/// payload is the decoded bytes, or nothing when the wire codec yielded
/// nothing.
pub struct AccountInput {
    pub pubkey: Address,
    pub lamports: u64,
    pub owner: String,
    pub payload: Option<Vec<u8>>,
}

/// One line of the diagnostic stream.
pub enum Diagnostic {
    /// How many accounts the call returned, announced before the loop.
    Fetched(usize),
    /// One account's payload failed to decode and was skipped.
    DecodeFailed { pubkey: String },
    /// How many accounts made it into the report, announced after.
    Processed(usize),
}

/// The payload stays clear of the base64 encoder's size limit.
pub open spec fn payload_small(a: AccountInput) -> bool {
    a.payload matches Some(p) ==> p@.len() <= usize::MAX as nat / 4
}

/// Whether an account yields an entry: it must have a usable payload,
/// and the decoder, when one is resolved, must accept that payload.
pub open spec fn spec_included(a: AccountInput, dec: Option<DecoderKind>) -> bool {
    match a.payload {
        Some(p) => match dec {
            None => true,
            Some(DecoderKind::Alt) => alt_addresses_of(p@) is Some,
        },
        None => false,
    }
}

/// Whether an account earns a decode-failure diagnostic: usable payload,
/// but the resolved decoder refuses it.
pub open spec fn spec_failed(a: AccountInput, dec: Option<DecoderKind>) -> bool {
    match a.payload {
        Some(p) => match dec {
            None => false,
            Some(DecoderKind::Alt) => alt_addresses_of(p@) is None,
        },
        None => false,
    }
}

/// The accounts that yield entries, in arrival order.
pub open spec fn included_of(accs: Seq<AccountInput>, dec: Option<DecoderKind>) -> Seq<
    AccountInput,
> {
    accs.filter(|a: AccountInput| spec_included(a, dec))
}

/// The accounts that earn decode-failure diagnostics, in arrival order.
pub open spec fn failed_of(accs: Seq<AccountInput>, dec: Option<DecoderKind>) -> Seq<
    AccountInput,
> {
    accs.filter(|a: AccountInput| spec_failed(a, dec))
}

/// The data view an entry must carry for payload `b` under the resolved
/// decoder.
pub open spec fn data_view_ok(d: DataView, b: Seq<u8>, dec: Option<DecoderKind>) -> bool {
    match dec {
        None => raw_view_ok(d, b),
        Some(DecoderKind::Alt) => alt_view_ok(d, b),
    }
}

/// An entry renders its source account: base58 pubkey, lamports and
/// owner copied through, and the payload viewed under the decoder.
pub open spec fn entry_ok(e: Entry, a: AccountInput, dec: Option<DecoderKind>) -> bool {
    &&& e.pubkey@ == base58_of(a.pubkey@)
    &&& e.lamports == a.lamports
    &&& e.owner@ == a.owner@
    &&& (a.payload matches Some(p) && data_view_ok(e.data, p@, dec))
}

/// Every emitted entry's `pubkey` field is the base58 text of its source
/// account's 32-byte address.
pub proof fn lemma_entry_pubkey_valid(e: Entry, a: AccountInput, dec: Option<DecoderKind>)
    requires
        entry_ok(e, a, dec),
    ensures
        e.pubkey@ == base58_of(a.pubkey@),
        a.pubkey@.len() == 32,
{
}

/// Without a decoder every emitted entry shows its payload raw: the
/// `data` object is the raw shape, its `size` is the payload length,
/// the `hex` field is twice that long and decodes back to the payload,
/// and the `base64` field decodes to the very same bytes.
pub proof fn lemma_raw_entry(e: Entry, a: AccountInput)
    requires
        entry_ok(e, a, None),
    ensures
        e.data matches DataView::Raw { hex, base64, size } && (a.payload matches Some(p)
            && size == p@.len() && hex@.len() == 2 * size && is_hex_seq(hex@) && hex_bytes(hex@)
            == p@ && spec_b64_decode(base64@) == Some(p@)),
{
    let p = a.payload.unwrap();
    lemma_raw_view_round_trip(e.data, p@);
}

/// Runs the per-account pipeline over the fetched accounts, in order.
///
/// Every account with a usable payload that the decoder accepts becomes
/// one entry; a payload the codec yielded nothing for is skipped
/// silently; a payload the decoder refuses is skipped with a diagnostic;
/// the count equals the number of entries; the diagnostics are the
/// fetched count, the decode failures in order, then the processed
/// count.
pub fn run_pipeline(program_text: &String, accounts: &Vec<AccountInput>, dec: Option<
    DecoderKind,
>) -> (r: (Report, Vec<Diagnostic>))
    requires
        forall|k: int| 0 <= k < accounts@.len() ==> payload_small(#[trigger] accounts@[k]),
    ensures
        r.0.program@ == program_text@,
        r.0.count == r.0.accounts@.len(),
        r.0.accounts@.len() == included_of(accounts@, dec).len(),
        forall|i: int|
            0 <= i < r.0.accounts@.len() ==> entry_ok(
                #[trigger] r.0.accounts@[i],
                included_of(accounts@, dec)[i],
                dec,
            ),
        r.1@.len() == 2 + failed_of(accounts@, dec).len(),
        r.1@[0] == Diagnostic::Fetched(accounts@.len() as usize),
        r.1@.last() == Diagnostic::Processed(r.0.accounts@.len() as usize),
        forall|j: int|
            0 <= j < failed_of(accounts@, dec).len() ==> ((#[trigger] r.1@[j + 1])
                matches Diagnostic::DecodeFailed { pubkey } && pubkey@ == base58_of(
                failed_of(accounts@, dec)[j].pubkey@,
            )),
{
    let n = accounts.len();
    let mut entries: Vec<Entry> = Vec::new();
    let mut fails: Vec<Diagnostic> = Vec::new();
    let mut i: usize = 0;
    proof {
        assert(accounts@.take(0) =~= Seq::<AccountInput>::empty());
        reveal(Seq::filter);
    }
    while i < n
        invariant
            n == accounts@.len(),
            i <= n,
            forall|k: int| 0 <= k < accounts@.len() ==> payload_small(#[trigger] accounts@[k]),
            entries@.len() == included_of(accounts@.take(i as int), dec).len(),
            forall|k: int|
                0 <= k < entries@.len() ==> entry_ok(
                    #[trigger] entries@[k],
                    included_of(accounts@.take(i as int), dec)[k],
                    dec,
                ),
            fails@.len() == failed_of(accounts@.take(i as int), dec).len(),
            forall|j: int|
                0 <= j < fails@.len() ==> ((#[trigger] fails@[j])
                    matches Diagnostic::DecodeFailed { pubkey } && pubkey@ == base58_of(
                    failed_of(accounts@.take(i as int), dec)[j].pubkey@,
                )),
        decreases n - i,
    {
        let acc = &accounts[i];
        proof {
            reveal(Seq::filter);
            assert(accounts@.take(i as int + 1).drop_last() =~= accounts@.take(i as int));
            assert(accounts@.take(i as int + 1).last() == accounts@[i as int]);
        }
        match &acc.payload {
            None => {
                proof {
                    assert(!spec_included(accounts@[i as int], dec));
                    assert(!spec_failed(accounts@[i as int], dec));
                }
            },
            Some(p) => {
                let view: Option<DataView> = match dec {
                    None => Some(make_raw_view(p)),
                    Some(DecoderKind::Alt) => AltDecoder::decode(p),
                };
                match view {
                    Some(dv) => {
                        proof {
                            assert(spec_included(accounts@[i as int], dec));
                            assert(!spec_failed(accounts@[i as int], dec));
                        }
                        let e = Entry {
                            pubkey: base58_encode(&acc.pubkey),
                            lamports: acc.lamports,
                            owner: acc.owner.clone(),
                            data: dv,
                        };
                        entries.push(e);
                    },
                    None => {
                        proof {
                            assert(!spec_included(accounts@[i as int], dec));
                            assert(spec_failed(accounts@[i as int], dec));
                        }
                        fails.push(
                            Diagnostic::DecodeFailed { pubkey: base58_encode(&acc.pubkey) },
                        );
                    },
                }
            },
        }
        i = i + 1;
    }
    proof {
        assert(accounts@.take(n as int) =~= accounts@);
    }
    let count = entries.len();
    let mut diags: Vec<Diagnostic> = Vec::new();
    diags.push(Diagnostic::Fetched(n));
    let mut fails_moved = fails;
    diags.append(&mut fails_moved);
    diags.push(Diagnostic::Processed(count));
    let report = Report { program: program_text.clone(), count, accounts: entries };
    (report, diags)
}

} // verus!
