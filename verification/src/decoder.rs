//! The decoder registry: a decoder name resolves to a decoder, and the
//! sole registered decoder interprets address lookup tables.

use vstd::prelude::*;

use crate::address::{base58_encode, Address};
use crate::errors::AppError;
use crate::report::{alt_view_ok, DataView};
use crate::strutil::str_eq;

verus! {

/// The decoders this build knows.
#[derive(Clone, Copy, Debug, PartialEq, Eq, Structural)]
pub enum DecoderKind {
    Alt,
}

/// Resolves a decoder name: absent means raw output, `alt` is the lookup
/// table decoder, anything else is refused before any network traffic.
pub fn get_decoder(name: &Option<String>) -> (r: Result<Option<DecoderKind>, AppError>)
    ensures
        name is None ==> r == Ok::<Option<DecoderKind>, AppError>(None),
        name matches Some(s) && s@ == "alt"@ ==> r == Ok::<Option<DecoderKind>, AppError>(
            Some(DecoderKind::Alt),
        ),
        name matches Some(s) && s@ != "alt"@ ==> r == Err::<Option<DecoderKind>, AppError>(
            AppError::UnknownDecoder,
        ),
{
    match name {
        None => Ok(None),
        Some(s) => {
            if str_eq(s.as_str(), "alt") {
                Ok(Some(DecoderKind::Alt))
            } else {
                Err(AppError::UnknownDecoder)
            }
        },
    }
}

/// What deserializing an address lookup table from a byte string yields:
/// the stored 32-byte addresses in order, or nothing when the bytes are
/// not a well-formed, initialized table.
pub uninterp spec fn alt_addresses_of(b: Seq<u8>) -> Option<Seq<Seq<u8>>>;

/// Relies on `AddressLookupTable::deserialize` of
/// `solana_address_lookup_table_interface`: a deterministic parse of the
/// byte string (bincode metadata, then the raw address array); it yields
/// the stored addresses exactly when the bytes form an initialized table.
#[verifier::external_body]
fn alt_deserialize(data: &Vec<u8>) -> (r: Option<Vec<Address>>)
    ensures
        r is Some <==> alt_addresses_of(data@) is Some,
        r matches Some(v) ==> alt_addresses_of(data@) == Some(
            v@.map_values(|a: Address| a@),
        ),
{
    match solana_address_lookup_table_interface::state::AddressLookupTable::deserialize(
        data.as_slice(),
    ) {
        Ok(table) => Some(
            table.addresses.iter().map(|pk| Address { bytes: pk.to_bytes() }).collect(),
        ),
        Err(_) => None,
    }
}

/// The address lookup table decoder.
pub struct AltDecoder;

impl AltDecoder {
    /// Decodes a payload as an address lookup table; `None` is a
    /// per-account decode failure.
    pub fn decode(data: &Vec<u8>) -> (r: Option<DataView>)
        ensures
            r is Some <==> alt_addresses_of(data@) is Some,
            r matches Some(d) ==> alt_view_ok(d, data@),
    {
        let addrs = match alt_deserialize(data) {
            Some(v) => v,
            None => {
                return None;
            },
        };
        let mut rendered: Vec<String> = Vec::new();
        let mut i: usize = 0;
        while i < addrs.len()
            invariant
                i <= addrs@.len(),
                rendered@.len() == i,
                alt_addresses_of(data@) == Some(addrs@.map_values(|a: Address| a@)),
                forall|k: int|
                    0 <= k < i ==> (#[trigger] rendered@[k])@ == crate::address::base58_of(
                        addrs@[k]@,
                    ),
            decreases addrs@.len() - i,
        {
            rendered.push(base58_encode(&addrs[i]));
            i = i + 1;
        }
        let n = rendered.len();
        proof {
            let addrseqs = addrs@.map_values(|a: Address| a@);
            assert(addrseqs.len() == addrs@.len());
            assert forall|k: int| 0 <= k < addrseqs.len() implies (#[trigger] rendered@[k])@
                == crate::address::base58_of(addrseqs[k]) by {
                assert(addrseqs[k] == addrs@[k]@);
            }
        }
        Some(DataView::AddressLookupTable { addresses: rendered, num_addresses: n })
    }
}

} // verus!
