//! 32-byte on-chain addresses and their base58 text form.
//!
//! The base58 codec itself is delegated to `solana_pubkey`; the two
//! uninterpreted names below stand for what its encoder and parser
//! return, both functions of their input alone.

use vstd::prelude::*;

verus! {

/// A 32-byte on-chain address, held as plain bytes.
#[derive(Clone, Copy, Debug)]
pub struct Address {
    pub bytes: [u8; 32],
}

impl View for Address {
    type V = Seq<u8>;

    open spec fn view(&self) -> Seq<u8> {
        self.bytes@
    }
}

impl Address {
    pub fn new(bytes: [u8; 32]) -> (r: Address)
        ensures
            r@ == bytes@,
    {
        Address { bytes }
    }
}

/// The base58 text of a 32-byte string.
pub uninterp spec fn base58_of(b: Seq<u8>) -> Seq<char>;

/// The 32 bytes a base58 string denotes, if it denotes exactly 32.
pub uninterp spec fn base58_decode_of(s: Seq<char>) -> Option<Seq<u8>>;

/// Relies on `solana_pubkey::Pubkey`'s `Display` impl (`five8::encode_32`
/// underneath): the base58 text of the 32 bytes, a function of the bytes
/// alone.
#[verifier::external_body]
pub fn base58_encode(a: &Address) -> (r: String)
    ensures
        r@ == base58_of(a@),
{
    solana_pubkey::Pubkey::new_from_array(a.bytes).to_string()
}

/// Relies on `solana_pubkey::Pubkey::from_str` (`five8::decode_32`
/// underneath): succeeds exactly on base58 text of 32 bytes, a function
/// of the string alone, and hands those bytes back.
#[verifier::external_body]
pub fn base58_decode(s: &str) -> (r: Option<Address>)
    ensures
        r is Some <==> base58_decode_of(s@) is Some,
        r matches Some(a) ==> base58_decode_of(s@) == Some(a@) && a@.len() == 32,
{
    match <solana_pubkey::Pubkey as core::str::FromStr>::from_str(s) {
        Ok(p) => Some(Address { bytes: p.to_bytes() }),
        Err(_) => None,
    }
}

} // verus!
