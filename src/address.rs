use vstd::prelude::*;

verus! {

/// A ledger address: the 32 bytes of a public key.
#[derive(Clone, Copy, Debug)]
pub struct Address {
    pub bytes: [u8; 32],
}

/// Why the text of an address was refused.
#[derive(Clone, Copy, Debug, PartialEq, Eq, Structural)]
pub enum AddressError {
    /// The text is not base58, or does not decode to 32 bytes.
    Invalid,
}

#[verifier::external_type_specification]
#[verifier::external_body]
pub struct ExParsePubkeyError(solana_program::pubkey::ParsePubkeyError);

/// The 32 bytes that a base58 text decodes to, if it names a public key.
pub uninterp spec fn decoded_address(text: Seq<char>) -> Option<Seq<u8>>;

/// Relies on `Pubkey::from_str`: base58 decoding of the text into a key of
/// exactly 32 bytes, refused otherwise.
#[verifier::external_body]
fn pubkey_from_str(text: &str) -> (r: Result<Address, solana_program::pubkey::ParsePubkeyError>)
    ensures
        match r {
            Ok(a) => decoded_address(text@) == Some(a.bytes@),
            Err(_) => decoded_address(text@) is None,
        },
{
    <solana_program::pubkey::Pubkey as std::str::FromStr>::from_str(text).map(
        |k| Address { bytes: k.to_bytes() },
    )
}

/// Reads an address from its base58 text.
pub fn parse_address(text: &str) -> (r: Result<Address, AddressError>)
    ensures
        match decoded_address(text@) {
            Some(b) => r matches Ok(a) && a.bytes@ == b,
            None => r == Err::<Address, AddressError>(AddressError::Invalid),
        },
{
    match pubkey_from_str(text) {
        Ok(a) => Ok(a),
        Err(_) => Err(AddressError::Invalid),
    }
}

} // verus!
