//! Bearer tokens for player authentication: 32 bytes from the secure random
//! source, carried as standard base64 text.

use vstd::prelude::*;

use crate::crypto::os_random_bytes;
use crate::errors::InternalError;

verus! {

/// The base64 text (standard alphabet, padded) for a byte string; a function
/// of the bytes alone.
pub uninterp spec fn base64_of(bytes: Seq<u8>) -> Seq<char>;

/// Relies on base64's `Engine::encode` with the `STANDARD` engine: the text
/// is a function of the input bytes alone, four characters for every three
/// bytes begun. The bound keeps the output length computation, which the
/// call would abort on, within the machine's range.
#[verifier::external_body]
fn base64_encode(bytes: &[u8]) -> (r: String)
    requires
        bytes@.len() <= usize::MAX / 4,
    ensures
        r@ == base64_of(bytes@),
        r@.len() == 4 * ((bytes@.len() + 2) / 3),
{
    base64::Engine::encode(&base64::engine::general_purpose::STANDARD, bytes)
}

/// A player's bearer token.
#[derive(Debug)]
pub struct Token {
    value: String,
}

impl Token {
    /// The token's text.
    pub closed spec fn spec_str(&self) -> Seq<char> {
        self.value@
    }

    /// The token for a fresh 256-bit key: its base64 text, 44 characters.
    pub fn from_key_bytes(key: &[u8; 32]) -> (r: Token)
        ensures
            r.spec_str() == base64_of(key@),
            r.spec_str().len() == 44,
    {
        Token { value: base64_encode(key.as_slice()) }
    }

    /// Draw a fresh key from the secure random source and encode it.
    pub fn generate() -> (r: Result<Token, InternalError>)
        ensures
            r matches Ok(t) ==> t.spec_str().len() == 44,
            r matches Err(e) ==> e == InternalError::RandomSourceFailure,
    {
        let key = os_random_bytes::<32>()?;
        Ok(Token::from_key_bytes(&key))
    }

    pub fn as_str(&self) -> (r: &str)
        ensures
            r@ == self.spec_str(),
    {
        self.value.as_str()
    }
}

} // verus!
