//! The text form of an endpoint address that one peer hands to the other:
//! the address's serialized bytes in standard, padded base64.
use vstd::prelude::*;
use base64::prelude::BASE64_STANDARD;
use base64::Engine;

verus! {

#[verifier::external_type_specification]
#[verifier::external_body]
pub struct ExDecodeError(base64::DecodeError);

/// The standard (RFC 4648, padded) base64 text of `bytes`, as written by
/// `base64::prelude::BASE64_STANDARD`.
pub uninterp spec fn base64_standard(bytes: Seq<u8>) -> Seq<char>;

/// A symbol of the standard base64 alphabet: `A-Z`, `a-z`, `0-9`, `+`, `/`.
pub open spec fn is_base64_symbol(c: char) -> bool {
    ||| 65 <= (c as u32) <= 90
    ||| 97 <= (c as u32) <= 122
    ||| 48 <= (c as u32) <= 57
    ||| c == '+'
    ||| c == '/'
}

/// The shape of a standard padded base64 text: a multiple of four
/// characters, all of the alphabet, except one or two `=` at the very end.
pub open spec fn is_standard_base64_text(s: Seq<char>) -> bool {
    &&& s.len() % 4 == 0
    &&& forall|i: int|
        0 <= i < s.len() ==> is_base64_symbol(#[trigger] s[i]) || (s[i] == '=' && i + 2 >= s.len())
    &&& forall|i: int| 0 <= i < s.len() - 1 && #[trigger] s[i] == '=' ==> s[i + 1] == '='
}

/// Why an address text was refused.
#[derive(Clone, Copy, Debug, PartialEq, Eq, Structural)]
pub enum AddrError {
    /// The text is not the canonical standard base64 of any bytes.
    InvalidBase64,
}

/// Calls `Engine::encode` of base64's `BASE64_STANDARD` engine. Claimed: the
/// result is the engine's encoding of the input, a function of the input
/// alone, made of the standard alphabet and padded with `=` to a multiple of
/// four characters. The engine panics only when the encoded length overflows `usize`,
/// which the bound on the input rules out.
#[verifier::external_body]
fn base64_encode(bytes: &[u8]) -> (r: String)
    requires
        bytes@.len() <= usize::MAX / 2,
    ensures
        r@ == base64_standard(bytes@),
        is_standard_base64_text(r@),
{
    BASE64_STANDARD.encode(bytes)
}

/// Calls `Engine::decode` of base64's `BASE64_STANDARD` engine, whose
/// configuration requires canonical padding and rejects non-zero trailing
/// bits. Claimed: it succeeds exactly on texts that are the engine's encoding
/// of some bytes (so only on padded texts of the standard alphabet), and then
/// returns those bytes.
#[verifier::external_body]
fn base64_decode(text: &str) -> (r: Result<Vec<u8>, base64::DecodeError>)
    ensures
        r matches Ok(v) ==> base64_standard(v@) == text@,
        r matches Ok(v) ==> forall|b: Seq<u8>| #[trigger] base64_standard(b) == text@ ==> b == v@,
        r is Ok <==> exists|b: Seq<u8>| #[trigger] base64_standard(b) == text@,
        r is Ok ==> is_standard_base64_text(text@),
{
    BASE64_STANDARD.decode(text)
}

/// The text under which a peer publishes its serialized endpoint address.
pub fn encode_endpoint_addr(addr_bytes: &[u8]) -> (r: String)
    requires
        addr_bytes@.len() <= usize::MAX / 2,
    ensures
        r@ == base64_standard(addr_bytes@),
        is_standard_base64_text(r@),
{
    base64_encode(addr_bytes)
}

/// The serialized endpoint address carried by a peer's address text.
pub fn decode_endpoint_addr(text: &str) -> (r: Result<Vec<u8>, AddrError>)
    ensures
        r matches Ok(v) ==> base64_standard(v@) == text@,
        forall|b: Seq<u8>| #[trigger] base64_standard(b) == text@ ==> (r matches Ok(v) && v@ == b),
        r is Err <==> !exists|b: Seq<u8>| #[trigger] base64_standard(b) == text@,
        r matches Err(e) ==> e == AddrError::InvalidBase64,
        !is_standard_base64_text(text@) ==> r is Err,
{
    match base64_decode(text) {
        Ok(v) => Ok(v),
        Err(_) => Err(AddrError::InvalidBase64),
    }
}

} // verus!
