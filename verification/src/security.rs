//! Token authentication of publishing requests: the `auth` header must hold the
//! configured API token.

use vstd::prelude::*;
use crate::text::{push_char, same_text};

verus! {

/// A byte that an HTTP header value may hold when read as text: visible ASCII or a tab.
pub open spec fn is_visible_ascii(b: u8) -> bool {
    (32 <= b && b < 127) || b == 9
}

/// The text of a header value made only of such bytes.
pub open spec fn ascii_text(bytes: Seq<u8>) -> Seq<char> {
    bytes.map_values(|b: u8| b as char)
}

/// The bytes of a header value, if the header is present.
pub open spec fn header_bytes(header: Option<&[u8]>) -> Option<Seq<u8>> {
    match header {
        Some(h) => Some(h@),
        None => None,
    }
}

/// Why a request carries no usable token.
#[derive(Debug, PartialEq, Eq, Structural)]
pub enum TokenError {
    /// The request has no `auth` header.
    MissingHeader,
    /// The `auth` header holds a byte that is not visible ASCII.
    NotVisibleAscii,
}

/// What `get_token` answers for the raw value of the `auth` header, if any.
pub open spec fn token_of(header: Option<Seq<u8>>) -> Result<Seq<char>, TokenError> {
    match header {
        None => Err(TokenError::MissingHeader),
        Some(bytes) => if forall|i: int| 0 <= i < bytes.len() ==> is_visible_ascii(#[trigger] bytes[i]) {
            Ok(ascii_text(bytes))
        } else {
            Err(TokenError::NotVisibleAscii)
        },
    }
}

/// The token a request carries: the value of its `auth` header (`header`, the raw
/// bytes, if the header is present), read as text, which only visible ASCII allows.
pub fn get_token(header: Option<&[u8]>) -> (r: Result<String, TokenError>)
    ensures
        match r {
            Ok(t) => token_of(header_bytes(header)) == Ok::<Seq<char>, TokenError>(t@),
            Err(e) => token_of(header_bytes(header)) == Err::<Seq<char>, TokenError>(e),
        },
{
    match header {
        None => Err(TokenError::MissingHeader),
        Some(bytes) => {
            let mut text = String::new();
            let mut i: usize = 0;
            while i < bytes.len()
                invariant
                    header == Some(bytes),
                    0 <= i <= bytes.len(),
                    text@ == ascii_text(bytes@.take(i as int)),
                    forall|k: int| 0 <= k < i ==> is_visible_ascii(#[trigger] bytes@[k]),
                decreases bytes.len() - i,
            {
                let b = bytes[i];
                if !((32 <= b && b < 127) || b == 9) {
                    assert(!is_visible_ascii(bytes@[i as int]));
                    return Err(TokenError::NotVisibleAscii);
                }
                let ghost before = text@;
                push_char(&mut text, b as char);
                assert(ascii_text(bytes@.take(i + 1)) =~= before.push(b as char));
                i = i + 1;
            }
            assert(bytes@.take(bytes.len() as int) =~= bytes@);
            Ok(text)
        },
    }
}

/// Whether `token` is the configured API token `valid_token`.
pub fn token_is_valid(token: &str, valid_token: &str) -> (b: bool)
    ensures
        b == (token@ == valid_token@),
{
    same_text(token, valid_token)
}

/// Whether a request whose `auth` header holds `header` (if present) may publish, the
/// configured token being `token`: only if the header is present, readable as text, and
/// equal to the token. Otherwise the request is answered with 401 Unauthorized.
pub fn auth(token: &str, header: Option<&[u8]>) -> (allowed: bool)
    ensures
        allowed == (token_of(header_bytes(header)) == Ok::<Seq<char>, TokenError>(token@)),
{
    match get_token(header) {
        Ok(t) => token_is_valid(t.as_str(), token),
        Err(_) => false,
    }
}

/// A header whose every byte is a tab or lies in 32..=126 (space and the visible ASCII
/// characters) gives its token: the text with one character per byte, of that byte's
/// code; a header with any other byte gives no token.
pub proof fn law_header_text_is_its_bytes(bytes: Seq<u8>)
    ensures
        (forall|i: int| 0 <= i < bytes.len() ==> ((32 <= #[trigger] bytes[i] && bytes[i] <= 126)
            || bytes[i] == 9)) ==> {
            &&& token_of(Some(bytes)) is Ok
            &&& token_of(Some(bytes))->Ok_0.len() == bytes.len()
            &&& forall|i: int| 0 <= i < bytes.len() ==> (#[trigger] token_of(Some(bytes))->Ok_0[i]) as int
                == bytes[i] as int
        },
        (exists|i: int| 0 <= i < bytes.len() && !((32 <= #[trigger] bytes[i] && bytes[i] <= 126)
            || bytes[i] == 9)) ==> token_of(Some(bytes)) == Err::<Seq<char>, TokenError>(
            TokenError::NotVisibleAscii,
        ),
        token_of(None) == Err::<Seq<char>, TokenError>(TokenError::MissingHeader),
{
}

/// A request is let through when its header holds exactly the bytes of the configured
/// token, for every token made of tabs, spaces and visible ASCII characters; and a
/// header that holds other bytes than the token's is refused.
pub proof fn law_own_token_is_accepted(token: Seq<char>, header: Seq<u8>)
    ensures
        (forall|i: int| 0 <= i < token.len() ==> ((32 <= (#[trigger] token[i]) as int && (token[i] as int)
            <= 126) || token[i] as int == 9)) && header.len() == token.len() && (forall|i: int|
            0 <= i < token.len() ==> (#[trigger] header[i]) as int == token[i] as int) ==> token_of(
            Some(header),
        ) == Ok::<Seq<char>, TokenError>(token),
        token_of(Some(header)) == Ok::<Seq<char>, TokenError>(token) ==> header.len() == token.len()
            && forall|i: int| 0 <= i < token.len() ==> (#[trigger] header[i]) as int == token[i] as int,
{
    if (forall|i: int| 0 <= i < token.len() ==> ((32 <= (#[trigger] token[i]) as int && (token[i] as int)
        <= 126) || token[i] as int == 9)) && header.len() == token.len() && (forall|i: int|
        0 <= i < token.len() ==> (#[trigger] header[i]) as int == token[i] as int) {
        assert forall|i: int| 0 <= i < header.len() implies is_visible_ascii(#[trigger] header[i]) by {
            assert(header[i] as int == token[i] as int);
        }
        assert(ascii_text(header) =~= token);
    }
}

/// The status code of a request refused for want of a valid token.
pub const UNAUTHORIZED: u16 = 401;

} // verus!
