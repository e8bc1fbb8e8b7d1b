//! Validation of what players send: nicknames at account creation and
//! bearer tokens on every authenticated request.

use vstd::prelude::*;
use vstd::string::StrSliceExecFns;
use vstd::string::StringExecFns;

use crate::encoder::str_bytes;
use crate::errors::{ErrorCode, RequestError, RouteError};
use crate::text::{spec_trim, trim, u64_to_dec_string};

verus! {

/// The characters a nickname may hold when non-ASCII text is disallowed.
pub open spec fn nickname_char_ok(c: char) -> bool {
    ('a' <= c && c <= 'z') || ('A' <= c && c <= 'Z') || ('0' <= c && c <= '9') || c == ' ' || c
        == '_'
}

/// How a submitted nickname is judged, after trimming surrounding
/// whitespace: empty is rejected, then a byte length over `max_length`, then
/// (unless allowed) any character outside ASCII letters, digits, space and
/// underscore.
pub open spec fn nickname_verdict(
    nickname: Seq<char>,
    max_length: usize,
    allow_non_ascii: bool,
) -> Result<Seq<char>, ErrorCode> {
    let trimmed = spec_trim(nickname);
    if trimmed.len() == 0 {
        Err(ErrorCode::NicknameEmpty)
    } else if str_bytes(trimmed).len() > max_length {
        Err(ErrorCode::NicknameToolong)
    } else if !allow_non_ascii && exists|i: int| 0 <= i < trimmed.len() && !nickname_char_ok(
        trimmed[i],
    ) {
        Err(ErrorCode::NicknameForbiddenCharacters)
    } else {
        Ok(trimmed)
    }
}

/// Trim and validate a submitted nickname, returning the trimmed nickname
/// or the request error the route answers with.
pub fn validated_nickname(nickname: &str, max_length: usize, allow_non_ascii: bool) -> (r: Result<
    String,
    RouteError,
>)
    ensures
        match (r, nickname_verdict(nickname@, max_length, allow_non_ascii)) {
            (Ok(s), Ok(t)) => s@ == t,
            (Err(RouteError::InvalidRequest(re)), Err(code)) => re.err_code == code,
            _ => false,
        },
{
    let trimmed = trim(nickname);
    if trimmed.unicode_len() == 0 {
        return Err(RouteError::InvalidRequest(RequestError::new(
            ErrorCode::NicknameEmpty,
            "Nickname cannot be empty".to_owned(),
        )));
    }
    if trimmed.as_bytes().len() > max_length {
        let mut desc = "Nickname size exceeds maximum size of ".to_owned();
        desc.append(u64_to_dec_string(max_length as u64).as_str());
        return Err(RouteError::InvalidRequest(RequestError::new(
            ErrorCode::NicknameToolong,
            desc,
        )));
    }
    if !allow_non_ascii {
        let n = trimmed.unicode_len();
        let mut i: usize = 0;
        while i < n
            invariant
                0 <= i <= n,
                n == trimmed@.len(),
                trimmed@ == spec_trim(nickname@),
                str_bytes(trimmed@).len() <= max_length,
                !allow_non_ascii,
                forall|j: int| 0 <= j < i ==> nickname_char_ok(trimmed@[j]),
            decreases n - i,
        {
            let c = trimmed.get_char(i);
            let ok = ('a' <= c && c <= 'z') || ('A' <= c && c <= 'Z') || ('0' <= c && c <= '9')
                || c == ' ' || c == '_';
            if !ok {
                proof {
                    assert(!nickname_char_ok(spec_trim(nickname@)[i as int]));
                    assert(exists|j: int|
                        0 <= j < spec_trim(nickname@).len() && !nickname_char_ok(
                            spec_trim(nickname@)[j],
                        ));
                }
                return Err(RouteError::InvalidRequest(RequestError::new(
                    ErrorCode::NicknameForbiddenCharacters,
                    "Nickname can only have ascii characters".to_owned(),
                )));
            }
            i += 1;
        }
        proof {
            assert(!(exists|j: int|
                0 <= j < spec_trim(nickname@).len() && !nickname_char_ok(
                    spec_trim(nickname@)[j],
                ))) by {
                if exists|j: int|
                    0 <= j < spec_trim(nickname@).len() && !nickname_char_ok(
                        spec_trim(nickname@)[j],
                    ) {
                    let j = choose|j: int|
                        0 <= j < spec_trim(nickname@).len() && !nickname_char_ok(
                            spec_trim(nickname@)[j],
                        );
                    assert(nickname_char_ok(trimmed@[j]));
                }
            }
        }
    }
    Ok(trimmed.to_owned())
}

/// The verdict on a bearer token's shape: empty is rejected as
/// `EmptyToken`, more than 64 bytes as `AuthenticationInvalidToken`; the
/// store is consulted only for a token that passes.
pub open spec fn token_shape_ok(token: Seq<char>) -> Result<(), ErrorCode> {
    if str_bytes(token).len() == 0 {
        Err(ErrorCode::EmptyToken)
    } else if str_bytes(token).len() > 64 {
        Err(ErrorCode::AuthenticationInvalidToken)
    } else {
        Ok(())
    }
}

/// Check a bearer token's shape before any store lookup.
pub fn validate_token_shape(token: &str) -> (r: Result<(), RouteError>)
    ensures
        r is Ok <==> token_shape_ok(token@) is Ok,
        r matches Err(e) ==> (e matches RouteError::InvalidRequest(re) && token_shape_ok(token@)
            matches Err(code) && re.err_code == code),
{
    let token_bytes = token.as_bytes().len();
    if token_bytes == 0 {
        return Err(RouteError::InvalidRequest(RequestError::new(
            ErrorCode::EmptyToken,
            "The token is empty.".to_owned(),
        )));
    }
    if token_bytes > 64 {
        let mut desc = "The given token '".to_owned();
        desc.append(token);
        desc.append("' is invalid (too long).");
        return Err(RouteError::InvalidRequest(RequestError::new(
            ErrorCode::AuthenticationInvalidToken,
            desc,
        )));
    }
    Ok(())
}

} // verus!
