//! The auth check: in `ApiKey` mode a request passes only if it presents
//! one of the configured keys.

use crate::config::{AuthMode, Config, ConfigView};
use crate::error::GatewayError;
use crate::message::{find_text, header_views, text_value, Header, HeaderView};
use crate::text::{
    ascii_bytes, byte_chars, bytes_start_with, bytes_to_text, literal_bytes, starts_with,
};
use vstd::prelude::*;
use vstd::slice::slice_subrange;

verus! {

/// What follows `Bearer ` in the value of an `authorization` field, if the
/// value starts with it.
pub open spec fn bearer_token(value: Seq<u8>) -> Option<Seq<u8>> {
    if starts_with(value, ascii_bytes("Bearer "@)) {
        Some(value.skip(7))
    } else {
        None
    }
}

/// The credential that a request presents: the text of its `x-api-key`
/// field, else the bearer token of its `authorization` field, else none.
/// The body plays no part.
pub open spec fn presented_credential(headers: Seq<HeaderView>) -> Option<Seq<char>> {
    match text_value(headers, "x-api-key"@) {
        Some(v) => Some(byte_chars(v)),
        None => match text_value(headers, "authorization"@) {
            Some(v) => match bearer_token(v) {
                Some(token) => Some(byte_chars(token)),
                None => None,
            },
            None => None,
        },
    }
}

/// Whether a request with these header fields may pass. In `Open`
/// mode it always does. In `ApiKey` mode the presented credential must be
/// a configured key, letter for letter; a request that presents none is
/// turned away.
pub open spec fn admits(config: ConfigView, headers: Seq<HeaderView>) -> bool {
    match config.auth_mode {
        AuthMode::Open => true,
        AuthMode::ApiKey => match presented_credential(headers) {
            Some(c) => config.api_keys.contains(c),
            None => false,
        },
    }
}

/// Reads the credential that a request presents.
pub fn credential(headers: &Vec<Header>) -> (presented: Option<String>)
    ensures
        match presented_credential(header_views(headers@)) {
            Some(c) => presented matches Some(p) && p@ == c,
            None => presented is None,
        },
{
    match find_text(headers, "x-api-key") {
        Some(v) => Some(bytes_to_text(v.as_slice())),
        None => match find_text(headers, "authorization") {
            Some(v) => {
                proof {
                    reveal_strlit("Bearer ");
                }
                if bytes_start_with(v.as_slice(), literal_bytes("Bearer ")) {
                    let token = slice_subrange(v.as_slice(), 7, v.len());
                    proof {
                        assert(token@ == v@.skip(7));
                    }
                    Some(bytes_to_text(token))
                } else {
                    None
                }
            },
            None => None,
        },
    }
}

/// Checks a request: `Ok` where it may pass, `AuthDenied` where not.
pub fn check_auth(config: &Config, headers: &Vec<Header>) -> (verdict: Result<(), GatewayError>)
    ensures
        verdict == if admits(config@, header_views(headers@)) {
            Ok::<(), GatewayError>(())
        } else {
            Err::<(), GatewayError>(GatewayError::AuthDenied)
        },
{
    match config.auth_mode {
        AuthMode::Open => Ok(()),
        AuthMode::ApiKey => match credential(headers) {
            Some(c) => if config.api_keys.contains(c.as_str()) {
                Ok(())
            } else {
                Err(GatewayError::AuthDenied)
            },
            None => Err(GatewayError::AuthDenied),
        },
    }
}

} // verus!
