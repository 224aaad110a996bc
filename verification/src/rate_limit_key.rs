//! The key that the per-caller rate limiter counts requests under.

use vstd::prelude::*;
use crate::auth::{bearer_token, bearer_token_of};
use crate::text::string_of;

verus! {

/// Keys the rate limiter on the caller's bearer token when present, so
/// wallets sharing an IP each get their own quota, and falls back to the
/// peer address for requests with no token.
#[derive(Debug, Clone, Copy, Default)]
pub struct BearerOrIpKeyExtractor;

/// The rate-limit key of a request with the given `Authorization` header
/// value (if readable as text) and peer IP address (if known).
pub open spec fn rate_limit_key_of(authorization: Option<Seq<char>>, peer_ip: Option<Seq<char>>) -> Option<
    Seq<char>,
> {
    let token = match authorization {
        Some(h) => bearer_token_of(h),
        None => None,
    };
    match token {
        Some(t) => Some("token:"@ + t),
        None => match peer_ip {
            Some(ip) => Some("ip:"@ + ip),
            None => None,
        },
    }
}

/// The view of an optional `&str`.
pub open spec fn opt_view(s: Option<&str>) -> Option<Seq<char>> {
    match s {
        Some(v) => Some(v@),
        None => None,
    }
}

impl BearerOrIpKeyExtractor {
    /// `"token:<token>"` for a bearer token, else `"ip:<address>"`, else
    /// nothing (the request cannot be keyed).
    pub fn extract_key(&self, authorization: Option<&str>, peer_ip: Option<&str>) -> (key: Option<String>)
        ensures
            match key {
                Some(k) => rate_limit_key_of(opt_view(authorization), opt_view(peer_ip)) == Some(k@),
                None => rate_limit_key_of(opt_view(authorization), opt_view(peer_ip)) is None,
            },
    {
        if let Some(h) = authorization {
            if let Some(token) = bearer_token(h) {
                let mut key = string_of("token:");
                key.append(token.as_str());
                return Some(key);
            }
        }
        match peer_ip {
            Some(ip) => {
                let mut key = string_of("ip:");
                key.append(ip);
                Some(key)
            },
            None => None,
        }
    }
}

/// Callers are kept apart: two requests carrying different bearer tokens
/// never share a key, nor do a token-keyed and an address-keyed request;
/// requests with the same token share one key whatever their addresses.
pub proof fn lemma_rate_limit_keys_separate_callers(
    auth1: Option<Seq<char>>,
    ip1: Option<Seq<char>>,
    auth2: Option<Seq<char>>,
    ip2: Option<Seq<char>>,
)
    ensures
        ({
            let t1 = match auth1 { Some(h) => bearer_token_of(h), None => None };
            let t2 = match auth2 { Some(h) => bearer_token_of(h), None => None };
            let k1 = rate_limit_key_of(auth1, ip1);
            let k2 = rate_limit_key_of(auth2, ip2);
            &&& (t1 is Some && t2 is Some && t1 != t2) ==> k1 != k2
            &&& (t1 is Some && t2 is None && k2 is Some) ==> k1 != k2
            &&& (t1 is Some && t1 == t2) ==> k1 == k2
        }),
{
    reveal_strlit("token:");
    reveal_strlit("ip:");
    let t1 = match auth1 { Some(h) => bearer_token_of(h), None => None };
    let t2 = match auth2 { Some(h) => bearer_token_of(h), None => None };
    let k1 = rate_limit_key_of(auth1, ip1);
    let k2 = rate_limit_key_of(auth2, ip2);
    if t1 is Some && t2 is Some && t1 != t2 && k1 == k2 {
        let a = t1->Some_0;
        let b = t2->Some_0;
        assert(("token:"@ + a).skip(6) =~= a);
        assert(("token:"@ + b).skip(6) =~= b);
    }
    if t1 is Some && t2 is None && k2 is Some && k1 == k2 {
        assert(k1->Some_0[0] == 't');
        assert(k2->Some_0[0] == 'i');
    }
}

/// A request with no bearer token is keyed by its whole peer address,
/// `"ip:"` followed by the address, so callers on distinct addresses get
/// distinct keys; a request with a bearer token is keyed by the whole
/// token.
pub proof fn lemma_rate_limit_key_by_address(
    auth1: Option<Seq<char>>,
    ip1: Seq<char>,
    auth2: Option<Seq<char>>,
    ip2: Seq<char>,
)
    ensures
        ({
            let t1 = match auth1 { Some(h) => bearer_token_of(h), None => None };
            let t2 = match auth2 { Some(h) => bearer_token_of(h), None => None };
            &&& t1 is None ==> rate_limit_key_of(auth1, Some(ip1)) == Some("ip:"@ + ip1)
            &&& t1 matches Some(t) ==> rate_limit_key_of(auth1, Some(ip1)) == Some("token:"@ + t)
            &&& (t1 is None && t2 is None && ip1 != ip2) ==> rate_limit_key_of(auth1, Some(ip1))
                != rate_limit_key_of(auth2, Some(ip2))
        }),
{
    let t1 = match auth1 { Some(h) => bearer_token_of(h), None => None };
    let t2 = match auth2 { Some(h) => bearer_token_of(h), None => None };
    if t1 is None && t2 is None && ip1 != ip2 {
        let k1 = "ip:"@ + ip1;
        let k2 = "ip:"@ + ip2;
        reveal_strlit("ip:");
        if k1 == k2 {
            assert(k1.skip(3) =~= ip1);
            assert(k2.skip(3) =~= ip2);
        }
    }
}

} // verus!
