//! Who may use the local HTTP API: requests must name the loopback host
//! with the API's port, and every route but the health check needs the
//! bearer key.

use vstd::prelude::*;
use subtle::ConstantTimeEq;

use crate::text::{chars_of, decimal, push_decimal, push_str, str_eq, string_of, slice_to_vec};

verus! {

/// The public route that needs no key.
pub const HEALTH_PATH: &'static str = "/api/v1/health";

/// What the API does with a request.
#[derive(Debug, Clone, Copy, PartialEq, Eq)]
pub enum AuthDecision {
    /// The Host header is not the API's own loopback address (HTTP 400).
    BadRequest,
    /// The key is missing or wrong (HTTP 401).
    Unauthorized,
    /// The request goes through.
    Allow,
}

/// `subtle::ConstantTimeEq` on byte slices: true exactly when the slices have
/// the same length and the same bytes (the crate's source compares lengths
/// first, then every byte).
#[verifier::external_body]
fn ct_eq_bytes(a: &[u8], b: &[u8]) -> (r: bool)
    ensures
        r == (a@ == b@),
{
    bool::from(a.ct_eq(b))
}

/// The Host values the API answers to.
pub open spec fn allowed_host(host: Seq<char>, port: u16) -> bool {
    host == "127.0.0.1:"@ + decimal(port as nat) || host == "localhost:"@ + decimal(port as nat)
}

/// The code of a character as ASCII case folding gives it.
pub open spec fn ascii_lower(c: char) -> u32 {
    if 'A' <= c <= 'Z' { ((c as u32) + 32) as u32 } else { c as u32 }
}

/// Equality up to ASCII case, as `str::eq_ignore_ascii_case` gives it.
pub open spec fn eq_ignore_ascii_case(a: Seq<char>, b: Seq<char>) -> bool {
    a.len() == b.len() && forall|i: int| 0 <= i < a.len() ==> ascii_lower(#[trigger] a[i]) == ascii_lower(b[i])
}

/// The header split at its first space, as `str::split_once(' ')` gives it.
pub open spec fn split_at_first_space(h: Seq<char>) -> Option<(Seq<char>, Seq<char>)> {
    if exists|i: int| 0 <= i < h.len() && h[i] == ' ' {
        let i = choose|i: int| 0 <= i < h.len() && h[i] == ' ' && forall|j: int| 0 <= j < i ==> h[j] != ' ';
        Some((h.take(i), h.skip(i + 1)))
    } else {
        None
    }
}

/// Whether an Authorization header carries the key: "<scheme> <token>" with
/// the scheme "bearer" in any ASCII case and the token's bytes exactly the key's.
pub open spec fn carries_key(header: Seq<char>, key: Seq<char>) -> bool {
    match split_at_first_space(header) {
        Some((scheme, token)) => eq_ignore_ascii_case(scheme, "bearer"@)
            && vstd::utf8::encode_utf8(token) == vstd::utf8::encode_utf8(key),
        None => false,
    }
}

/// The decision for a request: the Host check comes first (even for the
/// health check), then the health check passes, then the key decides.
pub open spec fn decision(host: Option<Seq<char>>, path: Seq<char>, authorization: Option<Seq<char>>, port: u16, key: Seq<char>) -> AuthDecision {
    if !(host matches Some(h) && allowed_host(h, port)) {
        AuthDecision::BadRequest
    } else if path == "/api/v1/health"@ {
        AuthDecision::Allow
    } else {
        match authorization {
            Some(a) => if carries_key(a, key) { AuthDecision::Allow } else { AuthDecision::Unauthorized },
            None => AuthDecision::Unauthorized,
        }
    }
}

fn lower_ascii(c: char) -> (r: u32)
    ensures
        r == ascii_lower(c),
{
    let code: u32 = c as u32;
    if 'A' <= c && c <= 'Z' {
        code + 32
    } else {
        code
    }
}

/// Equality up to ASCII case.
pub fn eq_ignore_case(a: &Vec<char>, b: &Vec<char>) -> (r: bool)
    ensures
        r == eq_ignore_ascii_case(a@, b@),
{
    if a.len() != b.len() {
        return false;
    }
    for i in 0..a.len()
        invariant
            a.len() == b.len(),
            forall|k: int| 0 <= k < i ==> ascii_lower(#[trigger] a@[k]) == ascii_lower(b@[k]),
    {
        if lower_ascii(a[i]) != lower_ascii(b[i]) {
            return false;
        }
    }
    true
}

/// Whether a Host header names the API's loopback address and port.
pub fn host_allowed(host: &str, port: u16) -> (b: bool)
    ensures
        b == allowed_host(host@, port),
{
    let h = chars_of(host);
    let mut loopback = "127.0.0.1:".to_string();
    push_decimal(&mut loopback, port as u64);
    let mut localhost = "localhost:".to_string();
    push_decimal(&mut localhost, port as u64);
    let l1 = chars_of(loopback.as_str());
    let l2 = chars_of(localhost.as_str());
    crate::text::chars_eq(&h, &l1) || crate::text::chars_eq(&h, &l2)
}

/// Whether an Authorization header carries the key.
pub fn header_carries_key(header: &str, key: &str) -> (b: bool)
    ensures
        b == carries_key(header@, key@),
{
    let h = chars_of(header);
    let mut i: usize = 0;
    while i < h.len() && h[i] != ' '
        invariant
            i <= h.len(),
            h@ == header@,
            forall|j: int| 0 <= j < i ==> h@[j] != ' ',
        decreases h.len() - i,
    {
        i = i + 1;
    }
    if i == h.len() {
        proof {
            assert(!exists|k: int| 0 <= k < h@.len() && h@[k] == ' ');
        }
        return false;
    }
    proof {
        let c = choose|k: int| 0 <= k < h@.len() && h@[k] == ' ' && forall|j: int| 0 <= j < k ==> h@[j] != ' ';
        assert(h@[i as int] == ' ');
        if c < i { assert(h@[c] != ' '); }
        if c > i { assert(h@[i as int] != ' '); }
    }
    let scheme = slice_to_vec(h.as_slice(), 0, i);
    let token = slice_to_vec(h.as_slice(), i + 1, h.len());
    proof {
        assert(scheme@ =~= h@.take(i as int));
        assert(token@ =~= h@.skip(i + 1));
    }
    let bearer = chars_of("bearer");
    if !eq_ignore_case(&scheme, &bearer) {
        return false;
    }
    let token_string = string_of(token.as_slice());
    ct_eq_bytes(token_string.as_str().as_bytes(), key.as_bytes())
}

/// Decides a request from its Host header, path and Authorization header.
pub fn authorize(host: Option<&str>, path: &str, authorization: Option<&str>, api_port: u16, api_key: &str) -> (d: AuthDecision)
    ensures
        d == decision(
            match host { Some(h) => Some(h@), None => None },
            path@,
            match authorization { Some(a) => Some(a@), None => None },
            api_port,
            api_key@,
        ),
{
    let host_ok = match host {
        Some(h) => host_allowed(h, api_port),
        None => false,
    };
    if !host_ok {
        return AuthDecision::BadRequest;
    }
    if str_eq(path, HEALTH_PATH) {
        return AuthDecision::Allow;
    }
    match authorization {
        Some(a) => if header_carries_key(a, api_key) { AuthDecision::Allow } else { AuthDecision::Unauthorized },
        None => AuthDecision::Unauthorized,
    }
}

/// Without the right Host, no request gets through, not even the health check.
pub proof fn lemma_host_checked_first(host: Option<Seq<char>>, path: Seq<char>, authorization: Option<Seq<char>>, port: u16, key: Seq<char>)
    requires
        !(host matches Some(h) && allowed_host(h, port)),
    ensures
        decision(host, path, authorization, port, key) == AuthDecision::BadRequest,
{
}

/// With the right Host, a request without an Authorization header reaches
/// only the health check.
pub proof fn lemma_no_header_no_access(host: Seq<char>, path: Seq<char>, port: u16, key: Seq<char>)
    requires
        allowed_host(host, port),
    ensures
        decision(Some(host), path, None, port, key) == (if path == "/api/v1/health"@ { AuthDecision::Allow } else { AuthDecision::Unauthorized }),
{
}

/// With the right Host, a request to any route that sends
/// "Bearer <key>" (the scheme in any ASCII case) gets through.
pub proof fn lemma_bearer_key_grants_access(host: Seq<char>, path: Seq<char>, port: u16, key: Seq<char>)
    requires
        allowed_host(host, port),
    ensures
        decision(Some(host), path, Some("Bearer "@ + key), port, key) == AuthDecision::Allow,
        decision(Some(host), path, Some("bearer "@ + key), port, key) == AuthDecision::Allow,
        decision(Some(host), path, Some("BEARER "@ + key), port, key) == AuthDecision::Allow,
{
    lemma_bearer_prefixes_carry_key(key);
}

proof fn lemma_bearer_prefixes_carry_key(key: Seq<char>)
    ensures
        carries_key("Bearer "@ + key, key),
        carries_key("bearer "@ + key, key),
        carries_key("BEARER "@ + key, key),
{
    lemma_capitalised_bearer(key);
    lemma_lower_bearer(key);
    lemma_upper_bearer(key);
}

proof fn lemma_capitalised_bearer(key: Seq<char>)
    ensures
        carries_key("Bearer "@ + key, key),
{
    reveal_strlit("Bearer ");
    let s = seq!['B', 'e', 'a', 'r', 'e', 'r'];
    lemma_header_carries_key(s, key);
    assert("Bearer "@ + key =~= s.push(' ') + key);
}

proof fn lemma_lower_bearer(key: Seq<char>)
    ensures
        carries_key("bearer "@ + key, key),
{
    reveal_strlit("bearer ");
    let s = seq!['b', 'e', 'a', 'r', 'e', 'r'];
    lemma_header_carries_key(s, key);
    assert("bearer "@ + key =~= s.push(' ') + key);
}

proof fn lemma_upper_bearer(key: Seq<char>)
    ensures
        carries_key("BEARER "@ + key, key),
{
    reveal_strlit("BEARER ");
    let s = seq!['B', 'E', 'A', 'R', 'E', 'R'];
    lemma_header_carries_key(s, key);
    assert("BEARER "@ + key =~= s.push(' ') + key);
}

proof fn lemma_header_carries_key(scheme: Seq<char>, key: Seq<char>)
    requires
        scheme =~= seq!['B', 'e', 'a', 'r', 'e', 'r'] || scheme =~= seq!['b', 'e', 'a', 'r', 'e', 'r']
            || scheme =~= seq!['B', 'E', 'A', 'R', 'E', 'R'],
    ensures
        carries_key(scheme.push(' ') + key, key),
{
    let prefix = scheme.push(' ');
    assert(forall|j: int| 0 <= j < 6 ==> prefix[j] == scheme[j]);
    lemma_split_after_scheme(prefix, key);
    assert(prefix.take(6) =~= scheme);
    lemma_scheme_is_bearer(scheme);
}

proof fn lemma_scheme_is_bearer(scheme: Seq<char>)
    requires
        scheme =~= seq!['B', 'e', 'a', 'r', 'e', 'r'] || scheme =~= seq!['b', 'e', 'a', 'r', 'e', 'r']
            || scheme =~= seq!['B', 'E', 'A', 'R', 'E', 'R'],
    ensures
        eq_ignore_ascii_case(scheme, "bearer"@),
{
    reveal_strlit("bearer");
    let b = "bearer"@;
    assert(b =~= seq!['b', 'e', 'a', 'r', 'e', 'r']);
    assert forall|i: int| 0 <= i < scheme.len() implies ascii_lower(#[trigger] scheme[i]) == ascii_lower(b[i]) by {
        assert(0 <= i < 6);
    }
}

/// A header made of a six-letter scheme without spaces, one space and a
/// token splits into exactly that scheme and token.
proof fn lemma_split_after_scheme(prefix: Seq<char>, token: Seq<char>)
    requires
        prefix.len() == 7,
        prefix[6] == ' ',
        forall|j: int| 0 <= j < 6 ==> prefix[j] != ' ',
    ensures
        split_at_first_space(prefix + token) == Some((prefix.take(6), token)),
{
    let h = prefix + token;
    assert(h[6] == ' ');
    assert(forall|j: int| 0 <= j < 6 ==> h[j] == prefix[j]);
    let c = choose|i: int| 0 <= i < h.len() && h[i] == ' ' && forall|j: int| 0 <= j < i ==> h[j] != ' ';
    assert(0 <= c < h.len() && h[c] == ' ' && forall|j: int| 0 <= j < c ==> h[j] != ' ');
    if c < 6 {
        assert(h[c] == prefix[c]);
    }
    if c > 6 {
        assert(h[6] != ' ');
    }
    assert(c == 6);
    assert(h.take(6) =~= prefix.take(6));
    assert(h.skip(7) =~= token);
}

/// The token is compared exactly: with the right Host, every route but the
/// health check refuses a bearer token that is not the key.
pub proof fn lemma_wrong_token_refused(host: Seq<char>, path: Seq<char>, port: u16, token: Seq<char>, key: Seq<char>)
    requires
        allowed_host(host, port),
        path != "/api/v1/health"@,
        token != key,
    ensures
        decision(Some(host), path, Some("Bearer "@ + token), port, key) == AuthDecision::Unauthorized,
{
    reveal_strlit("Bearer ");
    let s = seq!['B', 'e', 'a', 'r', 'e', 'r'];
    let prefix = s.push(' ');
    assert(forall|j: int| 0 <= j < 6 ==> prefix[j] == s[j]);
    lemma_split_after_scheme(prefix, token);
    assert("Bearer "@ + token =~= prefix + token);
    vstd::utf8::encode_utf8_decode_utf8(token);
    vstd::utf8::encode_utf8_decode_utf8(key);
    assert(vstd::utf8::encode_utf8(token) != vstd::utf8::encode_utf8(key));
}

}
