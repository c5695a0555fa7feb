//! OAuth 2.0 + PKCE helpers: URL coding, callback parsing, state validation
//! and the authorization URL.
use vstd::prelude::*;
use vstd::utf8::{decode_utf8, encode_utf8, valid_utf8};

use crate::auth::{OAuthTokenSet, ProviderOAuthConfig};
use crate::digest::{sha256_digest, sha256_spec};
use crate::error::ZeptoError;
use crate::digest::{hex_encode, hex_lower, lemma_hex_lower_len};
use crate::text::{first_line, first_line_bounds, split_whitespace_chars, sub_chars, words,
    u64_to_decimal, decimal, 
    chars_eq, chars_of, find_char, find_from, join_seq, join_strings, lemma_find_char_bounds,
    push_char, push_str, split_chars, split_seq, str_eq, string_from_char_range,
    string_from_chars, string_from_utf8, string_from_utf8_lossy, to_owned_string, utf8_lossy,
};

verus! {

// ----------------------------------------------------------------------------
// URL encoding
// ----------------------------------------------------------------------------

/// Bytes that `urlencode` keeps as they are: `A-Z a-z 0-9 - _ . ~`.
pub open spec fn is_unreserved(b: u8) -> bool {
    (65 <= b <= 90) || (97 <= b <= 122) || (48 <= b <= 57) || b == 45 || b == 95 || b == 46
        || b == 126
}

/// Upper-case hexadecimal digit of a nibble `n < 16`.
pub open spec fn upper_hex(n: nat) -> char {
    if n < 10 {
        ((n + 48) as u8) as char
    } else {
        ((n - 10 + 65) as u8) as char
    }
}

/// The text one byte becomes: itself when unreserved, else `%XX` (upper-case hex).
pub open spec fn encode_piece(b: u8) -> Seq<char> {
    if is_unreserved(b) {
        seq![b as char]
    } else {
        seq!['%', upper_hex((b / 16) as nat), upper_hex((b % 16) as nat)]
    }
}

/// Percent-encoding of a byte string.
pub open spec fn url_encode_bytes(b: Seq<u8>) -> Seq<char>
    decreases b.len(),
{
    if b.len() == 0 {
        Seq::empty()
    } else {
        url_encode_bytes(b.drop_last()) + encode_piece(b.last())
    }
}

/// Percent-encoding of the UTF-8 bytes of `s`.
pub open spec fn urlencoded(s: Seq<char>) -> Seq<char> {
    url_encode_bytes(encode_utf8(s))
}

fn upper_hex_char(n: u8) -> (c: char)
    requires
        n < 16,
    ensures
        c == upper_hex(n as nat),
{
    if n < 10 {
        (n + 48) as char
    } else {
        (n - 10 + 65) as char
    }
}

/// Minimal URL encoding: unreserved bytes kept, every other byte as `%XX`.
pub fn urlencode(s: &str) -> (r: String)
    ensures
        r@ == urlencoded(s@),
{
    let bytes = s.as_bytes();
    let mut r = String::new();
    let mut i: usize = 0;
    while i < bytes.len()
        invariant
            i <= bytes.len(),
            bytes@ == encode_utf8(s@),
            r@ == url_encode_bytes(bytes@.take(i as int)),
        decreases bytes.len() - i,
    {
        let b = bytes[i];
        assert(bytes@.take(i + 1).drop_last() =~= bytes@.take(i as int));
        if (65 <= b && b <= 90) || (97 <= b && b <= 122) || (48 <= b && b <= 57) || b == 45 || b
            == 95 || b == 46 || b == 126 {
            push_char(&mut r, b as char);
        } else {
            push_char(&mut r, '%');
            push_char(&mut r, upper_hex_char(b / 16));
            push_char(&mut r, upper_hex_char(b % 16));
        }
        assert(r@ =~= url_encode_bytes(bytes@.take(i + 1)));
        i += 1;
    }
    assert(bytes@.take(bytes.len() as int) =~= bytes@);
    r
}

// ----------------------------------------------------------------------------
// URL decoding
// ----------------------------------------------------------------------------

/// Value of an ASCII hex digit (either case).
pub open spec fn hex_value(b: u8) -> Option<u8> {
    if 48 <= b <= 57 {
        Some((b - 48) as u8)
    } else if 65 <= b <= 70 {
        Some((b - 55) as u8)
    } else if 97 <= b <= 102 {
        Some((b - 87) as u8)
    } else {
        None
    }
}

/// The byte a two-character escape `h1 h2` denotes, as `u8::from_str_radix(.., 16)`
/// reads it: two hex digits, or `+` followed by one hex digit.
pub open spec fn escape_value(h1: u8, h2: u8) -> Option<u8> {
    match (hex_value(h1), hex_value(h2)) {
        (Some(a), Some(b)) => Some((16 * a + b) as u8),
        (None, Some(b)) => if h1 == 43 {
            Some(b)
        } else {
            None
        },
        _ => None,
    }
}

/// Percent-decoding of bytes: valid `%XX` escapes become their byte, `+` a
/// space, anything else (a stray `%` included) is kept.
pub open spec fn url_decode_bytes(b: Seq<u8>) -> Seq<u8>
    decreases b.len(),
{
    if b.len() == 0 {
        Seq::empty()
    } else if b[0] == 37 {
        if 2 < b.len() {
            match escape_value(b[1], b[2]) {
                Some(v) => seq![v] + url_decode_bytes(b.skip(3)),
                None => seq![37u8] + url_decode_bytes(b.skip(1)),
            }
        } else {
            seq![37u8] + url_decode_bytes(b.skip(1))
        }
    } else if b[0] == 43 {
        seq![32u8] + url_decode_bytes(b.skip(1))
    } else {
        seq![b[0]] + url_decode_bytes(b.skip(1))
    }
}

/// The text `urldecode` makes of `s`: the decoded bytes read as UTF-8
/// (lossily when they are not valid UTF-8).
pub open spec fn urldecoded(s: Seq<char>) -> Seq<char> {
    let b = url_decode_bytes(encode_utf8(s));
    if valid_utf8(b) {
        decode_utf8(b)
    } else {
        utf8_lossy(b)
    }
}

fn hex_value_exec(b: u8) -> (r: Option<u8>)
    ensures
        r == hex_value(b),
{
    if 48 <= b && b <= 57 {
        Some(b - 48)
    } else if 65 <= b && b <= 70 {
        Some(b - 55)
    } else if 97 <= b && b <= 102 {
        Some(b - 87)
    } else {
        None
    }
}

fn escape_value_exec(h1: u8, h2: u8) -> (r: Option<u8>)
    ensures
        r == escape_value(h1, h2),
{
    match (hex_value_exec(h1), hex_value_exec(h2)) {
        (Some(a), Some(b)) => Some(16 * a + b),
        (None, Some(b)) => if h1 == 43 {
            Some(b)
        } else {
            None
        },
        _ => None,
    }
}

/// Minimal URL decoding of percent-encoded text (`+` is a space).
pub fn urldecode(s: &str) -> (r: String)
    ensures
        r@ == urldecoded(s@),
{
    let bytes = s.as_bytes();
    let ghost all = bytes@;
    let mut out: Vec<u8> = Vec::new();
    let mut i: usize = 0;
    assert(all.skip(0) =~= all);
    assert(out@ + url_decode_bytes(all.skip(0)) =~= url_decode_bytes(all));
    while i < bytes.len()
        invariant
            i <= bytes.len(),
            bytes@ == all,
            all == encode_utf8(s@),
            url_decode_bytes(all) == out@ + url_decode_bytes(all.skip(i as int)),
        decreases bytes.len() - i,
    {
        let b = bytes[i];
        let ghost rest = all.skip(i as int);
        if b == 37 {
            if bytes.len() - i > 2 {
                match escape_value_exec(bytes[i + 1], bytes[i + 2]) {
                    Some(v) => {
                        out.push(v);
                        assert(rest.skip(3) =~= all.skip(i + 3));
                        i += 3;
                    },
                    None => {
                        out.push(37);
                        assert(rest.skip(1) =~= all.skip(i + 1));
                        i += 1;
                    },
                }
            } else {
                out.push(37);
                assert(rest.skip(1) =~= all.skip(i + 1));
                i += 1;
            }
        } else if b == 43 {
            out.push(32);
            assert(rest.skip(1) =~= all.skip(i + 1));
            i += 1;
        } else {
            out.push(b);
            assert(rest.skip(1) =~= all.skip(i + 1));
            i += 1;
        }
    }
    assert(all.skip(bytes.len() as int) =~= Seq::<u8>::empty());
    assert(out@ =~= url_decode_bytes(all));
    let copy = out.clone();
    match string_from_utf8(out) {
        Some(t) => t,
        None => string_from_utf8_lossy(copy.as_slice()),
    }
}

// ----------------------------------------------------------------------------
// URL coding round trip
// ----------------------------------------------------------------------------

/// The bytes of ASCII text, one per character.
pub open spec fn ascii_bytes(cs: Seq<char>) -> Seq<u8> {
    cs.map_values(|c: char| c as u8)
}

proof fn lemma_encode_concat(a: Seq<u8>, b: Seq<u8>)
    ensures
        url_encode_bytes(a + b) == url_encode_bytes(a) + url_encode_bytes(b),
    decreases b.len(),
{
    if b.len() == 0 {
        assert(a + b =~= a);
    } else {
        lemma_encode_concat(a, b.drop_last());
        assert((a + b).drop_last() =~= a + b.drop_last());
    }
}

proof fn lemma_encode_front(b: Seq<u8>)
    requires
        b.len() > 0,
    ensures
        url_encode_bytes(b) == encode_piece(b[0]) + url_encode_bytes(b.drop_first()),
{
    assert(b =~= seq![b[0]] + b.drop_first());
    lemma_encode_concat(seq![b[0]], b.drop_first());
    assert(seq![b[0]].drop_last() =~= Seq::<u8>::empty());
    assert(url_encode_bytes(Seq::<u8>::empty()) =~= Seq::<char>::empty());
    assert(url_encode_bytes(seq![b[0]]) =~= encode_piece(b[0]));
}

proof fn lemma_encoded_is_ascii(b: Seq<u8>)
    ensures
        vstd::utf8::is_ascii_chars(url_encode_bytes(b)),
    decreases b.len(),
{
    if b.len() > 0 {
        lemma_encoded_is_ascii(b.drop_last());
        let p = encode_piece(b.last());
        let x = b.last();
        assert(x / 16 < 16 && x % 16 < 16);
        assert(vstd::utf8::is_ascii_chars(p));
        let e = url_encode_bytes(b);
        assert forall|i: int| 0 <= i < e.len() implies '\0' <= #[trigger] e[i] <= '\u{7f}' by {
            let d = url_encode_bytes(b.drop_last());
            if i < d.len() {
                assert(e[i] == d[i]);
            } else {
                assert(e[i] == p[i - d.len()]);
            }
        }
    }
}

proof fn lemma_piece_decodes(x: u8, rest: Seq<u8>)
    ensures
        url_decode_bytes(ascii_bytes(encode_piece(x)) + rest) == seq![x] + url_decode_bytes(rest),
{
    let p = ascii_bytes(encode_piece(x));
    let all = p + rest;
    if is_unreserved(x) {
        assert(p =~= seq![x]);
        assert(all[0] == x);
        assert(all.skip(1) =~= rest);
    } else {
        let hi = (x / 16) as u8;
        let lo = (x % 16) as u8;
        assert(x == 16 * hi + lo);
        assert(p[0] == 37u8);
        assert(p[1] == upper_hex(hi as nat) as u8);
        assert(p[2] == upper_hex(lo as nat) as u8);
        assert(hex_value(p[1]) == Some(hi));
        assert(hex_value(p[2]) == Some(lo));
        assert(all[0] == 37u8 && all[1] == p[1] && all[2] == p[2]);
        assert(all.skip(3) =~= rest);
    }
}

proof fn lemma_decode_encode_bytes(b: Seq<u8>)
    ensures
        url_decode_bytes(ascii_bytes(url_encode_bytes(b))) == b,
    decreases b.len(),
{
    if b.len() == 0 {
        assert(ascii_bytes(url_encode_bytes(b)) =~= Seq::<u8>::empty());
    } else {
        lemma_encode_front(b);
        lemma_decode_encode_bytes(b.drop_first());
        let p = encode_piece(b[0]);
        let r = url_encode_bytes(b.drop_first());
        assert(ascii_bytes(p + r) =~= ascii_bytes(p) + ascii_bytes(r));
        lemma_piece_decodes(b[0], ascii_bytes(r));
        assert(seq![b[0]] + b.drop_first() =~= b);
    }
}

/// Decoding what `urlencode` produced gives back the original text.
pub proof fn lemma_urldecode_urlencode(s: Seq<char>)
    ensures
        urldecoded(urlencoded(s)) == s,
{
    let b = encode_utf8(s);
    let e = url_encode_bytes(b);
    lemma_encoded_is_ascii(b);
    vstd::utf8::is_ascii_chars_encode_utf8(e);
    assert(encode_utf8(e) =~= ascii_bytes(e));
    lemma_decode_encode_bytes(b);
    vstd::utf8::encode_utf8_valid_utf8(s);
    vstd::utf8::encode_utf8_decode_utf8(s);
}


// ----------------------------------------------------------------------------
// Callback parsing
// ----------------------------------------------------------------------------

/// Result from the OAuth callback.
#[derive(Debug, Clone, PartialEq, Eq)]
pub struct CallbackResult {
    /// Authorization code returned by the provider.
    pub code: String,
    /// State parameter (must match the one sent in the auth request).
    pub state: Option<String>,
}

/// The query of a request path: the text after the first `?` up to the next `?`.
pub open spec fn query_of(path: Seq<char>) -> Option<Seq<char>> {
    let parts = split_seq(path, '?');
    if parts.len() >= 2 {
        Some(parts[1])
    } else {
        None
    }
}

/// Key of a `key=value` pair (the whole pair when it has no `=`).
pub open spec fn pair_key(p: Seq<char>) -> Seq<char> {
    match find_char(p, '=') {
        Some(i) => p.take(i),
        None => p,
    }
}

/// Raw value of a `key=value` pair (empty when it has no `=`).
pub open spec fn pair_value(p: Seq<char>) -> Seq<char> {
    match find_char(p, '=') {
        Some(i) => p.skip(i + 1),
        None => Seq::empty(),
    }
}

/// Decoded value of the last pair whose key is `key`.
pub open spec fn param_value(pairs: Seq<Seq<char>>, key: Seq<char>) -> Option<Seq<char>>
    decreases pairs.len(),
{
    if pairs.len() == 0 {
        None
    } else if pair_key(pairs.last()) == key {
        Some(urldecoded(pair_value(pairs.last())))
    } else {
        param_value(pairs.drop_last(), key)
    }
}

/// `Some` view of an optional string.
pub open spec fn opt_view(o: Option<String>) -> Option<Seq<char>> {
    match o {
        Some(s) => Some(s@),
        None => None,
    }
}

/// The message of a `Config` error, or `None` for another result.
pub open spec fn config_error_text<T>(r: Result<T, ZeptoError>) -> Option<Seq<char>> {
    match r {
        Err(ZeptoError::Config(m)) => Some(m@),
        _ => None,
    }
}

/// `"OAuth authorization denied: {error} — {description}"`.
pub open spec fn denied_msg(err: Seq<char>, desc: Seq<char>) -> Seq<char> {
    "OAuth authorization denied: "@ + err + " — "@ + desc
}

/// What the callback path yields: an error message, or the code and state.
pub open spec fn callback_outcome(path: Seq<char>) -> Result<(Seq<char>, Option<Seq<char>>), Seq<char>> {
    match query_of(path) {
        None => Err("OAuth callback missing query parameters"@),
        Some(q) => {
            let pairs = split_seq(q, '&');
            match param_value(pairs, "error"@) {
                Some(err) => Err(
                    denied_msg(
                        err,
                        match param_value(pairs, "error_description"@) {
                            Some(d) => d,
                            None => Seq::empty(),
                        },
                    ),
                ),
                None => match param_value(pairs, "code"@) {
                    None => Err("OAuth callback missing 'code' parameter"@),
                    Some(c) => Ok((c, param_value(pairs, "state"@))),
                },
            }
        },
    }
}

proof fn lemma_split_nonempty(s: Seq<char>, sep: char)
    ensures
        split_seq(s, sep).len() >= 1,
    decreases s.len(),
{
    lemma_find_char_bounds(s, sep);
    match find_char(s, sep) {
        Some(i) => {
            lemma_split_nonempty(s.skip(i + 1), sep);
        },
        None => {},
    }
}

/// Splits `cs` at its first `=` into key and raw value.
fn split_pair(cs: &[char]) -> (r: (Vec<char>, Vec<char>))
    ensures
        r.0@ == pair_key(cs@),
        r.1@ == pair_value(cs@),
{
    assert(cs@.skip(0) =~= cs@);
    match find_from(cs, '=', 0) {
        Some(j) => {
            proof {
                lemma_find_char_bounds(cs@, '=');
            }
            (crate::text::sub_chars(cs, 0, j), crate::text::sub_chars(cs, j + 1, cs.len()))
        },
        None => (crate::text::sub_chars(cs, 0, cs.len()), Vec::new()),
    }
}

/// Parses the OAuth callback query parameters from the request path.
pub fn parse_callback_params(path: &str) -> (r: Result<CallbackResult, ZeptoError>)
    ensures
        match callback_outcome(path@) {
            Err(m) => config_error_text(r) == Some(m),
            Ok((c, st)) => r matches Ok(cb) && cb.code@ == c && opt_view(cb.state) == st,
        },
{
    let cs = chars_of(path);
    let parts = split_chars(cs.as_slice(), '?');
    let ghost pv = parts@.map_values(|v: Vec<char>| v@);
    if parts.len() < 2 {
        return Err(ZeptoError::Config(to_owned_string("OAuth callback missing query parameters")));
    }
    assert(pv[1] == parts@[1]@);
    let pairs = split_chars(parts[1].as_slice(), '&');
    let ghost pairs_v = pairs@.map_values(|v: Vec<char>| v@);
    let k_code = chars_of("code");
    let k_state = chars_of("state");
    let k_error = chars_of("error");
    let k_desc = chars_of("error_description");
    let mut code: Option<String> = None;
    let mut state: Option<String> = None;
    let mut error: Option<String> = None;
    let mut error_description: Option<String> = None;
    let mut i: usize = 0;
    while i < pairs.len()
        invariant
            i <= pairs@.len(),
            pairs_v == pairs@.map_values(|v: Vec<char>| v@),
            k_code@ == "code"@,
            k_state@ == "state"@,
            k_error@ == "error"@,
            k_desc@ == "error_description"@,
            opt_view(code) == param_value(pairs_v.take(i as int), "code"@),
            opt_view(state) == param_value(pairs_v.take(i as int), "state"@),
            opt_view(error) == param_value(pairs_v.take(i as int), "error"@),
            opt_view(error_description) == param_value(
                pairs_v.take(i as int),
                "error_description"@,
            ),
        decreases pairs@.len() - i,
    {
        proof {
            reveal_strlit("code");
            reveal_strlit("state");
            reveal_strlit("error");
            reveal_strlit("error_description");
            assert("code"@.len() == 4 && "state"@.len() == 5 && "error"@.len() == 5);
            assert("error_description"@.len() == 17);
            assert("code"@ != "state"@);
            assert("code"@ != "error"@);
            assert("code"@ != "error_description"@);
            assert("state"@[0] != "error"@[0]);
            assert("state"@ != "error"@);
            assert("state"@ != "error_description"@);
            assert("error"@ != "error_description"@);
        }
        let (key, raw) = split_pair(pairs[i].as_slice());
        let raw_s = string_from_chars(raw.as_slice());
        let value = urldecode(raw_s.as_str());
        let ghost t = pairs_v.take(i + 1);
        assert(t.drop_last() =~= pairs_v.take(i as int));
        assert(t.last() == pairs@[i as int]@);
        if chars_eq(key.as_slice(), k_code.as_slice()) {
            code = Some(value);
        } else if chars_eq(key.as_slice(), k_state.as_slice()) {
            state = Some(value);
        } else if chars_eq(key.as_slice(), k_error.as_slice()) {
            error = Some(value);
        } else if chars_eq(key.as_slice(), k_desc.as_slice()) {
            error_description = Some(value);
        }
        i += 1;
    }
    assert(pairs_v.take(pairs@.len() as int) =~= pairs_v);
    if let Some(err) = error {
        let desc = match error_description {
            Some(d) => d,
            None => String::new(),
        };
        let mut m = to_owned_string("OAuth authorization denied: ");
        push_str(&mut m, err.as_str());
        push_str(&mut m, " — ");
        push_str(&mut m, desc.as_str());
        return Err(ZeptoError::Config(m));
    }
    match code {
        None => Err(ZeptoError::Config(to_owned_string("OAuth callback missing 'code' parameter"))),
        Some(c) => Ok(CallbackResult { code: c, state }),
    }
}

/// Checks the `state` returned by the provider against the one that was sent.
pub fn validate_oauth_state(returned_state: Option<&str>, expected_state: &str) -> (r: Result<(), ZeptoError>)
    ensures
        returned_state is None ==> config_error_text(r) == Some(
            "OAuth callback missing state parameter — possible CSRF attack"@,
        ),
        returned_state matches Some(s) && s@ != expected_state@ ==> config_error_text(r) == Some(
            "OAuth state parameter mismatch — possible CSRF attack"@,
        ),
        returned_state matches Some(s) && s@ == expected_state@ ==> r is Ok,
{
    match returned_state {
        None => Err(
            ZeptoError::Config(
                to_owned_string("OAuth callback missing state parameter — possible CSRF attack"),
            ),
        ),
        Some(s) => {
            if str_eq(s, expected_state) {
                Ok(())
            } else {
                Err(
                    ZeptoError::Config(
                        to_owned_string("OAuth state parameter mismatch — possible CSRF attack"),
                    ),
                )
            }
        },
    }
}


// ----------------------------------------------------------------------------
// Authorization URL
// ----------------------------------------------------------------------------

/// PKCE code verifier and challenge pair.
#[derive(Debug, Clone, PartialEq, Eq)]
pub struct PkceChallenge {
    /// Random code verifier (43-128 chars, unreserved URI characters).
    pub code_verifier: String,
    /// SHA256 hash of verifier, base64url-encoded (no padding).
    pub code_challenge: String,
}

/// The authorization URL the browser is sent to.
pub open spec fn authorize_url_spec(
    base: Seq<char>,
    client_id: Seq<char>,
    redirect_uri: Seq<char>,
    challenge: Seq<char>,
    state: Seq<char>,
    scopes: Seq<Seq<char>>,
) -> Seq<char> {
    let url = base + "?response_type=code&client_id="@ + urlencoded(client_id) + "&redirect_uri="@
        + urlencoded(redirect_uri) + "&code_challenge="@ + urlencoded(challenge)
        + "&code_challenge_method=S256&state="@ + urlencoded(state);
    if scopes.len() == 0 {
        url
    } else {
        url + "&scope="@ + urlencoded(join_seq(scopes, " "@))
    }
}

/// Builds the authorization URL for the browser.
pub fn build_authorize_url(
    config: &ProviderOAuthConfig,
    client_id: &str,
    redirect_uri: &str,
    pkce: &PkceChallenge,
    state: &str,
) -> (url: String)
    ensures
        url@ == authorize_url_spec(
            config.authorize_url@,
            client_id@,
            redirect_uri@,
            pkce.code_challenge@,
            state@,
            config.scopes@.map_values(|s: String| s@),
        ),
{
    let mut url = config.authorize_url.clone();
    push_str(&mut url, "?response_type=code&client_id=");
    let e = urlencode(client_id);
    push_str(&mut url, e.as_str());
    push_str(&mut url, "&redirect_uri=");
    let e = urlencode(redirect_uri);
    push_str(&mut url, e.as_str());
    push_str(&mut url, "&code_challenge=");
    let e = urlencode(pkce.code_challenge.as_str());
    push_str(&mut url, e.as_str());
    push_str(&mut url, "&code_challenge_method=S256&state=");
    let e = urlencode(state);
    push_str(&mut url, e.as_str());
    if config.scopes.len() != 0 {
        push_str(&mut url, "&scope=");
        let joined = join_strings(&config.scopes, " ");
        let e = urlencode(joined.as_str());
        push_str(&mut url, e.as_str());
    }
    url
}

// ----------------------------------------------------------------------------
// PKCE and CSRF state
// ----------------------------------------------------------------------------

/// The character of a 6-bit value in the URL-safe base64 alphabet
/// (RFC 4648, section 5): `A`..`Z`, `a`..`z`, `0`..`9`, `-`, `_`.
pub open spec fn base64_url_char(v: int) -> char {
    if v < 26 {
        ('A' as int + v) as char
    } else if v < 52 {
        ('a' as int + (v - 26)) as char
    } else if v < 62 {
        ('0' as int + (v - 52)) as char
    } else if v == 62 {
        '-'
    } else {
        '_'
    }
}

/// Base64 text of `bytes` in the URL-safe alphabet without padding: each
/// group of three bytes gives four characters (six bits each, high bits
/// first); a final group of two bytes gives three, of one byte two.
pub open spec fn base64_url_nopad(b: Seq<u8>) -> Seq<char>
    decreases b.len(),
{
    if b.len() == 0 {
        Seq::empty()
    } else if b.len() == 1 {
        seq![base64_url_char(b[0] as int / 4), base64_url_char((b[0] as int % 4) * 16)]
    } else if b.len() == 2 {
        seq![
            base64_url_char(b[0] as int / 4),
            base64_url_char((b[0] as int % 4) * 16 + b[1] as int / 16),
            base64_url_char((b[1] as int % 16) * 4),
        ]
    } else {
        seq![
            base64_url_char(b[0] as int / 4),
            base64_url_char((b[0] as int % 4) * 16 + b[1] as int / 16),
            base64_url_char((b[1] as int % 16) * 4 + b[2] as int / 64),
            base64_url_char(b[2] as int % 64),
        ] + base64_url_nopad(b.skip(3))
    }
}

/// Unpadded base64 of `n` bytes has `ceil(4n/3)` characters.
pub proof fn lemma_base64_url_len(b: Seq<u8>)
    ensures
        base64_url_nopad(b).len() == (4 * b.len() + 2) / 3,
    decreases b.len(),
{
    if b.len() >= 3 {
        lemma_base64_url_len(b.skip(3));
    }
}

/// `base64::engine::general_purpose::URL_SAFE_NO_PAD.encode`: the URL-safe
/// base64 text of `bytes`, without padding.
#[verifier::external_body]
pub(crate) fn base64_url_encode(bytes: &[u8]) -> (s: String)
    ensures
        s@ == base64_url_nopad(bytes@),
{
    base64::Engine::encode(&base64::engine::general_purpose::URL_SAFE_NO_PAD, bytes)
}

/// `n` bytes from the operating system's random source (`OsRng::fill_bytes`
/// as `chacha20poly1305` re-exports it). Only the length is claimed.
#[verifier::external_body]
pub(crate) fn os_random_bytes(n: usize) -> (r: Vec<u8>)
    ensures
        r@.len() == n,
{
    let mut v = vec![0u8; n];
    chacha20poly1305::aead::rand_core::RngCore::fill_bytes(&mut chacha20poly1305::aead::OsRng, &mut v);
    v
}

/// The PKCE challenge of a verifier: base64url(SHA-256(verifier)).
pub open spec fn challenge_of(verifier: Seq<char>) -> Seq<char> {
    base64_url_nopad(sha256_spec(encode_utf8(verifier)))
}

impl PkceChallenge {
    /// The pair for a given code verifier.
    pub fn from_verifier(code_verifier: String) -> (p: Self)
        ensures
            p.code_verifier@ == code_verifier@,
            p.code_challenge@ == challenge_of(code_verifier@),
            p.code_challenge@.len() == 43,
    {
        let hash = sha256_digest(code_verifier.as_str().as_bytes());
        let code_challenge = base64_url_encode(hash.as_slice());
        proof {
            lemma_base64_url_len(hash@);
        }
        PkceChallenge { code_verifier, code_challenge }
    }

    /// A new pair from 32 random bytes: the verifier is their base64url text
    /// (43 characters), the challenge is derived from it.
    pub fn generate() -> (p: Self)
        ensures
            p.code_verifier@.len() == 43,
            p.code_challenge@ == challenge_of(p.code_verifier@),
            p.code_challenge@.len() == 43,
    {
        let buf = os_random_bytes(32);
        let code_verifier = base64_url_encode(buf.as_slice());
        proof {
            lemma_base64_url_len(buf@);
        }
        Self::from_verifier(code_verifier)
    }
}

/// A fresh CSRF `state`: 16 random bytes as 32 lower-case hex characters.
pub fn generate_csrf_state() -> (s: String)
    ensures
        s@.len() == 32,
        exists|b: Seq<u8>| b.len() == 16 && s@ == hex_lower(b),
{
    let buf = os_random_bytes(16);
    let s = hex_encode(buf.as_slice());
    proof {
        lemma_hex_lower_len(buf@);
    }
    s
}

// ----------------------------------------------------------------------------
// Callback HTTP exchange
// ----------------------------------------------------------------------------

/// The request target of an HTTP request: the second word of its first line.
pub open spec fn request_target(request: Seq<char>) -> Option<Seq<char>> {
    match first_line(request) {
        None => None,
        Some(l) => if words(l).len() >= 2 {
            Some(words(l)[1])
        } else {
            None
        },
    }
}

/// The path (with query) of the callback request, from its request line.
pub fn callback_request_path(request: &str) -> (r: Option<String>)
    ensures
        opt_view(r) == request_target(request@),
{
    let cs = chars_of(request);
    match first_line_bounds(cs.as_slice()) {
        None => None,
        Some(e) => {
            let line = sub_chars(cs.as_slice(), 0, e);
            assert(line@ =~= cs@.take(e as int));
            let ws = split_whitespace_chars(line.as_slice());
            let ghost wv = ws@.map_values(|v: Vec<char>| v@);
            if ws.len() >= 2 {
                assert(wv[1] == ws@[1]@);
                Some(string_from_chars(ws[1].as_slice()))
            } else {
                None
            }
        },
    }
}

/// The page shown in the browser once the callback was received.
pub open spec fn callback_page() -> Seq<char> {
    "<!DOCTYPE html><html><body>\n<h2>Authentication successful!</h2>\n<p>You can close this tab and return to ZeptoClaw.</p>\n<script>window.close();</script>\n</body></html>"@
}

/// The HTTP response sent back to the browser after the callback.
pub open spec fn callback_response_spec() -> Seq<char> {
    "HTTP/1.1 200 OK\r\nContent-Type: text/html\r\nContent-Length: "@ + decimal(
        encode_utf8(callback_page()).len(),
    ) + "\r\nConnection: close\r\n\r\n"@ + callback_page()
}

/// The `200 OK` response with the success page (its length is in bytes).
pub fn callback_success_response() -> (r: String)
    ensures
        r@ == callback_response_spec(),
{
    let html = "<!DOCTYPE html><html><body>\n<h2>Authentication successful!</h2>\n<p>You can close this tab and return to ZeptoClaw.</p>\n<script>window.close();</script>\n</body></html>";
    let mut r = to_owned_string("HTTP/1.1 200 OK\r\nContent-Type: text/html\r\nContent-Length: ");
    let n = html.as_bytes().len();
    assert(html@ == callback_page());
    assert(n == encode_utf8(html@).len());
    let d = u64_to_decimal(n as u64);
    assert(d@ == decimal(encode_utf8(callback_page()).len()));
    push_str(&mut r, d.as_str());
    push_str(&mut r, "\r\nConnection: close\r\n\r\n");
    push_str(&mut r, html);
    r
}

/// A token endpoint's answer.
#[derive(Debug, Clone, PartialEq, Eq)]
pub struct TokenResponse {
    pub access_token: String,
    pub refresh_token: Option<String>,
    /// Lifetime in seconds.
    pub expires_in: Option<i64>,
    pub token_type: Option<String>,
    pub scope: Option<String>,
}

/// The expiry of tokens obtained at `now` that live `expires_in` seconds.
pub open spec fn expiry_after(now: i64, expires_in: Option<i64>) -> Option<i64> {
    match expires_in {
        Some(secs) => Some((now + secs) as i64),
        None => None,
    }
}

/// The token set for `provider` made of a token endpoint's answer received
/// at `now` (Unix seconds) by the client `client_id`: the expiry is `now`
/// plus the lifetime, and the token type defaults to `Bearer`.
pub fn token_set_from_response(provider: &str, response: TokenResponse, now: i64, client_id: &str) -> (t:
    OAuthTokenSet)
    requires
        response.expires_in matches Some(secs) ==> i64::MIN <= now + secs <= i64::MAX,
    ensures
        t.provider@ == provider@,
        t.access_token@ == response.access_token@,
        t.refresh_token == response.refresh_token,
        t.expires_at == expiry_after(now, response.expires_in),
        t.token_type@ == (match response.token_type {
            Some(k) => k@,
            None => "Bearer"@,
        }),
        t.scope == response.scope,
        t.obtained_at == now,
        t.client_id matches Some(c) && c@ == client_id@,
{
    let expires_at = match response.expires_in {
        Some(secs) => Some(now + secs),
        None => None,
    };
    let token_type = match response.token_type {
        Some(k) => k,
        None => to_owned_string("Bearer"),
    };
    OAuthTokenSet {
        provider: to_owned_string(provider),
        access_token: response.access_token,
        refresh_token: response.refresh_token,
        expires_at,
        token_type,
        scope: response.scope,
        obtained_at: now,
        client_id: Some(to_owned_string(client_id)),
    }
}

} // verus!
