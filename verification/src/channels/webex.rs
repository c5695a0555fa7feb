//! Webex channel protocol logic: the minimal HTTP request parser of the
//! webhook server, header lookup, HMAC-SHA1 webhook signatures and media types.
use vstd::prelude::*;
use vstd::utf8::{decode_utf8, valid_utf8};

use crate::bus::{get_meta, meta_get, OutboundMessage};
use crate::channels::MediaType;
use crate::digest::{hex_encode, hex_lower, sha1_digest, sha1_spec};
use crate::auth::codex_import::{parse_rfc3339_instant, rfc3339_instant};
use crate::error::ZeptoError;
use crate::text::{
    chars_eq, chars_of, find_char, find_from, first_line, is_unicode_whitespace, split_chars,
    push_str, split_seq, split_whitespace_chars, str_eq, string_from_char_range, string_from_chars,
    string_from_utf8, sub_chars, to_owned_string, trim_bounds, trim_spec, words,
};

verus! {

/// A parsed HTTP request.
#[derive(Debug, Clone, PartialEq, Eq)]
pub struct ParsedHttpRequest {
    pub method: String,
    pub path: String,
    pub headers: Vec<(String, String)>,
    pub body: String,
}

/// The text `str::to_uppercase` makes of `s` (full Unicode case mapping).
pub uninterp spec fn unicode_uppercase(s: Seq<char>) -> Seq<char>;

/// Whether every character of `s` is ASCII.
pub open spec fn all_ascii(s: Seq<char>) -> bool {
    forall|i: int| 0 <= i < s.len() ==> (#[trigger] s[i] as u32) < 128
}

/// An ASCII character in upper case: `a`..`z` become `A`..`Z`, others stay.
pub open spec fn ascii_upper(c: char) -> char {
    if 'a' <= c && c <= 'z' {
        ((c as u32) - 32) as char
    } else {
        c
    }
}

/// The upper-case form of `s`: on ASCII text each of `a`..`z` in upper case;
/// otherwise the full Unicode case mapping.
pub open spec fn upper_text(s: Seq<char>) -> Seq<char> {
    if all_ascii(s) {
        s.map_values(|c: char| ascii_upper(c))
    } else {
        unicode_uppercase(s)
    }
}

/// `str::to_uppercase`: the result is named `unicode_uppercase(s@)`; on ASCII
/// text, as std documents, `a`..`z` become `A`..`Z` and every other
/// character stays as it is.
#[verifier::external_body]
pub(crate) fn to_uppercase(s: &str) -> (r: String)
    ensures
        r@ == unicode_uppercase(s@),
        all_ascii(s@) ==> r@ == s@.map_values(|c: char| ascii_upper(c)),
{
    s.to_uppercase()
}

/// Whether `"\r\n\r\n"` starts at index `i` of `s`.
pub open spec fn blank_at(s: Seq<char>, i: int) -> bool {
    0 <= i && i + 3 < s.len() && s[i] == '\r' && s[i + 1] == '\n' && s[i + 2] == '\r' && s[i + 3] == '\n'
}

/// Index of the first occurrence of `"\r\n\r\n"` in `s`.
pub open spec fn find_blank_line(s: Seq<char>) -> Option<int>
    decreases s.len(),
{
    if s.len() < 4 {
        None
    } else if s[0] == '\r' && s[1] == '\n' && s[2] == '\r' && s[3] == '\n' {
        Some(0)
    } else {
        match find_blank_line(s.drop_first()) {
            Some(i) => Some(i + 1),
            None => None,
        }
    }
}

/// `s` without a final `'\r'`.
pub open spec fn strip_cr(s: Seq<char>) -> Seq<char> {
    if s.len() > 0 && s.last() == '\r' {
        s.drop_last()
    } else {
        s
    }
}

/// The lines of `s` as `str::lines` yields them: split at `\n`, a `\r` before
/// a `\n` removed, no final empty line.
pub open spec fn lines_of(s: Seq<char>) -> Seq<Seq<char>> {
    let p = split_seq(s, '\n');
    let n = p.len();
    if n == 0 {
        Seq::empty()
    } else {
        let init = p.take(n - 1).map_values(|l: Seq<char>| strip_cr(l));
        if p[n - 1].len() > 0 {
            init.push(p[n - 1])
        } else {
            init
        }
    }
}

/// The header pairs of the header lines (lines without `:` are skipped).
pub open spec fn header_pairs(lines: Seq<Seq<char>>) -> Seq<(Seq<char>, Seq<char>)>
    decreases lines.len(),
{
    if lines.len() == 0 {
        Seq::empty()
    } else {
        let rest = header_pairs(lines.drop_last());
        let l = lines.last();
        match find_char(l, ':') {
            Some(i) => rest.push((trim_spec(l.take(i)), trim_spec(l.skip(i + 1)))),
            None => rest,
        }
    }
}

/// What parsing a raw request yields: the error message, or
/// (method, path, headers, body).
pub open spec fn http_request_spec(raw: Seq<u8>) -> Result<
    (Seq<char>, Seq<char>, Seq<(Seq<char>, Seq<char>)>, Seq<char>),
    Seq<char>,
> {
    if !valid_utf8(raw) {
        Err("Invalid UTF-8 in HTTP request"@)
    } else {
        let text = decode_utf8(raw);
        let (header, body) = match find_blank_line(text) {
            Some(p) => (text.take(p), text.skip(p + 4)),
            None => (text, Seq::empty()),
        };
        let lines = lines_of(header);
        if lines.len() == 0 {
            Err("Empty HTTP request"@)
        } else {
            let w = words(lines[0]);
            if w.len() == 0 {
                Err("Missing HTTP method"@)
            } else if w.len() == 1 {
                Err("Missing HTTP path"@)
            } else {
                Ok((upper_text(w[0]), w[1], header_pairs(lines.drop_first()), body))
            }
        }
    }
}

/// The message of a `Channel` error, or `None` for another result.
pub open spec fn channel_error_text<T>(r: Result<T, ZeptoError>) -> Option<Seq<char>> {
    match r {
        Err(ZeptoError::Channel(m)) => Some(m@),
        _ => None,
    }
}

proof fn lemma_find_blank(s: Seq<char>, j: int)
    requires
        0 <= j <= s.len(),
        forall|i: int| 0 <= i < j ==> !#[trigger] blank_at(s, i),
        j + 3 < s.len() ==> blank_at(s, j),
        j + 3 >= s.len() ==> j == s.len(),
    ensures
        find_blank_line(s) == if j + 3 < s.len() { Some(j) } else { None::<int> },
    decreases s.len(),
{
    if s.len() >= 4 && j > 0 {
        let d = s.drop_first();
        assert(!blank_at(s, 0));
        assert forall|i: int| 0 <= i < j - 1 implies !#[trigger] blank_at(d, i) by {
            assert(!blank_at(s, i + 1));
            if i + 3 < d.len() {
                assert(d[i] == s[i + 1] && d[i + 1] == s[i + 2] && d[i + 2] == s[i + 3] && d[i + 3]
                    == s[i + 4]);
            }
        }
        if j + 3 < s.len() {
            assert(d[j - 1] == s[j] && d[j] == s[j + 1] && d[j + 1] == s[j + 2] && d[j + 2] == s[j
                + 3]);
            lemma_find_blank(d, j - 1);
        } else {
            assert forall|i: int| 0 <= i < d.len() implies !#[trigger] blank_at(d, i) by {
                if i + 3 < d.len() {
                    assert(!blank_at(s, i + 1));
                    assert(d[i] == s[i + 1] && d[i + 1] == s[i + 2] && d[i + 2] == s[i + 3] && d[i + 3]
                        == s[i + 4]);
                }
            }
            lemma_find_blank(d, d.len() as int);
        }
    } else if s.len() >= 4 {
        assert(blank_at(s, 0));
    }
}

/// Position of the first `"\r\n\r\n"` in `cs`.
fn find_blank(cs: &[char]) -> (r: Option<usize>)
    ensures
        match r {
            Some(p) => p + 4 <= cs.len() && find_blank_line(cs@) == Some(p as int),
            None => find_blank_line(cs@) is None,
        },
{
    let mut i: usize = 0;
    while cs.len() >= 4 && i < cs.len() - 3
        invariant
            forall|k: int| 0 <= k < i ==> !#[trigger] blank_at(cs@, k),
            i <= cs.len(),
        decreases cs.len() - i,
    {
        if cs[i] == '\r' && cs[i + 1] == '\n' && cs[i + 2] == '\r' && cs[i + 3] == '\n' {
            assert(blank_at(cs@, i as int));
            proof {
                lemma_find_blank(cs@, i as int);
            }
            return Some(i);
        }
        i += 1;
    }
    proof {
        assert forall|k: int| 0 <= k < cs.len() implies !#[trigger] blank_at(cs@, k) by {
            if k >= i {
                assert(!(k + 3 < cs.len()));
            }
        }
        lemma_find_blank(cs@, cs.len() as int);
    }
    None
}

/// The lines of `cs` (see [`lines_of`]).
fn lines_exec(cs: &[char]) -> (r: Vec<Vec<char>>)
    ensures
        r@.map_values(|v: Vec<char>| v@) == lines_of(cs@),
{
    let pieces = split_chars(cs, '\n');
    let ghost p = pieces@.map_values(|v: Vec<char>| v@);
    let n = pieces.len();
    let mut r: Vec<Vec<char>> = Vec::new();
    if n == 0 {
        assert(r@.map_values(|v: Vec<char>| v@) =~= lines_of(cs@));
        return r;
    }
    let mut i: usize = 0;
    while i + 1 < n
        invariant
            n == pieces@.len(),
            n > 0,
            i < n,
            p == pieces@.map_values(|v: Vec<char>| v@),
            r@.len() == i,
            forall|k: int| 0 <= k < i ==> #[trigger] r@[k]@ == strip_cr(p[k]),
        decreases n - i,
    {
        let piece = &pieces[i];
        assert(p[i as int] == piece@);
        let l = piece.len();
        let line = if l > 0 && piece[l - 1] == '\r' {
            sub_chars(piece.as_slice(), 0, l - 1)
        } else {
            sub_chars(piece.as_slice(), 0, l)
        };
        assert(line@ =~= strip_cr(piece@));
        r.push(line);
        i += 1;
    }
    let last = &pieces[n - 1];
    assert(p[n - 1] == last@);
    let ghost init = r@.map_values(|v: Vec<char>| v@);
    assert(init =~= p.take(n - 1).map_values(|l: Seq<char>| strip_cr(l)));
    if last.len() > 0 {
        let copy = sub_chars(last.as_slice(), 0, last.len());
        assert(copy@ =~= last@);
        r.push(copy);
        assert(r@.map_values(|v: Vec<char>| v@) =~= init.push(p[n - 1]));
    }
    r
}

/// The trimmed key and value of a header line, split at its first `:`.
fn header_pair(line: &[char]) -> (r: Option<(String, String)>)
    ensures
        match find_char(line@, ':') {
            Some(i) => r matches Some((k, v)) && k@ == trim_spec(line@.take(i)) && v@ == trim_spec(
                line@.skip(i + 1),
            ),
            None => r is None,
        },
{
    assert(line@.skip(0) =~= line@);
    match find_from(line, ':', 0) {
        None => None,
        Some(c) => {
            let key_chars = sub_chars(line, 0, c);
            let val_chars = sub_chars(line, c + 1, line.len());
            assert(key_chars@ =~= line@.take(c as int));
            assert(val_chars@ =~= line@.skip(c + 1));
            let (a, b) = trim_bounds(key_chars.as_slice());
            let k = string_from_char_range(key_chars.as_slice(), a, b);
            let (a2, b2) = trim_bounds(val_chars.as_slice());
            let v = string_from_char_range(val_chars.as_slice(), a2, b2);
            Some((k, v))
        },
    }
}

/// Parses a raw HTTP request: request line, `name: value` headers, and the
/// body after the first blank line.
pub fn parse_http_request(raw: &[u8]) -> (r: Result<ParsedHttpRequest, ZeptoError>)
    ensures
        match http_request_spec(raw@) {
            Err(m) => channel_error_text(r) == Some(m),
            Ok((m, p, h, b)) => r matches Ok(req) && req.method@ == m && req.path@ == p
                && req.headers@.map_values(|kv: (String, String)| (kv.0@, kv.1@)) == h
                && req.body@ == b,
        },
{
    let mut bytes: Vec<u8> = Vec::new();
    let mut i: usize = 0;
    while i < raw.len()
        invariant
            i <= raw.len(),
            bytes@ == raw@.take(i as int),
        decreases raw.len() - i,
    {
        bytes.push(raw[i]);
        assert(bytes@ =~= raw@.take(i + 1));
        i += 1;
    }
    assert(raw@.take(raw.len() as int) =~= raw@);
    let text = match string_from_utf8(bytes) {
        Some(t) => t,
        None => {
            return Err(ZeptoError::Channel(to_owned_string("Invalid UTF-8 in HTTP request")));
        },
    };
    let cs = chars_of(text.as_str());
    let (header_end, body) = match find_blank(cs.as_slice()) {
        Some(p) => {
            let b = string_from_char_range(cs.as_slice(), p + 4, cs.len());
            assert(b@ =~= cs@.skip(p + 4));
            (p, b)
        },
        None => (cs.len(), String::new()),
    };
    let header = sub_chars(cs.as_slice(), 0, header_end);
    assert(header_end == cs.len() ==> header@ =~= cs@);
    assert(header@ =~= cs@.take(header_end as int));
    let lines = lines_exec(header.as_slice());
    let ghost lv = lines@.map_values(|v: Vec<char>| v@);
    if lines.len() == 0 {
        return Err(ZeptoError::Channel(to_owned_string("Empty HTTP request")));
    }
    assert(lv[0] == lines@[0]@);
    let ws = split_whitespace_chars(lines[0].as_slice());
    let ghost wv = ws@.map_values(|v: Vec<char>| v@);
    if ws.len() == 0 {
        return Err(ZeptoError::Channel(to_owned_string("Missing HTTP method")));
    }
    if ws.len() == 1 {
        return Err(ZeptoError::Channel(to_owned_string("Missing HTTP path")));
    }
    assert(wv[0] == ws@[0]@ && wv[1] == ws@[1]@);
    let m0 = string_from_chars(ws[0].as_slice());
    let method = to_uppercase(m0.as_str());
    let path = string_from_chars(ws[1].as_slice());
    let mut headers: Vec<(String, String)> = Vec::new();
    let mut k: usize = 1;
    while k < lines.len()
        invariant
            1 <= k <= lines@.len(),
            lv == lines@.map_values(|v: Vec<char>| v@),
            headers@.map_values(|kv: (String, String)| (kv.0@, kv.1@)) == header_pairs(
                lv.drop_first().take(k - 1),
            ),
        decreases lines@.len() - k,
    {
        let ghost t = lv.drop_first().take(k as int);
        assert(t.drop_last() =~= lv.drop_first().take(k - 1));
        assert(t.last() == lines@[k as int]@);
        match header_pair(lines[k].as_slice()) {
            Some(kv) => {
                headers.push(kv);
                assert(headers@.map_values(|kv: (String, String)| (kv.0@, kv.1@)) =~= header_pairs(
                    lv.drop_first().take(k - 1),
                ).push((kv.0@, kv.1@)));
            },
            None => {},
        }
        k += 1;
    }
    assert(lv.drop_first().take(lines@.len() - 1) =~= lv.drop_first());
    Ok(ParsedHttpRequest { method, path, headers, body })
}

/// ASCII lower-case of a character (other characters unchanged).
pub open spec fn ascii_lower(c: char) -> char {
    if 'A' <= c <= 'Z' {
        (((c as u8) + 32) as u8) as char
    } else {
        c
    }
}

/// Equality of two texts ignoring ASCII case (`str::eq_ignore_ascii_case`).
pub open spec fn eq_ignore_ascii_case(a: Seq<char>, b: Seq<char>) -> bool {
    a.len() == b.len() && forall|i: int| 0 <= i < a.len() ==> ascii_lower(a[i]) == ascii_lower(b[i])
}

fn ascii_lower_exec(c: char) -> (r: char)
    ensures
        r == ascii_lower(c),
{
    if 'A' <= c && c <= 'Z' {
        ((c as u8) + 32) as char
    } else {
        c
    }
}

/// Compares two texts ignoring ASCII case.
pub fn eq_ignore_case(a: &str, b: &str) -> (r: bool)
    ensures
        r == eq_ignore_ascii_case(a@, b@),
{
    let x = chars_of(a);
    let y = chars_of(b);
    if x.len() != y.len() {
        return false;
    }
    let mut i: usize = 0;
    while i < x.len()
        invariant
            x.len() == y.len(),
            x@ == a@,
            y@ == b@,
            i <= x.len(),
            forall|k: int| 0 <= k < i ==> ascii_lower(x@[k]) == ascii_lower(y@[k]),
        decreases x.len() - i,
    {
        if ascii_lower_exec(x[i]) != ascii_lower_exec(y[i]) {
            assert(ascii_lower(x@[i as int]) != ascii_lower(y@[i as int]));
            assert(!eq_ignore_ascii_case(a@, b@));
            return false;
        }
        i += 1;
    }
    true
}

/// Index of the first header whose name matches `name` ignoring ASCII case.
pub open spec fn header_index(headers: Seq<(Seq<char>, Seq<char>)>, name: Seq<char>) -> Option<int>
    decreases headers.len(),
{
    if headers.len() == 0 {
        None
    } else if eq_ignore_ascii_case(headers[0].0, name) {
        Some(0)
    } else {
        match header_index(headers.drop_first(), name) {
            Some(i) => Some(i + 1),
            None => None,
        }
    }
}

proof fn lemma_header_index(h: Seq<(Seq<char>, Seq<char>)>, name: Seq<char>, j: int)
    requires
        0 <= j <= h.len(),
        forall|i: int| 0 <= i < j ==> !eq_ignore_ascii_case(#[trigger] h[i].0, name),
        j < h.len() ==> eq_ignore_ascii_case(h[j].0, name),
    ensures
        header_index(h, name) == if j < h.len() { Some(j) } else { None::<int> },
    decreases h.len(),
{
    if h.len() > 0 && j > 0 {
        assert(!eq_ignore_ascii_case(h[0].0, name));
        assert forall|i: int| 0 <= i < j - 1 implies !eq_ignore_ascii_case(
            #[trigger] h.drop_first()[i].0,
            name,
        ) by {
            assert(h.drop_first()[i] == h[i + 1]);
        }
        if j < h.len() {
            assert(h.drop_first()[j - 1] == h[j]);
        }
        lemma_header_index(h.drop_first(), name, j - 1);
    }
}

/// A found header lies within the list.
proof fn lemma_header_index_bounds(h: Seq<(Seq<char>, Seq<char>)>, name: Seq<char>)
    ensures
        header_index(h, name) matches Some(i) ==> 0 <= i < h.len(),
    decreases h.len(),
{
    if h.len() > 0 {
        lemma_header_index_bounds(h.drop_first(), name);
    }
}

/// Headers as pairs of texts.
pub open spec fn header_views(headers: Seq<(String, String)>) -> Seq<(Seq<char>, Seq<char>)> {
    headers.map_values(|kv: (String, String)| (kv.0@, kv.1@))
}

/// The value of the first header named `name` (ASCII case-insensitive).
pub fn get_header<'a>(headers: &'a [(String, String)], name: &str) -> (r: Option<&'a str>)
    ensures
        match header_index(header_views(headers@), name@) {
            Some(i) => r matches Some(v) && v@ == headers@[i].1@,
            None => r is None,
        },
{
    let ghost hv = header_views(headers@);
    let mut i: usize = 0;
    while i < headers.len()
        invariant
            i <= headers.len(),
            hv == header_views(headers@),
            forall|k: int| 0 <= k < i ==> !eq_ignore_ascii_case(#[trigger] hv[k].0, name@),
        decreases headers.len() - i,
    {
        if eq_ignore_case(headers[i].0.as_str(), name) {
            proof {
                lemma_header_index(hv, name@, i as int);
            }
            return Some(headers[i].1.as_str());
        }
        i += 1;
    }
    proof {
        lemma_header_index(hv, name@, hv.len() as int);
    }
    None
}

/// Block size of SHA-1 in bytes.
pub const SHA1_BLOCK_SIZE: usize = 64;

/// The HMAC key block: the key (hashed first when longer than a block)
/// padded with zeros to 64 bytes.
pub open spec fn hmac_key_block(key: Seq<u8>) -> Seq<u8> {
    let k = if key.len() > 64 { sha1_spec(key) } else { key };
    k + Seq::new((64 - k.len()) as nat, |i: int| 0u8)
}

/// HMAC-SHA1 (RFC 2104) of `message` under `key`.
pub open spec fn hmac_sha1(key: Seq<u8>, message: Seq<u8>) -> Seq<u8> {
    let k = hmac_key_block(key);
    let ipad = k.map_values(|b: u8| b ^ 0x36u8);
    let opad = k.map_values(|b: u8| b ^ 0x5cu8);
    sha1_spec(opad + sha1_spec(ipad + message))
}

/// Lower-case hex HMAC-SHA1 of `message` under `key`.
pub fn hmac_sha1_hex(key: &[u8], message: &[u8]) -> (s: String)
    ensures
        s@ == hex_lower(hmac_sha1(key@, message@)),
{
    let mut k: Vec<u8> = Vec::new();
    if key.len() > SHA1_BLOCK_SIZE {
        k = sha1_digest(key);
    } else {
        let mut i: usize = 0;
        while i < key.len()
            invariant
                i <= key.len(),
                k@ == key@.take(i as int),
            decreases key.len() - i,
        {
            k.push(key[i]);
            assert(k@ =~= key@.take(i + 1));
            i += 1;
        }
        assert(key@.take(key.len() as int) =~= key@);
    }
    let ghost kk = k@;
    while k.len() < SHA1_BLOCK_SIZE
        invariant
            kk.len() <= k@.len() <= 64,
            k@ == kk + Seq::new((k@.len() - kk.len()) as nat, |i: int| 0u8),
        decreases 64 - k.len(),
    {
        k.push(0u8);
        assert(k@ =~= kk + Seq::new((k@.len() - kk.len()) as nat, |i: int| 0u8));
    }
    assert(k@ =~= hmac_key_block(key@));
    let mut inner: Vec<u8> = Vec::new();
    let mut outer: Vec<u8> = Vec::new();
    let mut i: usize = 0;
    while i < SHA1_BLOCK_SIZE
        invariant
            k@.len() == 64,
            i <= 64,
            inner@ == k@.take(i as int).map_values(|b: u8| b ^ 0x36u8),
            outer@ == k@.take(i as int).map_values(|b: u8| b ^ 0x5cu8),
        decreases 64 - i,
    {
        inner.push(k[i] ^ 0x36u8);
        outer.push(k[i] ^ 0x5cu8);
        assert(inner@ =~= k@.take(i + 1).map_values(|b: u8| b ^ 0x36u8));
        assert(outer@ =~= k@.take(i + 1).map_values(|b: u8| b ^ 0x5cu8));
        i += 1;
    }
    assert(k@.take(64) =~= k@);
    let mut j: usize = 0;
    let ghost ipad = inner@;
    while j < message.len()
        invariant
            j <= message.len(),
            inner@ == ipad + message@.take(j as int),
        decreases message.len() - j,
    {
        inner.push(message[j]);
        assert(inner@ =~= ipad + message@.take(j + 1));
        j += 1;
    }
    assert(message@.take(message.len() as int) =~= message@);
    let inner_hash = sha1_digest(inner.as_slice());
    let ghost opad = outer@;
    let mut j: usize = 0;
    while j < inner_hash.len()
        invariant
            j <= inner_hash.len(),
            outer@ == opad + inner_hash@.take(j as int),
        decreases inner_hash.len() - j,
    {
        outer.push(inner_hash[j]);
        assert(outer@ =~= opad + inner_hash@.take(j + 1));
        j += 1;
    }
    assert(inner_hash@.take(inner_hash.len() as int) =~= inner_hash@);
    let outer_hash = sha1_digest(outer.as_slice());
    hex_encode(outer_hash.as_slice())
}

/// Whether a webhook signature is accepted: always without a secret, else when
/// it equals the hex HMAC-SHA1 of the body under the secret.
pub fn verify_signature(webhook_secret: Option<&str>, signature: &str, body: &str) -> (r: bool)
    ensures
        match webhook_secret {
            None => r,
            Some(sec) => r == (signature@ == hex_lower(
                hmac_sha1(
                    vstd::utf8::encode_utf8(sec@),
                    vstd::utf8::encode_utf8(body@),
                ),
            )),
        },
{
    match webhook_secret {
        None => true,
        Some(secret) => {
            let expected = hmac_sha1_hex(secret.as_bytes(), body.as_bytes());
            str_eq(signature, expected.as_str())
        },
    }
}

/// Whether `s` starts with the ASCII text `p`, ignoring ASCII case.
pub open spec fn has_prefix_ignore_case(s: Seq<char>, p: Seq<char>) -> bool {
    p.len() <= s.len() && eq_ignore_ascii_case(s.take(p.len() as int), p)
}

/// Media type of a `Content-Type`: `image/`, `audio/` and `video/` prefixes
/// (in any letter case) pick their kind; anything else is a document.
pub open spec fn media_type_of(content_type: Seq<char>) -> MediaType {
    if has_prefix_ignore_case(content_type, "image/"@) {
        MediaType::Image
    } else if has_prefix_ignore_case(content_type, "audio/"@) {
        MediaType::Audio
    } else if has_prefix_ignore_case(content_type, "video/"@) {
        MediaType::Video
    } else {
        MediaType::Document
    }
}

fn prefix_ignore_case(cs: &[char], p: &str) -> (r: bool)
    ensures
        r == has_prefix_ignore_case(cs@, p@),
{
    let pc = chars_of(p);
    if pc.len() > cs.len() {
        return false;
    }
    let head = string_from_char_range(cs, 0, pc.len());
    let ps = string_from_chars(pc.as_slice());
    eq_ignore_case(head.as_str(), ps.as_str())
}

/// Classifies a `Content-Type` header value.
///
/// The prefixes `image/`, `audio/` and `video/` are ASCII, and Unicode
/// lower-casing turns no other character into one of their letters, so the
/// comparison is ASCII case-insensitive.
pub fn parse_media_type(content_type: &str) -> (m: MediaType)
    ensures
        m == media_type_of(content_type@),
{
    let cs = chars_of(content_type);
    if prefix_ignore_case(cs.as_slice(), "image/") {
        MediaType::Image
    } else if prefix_ignore_case(cs.as_slice(), "audio/") {
        MediaType::Audio
    } else if prefix_ignore_case(cs.as_slice(), "video/") {
        MediaType::Video
    } else {
        MediaType::Document
    }
}

/// The text of an inbound Webex message: the plain text when present, else the
/// markdown, else empty.
pub open spec fn message_content(text: Option<Seq<char>>, markdown: Option<Seq<char>>) -> Seq<char> {
    match text {
        Some(t) => t,
        None => match markdown {
            Some(m) => m,
            None => Seq::empty(),
        },
    }
}

/// How many ids of handled polled messages are remembered at most.
pub const MAX_PROCESSED_IDS: usize = 1000;

/// How many of the oldest remembered ids are forgotten once more than
/// [`MAX_PROCESSED_IDS`] are held.
pub const PRUNED_PROCESSED_IDS: usize = 500;

/// What remains remembered of `ids`: all of them, or, past the limit, all but
/// the oldest [`PRUNED_PROCESSED_IDS`].
pub open spec fn remembered_ids(ids: Seq<Seq<char>>) -> Seq<Seq<char>> {
    if ids.len() > MAX_PROCESSED_IDS {
        ids.skip(PRUNED_PROCESSED_IDS as int)
    } else {
        ids
    }
}

/// The ids of polled messages already handled, oldest first, so that a
/// message returned by several polls is forwarded once.
pub struct ProcessedMessageIds {
    ids: Vec<String>,
}

impl View for ProcessedMessageIds {
    type V = Seq<Seq<char>>;

    closed spec fn view(&self) -> Seq<Seq<char>> {
        self.ids@.map_values(|s: String| s@)
    }
}

impl ProcessedMessageIds {
    #[verifier::type_invariant]
    closed spec fn wf(&self) -> bool {
        &&& self@.no_duplicates()
        &&& self@.len() <= MAX_PROCESSED_IDS
    }

    /// No id remembered.
    pub fn new() -> (p: Self)
        ensures
            p@ == Seq::<Seq<char>>::empty(),
    {
        let p = ProcessedMessageIds { ids: Vec::new() };
        proof {
            assert(p@ =~= Seq::<Seq<char>>::empty());
        }
        p
    }

    /// The number of remembered ids.
    pub fn len(&self) -> (n: usize)
        ensures
            n == self@.len(),
            n <= MAX_PROCESSED_IDS,
            self@.no_duplicates(),
    {
        proof {
            use_type_invariant(self);
        }
        self.ids.len()
    }

    /// Whether `id` is remembered.
    pub fn contains(&self, id: &str) -> (b: bool)
        ensures
            b == self@.contains(id@),
    {
        let mut i: usize = 0;
        while i < self.ids.len()
            invariant
                i <= self.ids@.len(),
                forall|j: int| 0 <= j < i ==> self@[j] != id@,
            decreases self.ids@.len() - i,
        {
            if str_eq(self.ids[i].as_str(), id) {
                assert(self@[i as int] == id@);
                return true;
            }
            i += 1;
        }
        false
    }

    /// Remembers `id` and says whether it was new. A new id is appended; when
    /// that makes more than [`MAX_PROCESSED_IDS`], the oldest
    /// [`PRUNED_PROCESSED_IDS`] are forgotten. A known id changes nothing.
    pub fn mark(&mut self, id: &str) -> (fresh: bool)
        ensures
            fresh == !old(self)@.contains(id@),
            !fresh ==> final(self)@ == old(self)@,
            fresh ==> final(self)@ == remembered_ids(old(self)@.push(id@)),
            final(self)@.contains(id@),
            final(self)@.len() <= MAX_PROCESSED_IDS,
    {
        proof {
            use_type_invariant(&*self);
        }
        if self.contains(id) {
            return false;
        }
        let ghost before = self@;
        let n = self.ids.len();
        let start: usize = if n + 1 > MAX_PROCESSED_IDS {
            PRUNED_PROCESSED_IDS
        } else {
            0
        };
        let ghost target = remembered_ids(before.push(id@));
        let mut kept: Vec<String> = Vec::new();
        let mut i: usize = start;
        while i < n
            invariant
                n == self.ids@.len(),
                before == self@,
                start <= i <= n,
                kept@.len() == i - start,
                forall|j: int| 0 <= j < kept@.len() ==> kept@[j]@ == before[start + j],
            decreases n - i,
        {
            kept.push(self.ids[i].clone());
            i += 1;
        }
        kept.push(to_owned_string(id));
        let ghost pushed = before.push(id@);
        proof {
            let kv = kept@.map_values(|s: String| s@);
            assert(kv =~= pushed.skip(start as int));
            assert(target =~= pushed.skip(start as int));
            lemma_skip_distinct(pushed, start as int);
        }
        self.ids = kept;
        proof {
            assert(self@[self@.len() - 1] == id@);
        }
        true
    }
}

/// A polled message is forwarded at most once: once its id has been marked,
/// it is among the remembered ids, so marking it again reports it as known.
pub proof fn lemma_marked_id_is_known(ids: Seq<Seq<char>>, id: Seq<char>)
    requires
        ids.len() <= MAX_PROCESSED_IDS,
    ensures
        remembered_ids(ids.push(id)).contains(id),
        remembered_ids(ids.push(id)).len() <= MAX_PROCESSED_IDS,
{
    let p = ids.push(id);
    let r = remembered_ids(p);
    assert(r[r.len() - 1] == id);
}

/// A suffix of a sequence without duplicates has none either.
proof fn lemma_skip_distinct(s: Seq<Seq<char>>, k: int)
    requires
        0 <= k <= s.len(),
        s.no_duplicates(),
    ensures
        s.skip(k).no_duplicates(),
{
    assert forall|a: int, b: int|
        0 <= a < s.skip(k).len() && 0 <= b < s.skip(k).len() && a != b implies s.skip(k)[a]
        != s.skip(k)[b] by {
        assert(s.skip(k)[a] == s[a + k]);
        assert(s.skip(k)[b] == s[b + k]);
    }
}

/// Whether the message created at `created` predates the channel's start:
/// only when both instants are known, compared as (seconds, nanoseconds).
pub open spec fn created_before_spec(created: Option<(i64, u32)>, startup: Option<(i64, u32)>) -> bool {
    match (created, startup) {
        (Some(c), Some(s)) => c.0 < s.0 || (c.0 == s.0 && c.1 < s.1),
        _ => false,
    }
}

/// Whether a polled message, created at the RFC 3339 time `created`, predates
/// the channel's start `startup` (Unix seconds and nanoseconds). A time that
/// does not parse, or an unknown start, never counts as earlier.
pub fn created_before_startup(created: &str, startup: Option<(i64, u32)>) -> (b: bool)
    ensures
        b == created_before_spec(rfc3339_instant(created@), startup),
{
    match startup {
        None => false,
        Some(s) => match parse_rfc3339_instant(created) {
            None => false,
            Some(c) => c.0 < s.0 || (c.0 == s.0 && c.1 < s.1),
        },
    }
}

/// Decides whether a polled message is forwarded to the agent and with which
/// text. Messages of the bot itself and messages created before the channel
/// started are skipped untouched; otherwise the id is remembered, and a message
/// already handled is skipped. A new message is forwarded when its sender is
/// allowed and it carries text or files.
pub fn accept_polled_message(
    processed: &mut ProcessedMessageIds,
    message_id: &str,
    person_id: &str,
    bot_id: Option<&str>,
    created: &str,
    startup: Option<(i64, u32)>,
    person_allowed: bool,
    text: Option<&str>,
    markdown: Option<&str>,
    has_files: bool,
) -> (r: Option<String>)
    ensures
        ({
            let own = bot_id matches Some(b) && person_id@ == b@;
            let historical = created_before_spec(rfc3339_instant(created@), startup);
            let content = message_content(
                match text { Some(t) => Some(t@), None => None },
                match markdown { Some(m) => Some(m@), None => None },
            );
            let fresh = !old(processed)@.contains(message_id@);
            &&& (own || historical) ==> final(processed)@ == old(processed)@
            &&& !own && !historical && fresh ==> final(processed)@ == remembered_ids(
                old(processed)@.push(message_id@),
            )
            &&& !own && !historical && !fresh ==> final(processed)@ == old(processed)@
            &&& (r is Some <==> !own && !historical && fresh && person_allowed && (content.len() > 0
                || has_files))
            &&& r matches Some(c) ==> c@ == content
        }),
{
    if let Some(b) = bot_id {
        if str_eq(person_id, b) {
            return None;
        }
    }
    if created_before_startup(created, startup) {
        return None;
    }
    if !processed.mark(message_id) {
        return None;
    }
    if !person_allowed {
        return None;
    }
    let content = match text {
        Some(t) => to_owned_string(t),
        None => match markdown {
            Some(m) => to_owned_string(m),
            None => String::new(),
        },
    };
    if content.as_str().is_empty() && !has_files {
        return None;
    }
    Some(content)
}

/// A message posted to the Webex messages endpoint.
#[derive(Debug, Clone, PartialEq, Eq)]
pub struct WebexOutboundMessage {
    pub room_id: String,
    pub text: Option<String>,
    pub markdown: Option<String>,
    pub html: Option<String>,
    pub parent_id: Option<String>,
}

/// The part of an e-mail address before its first `@` (all of it without one).
pub open spec fn mention_name(email: Seq<char>) -> Seq<char> {
    match find_char(email, '@') {
        Some(i) => email.take(i),
        None => email,
    }
}

/// The HTML of a reply that mentions the person `person_id` by `name`.
pub open spec fn mention_html(person_id: Seq<char>, name: Seq<char>, content: Seq<char>) -> Seq<char> {
    "<spark-mention data-object-type=\"person\" data-object-id=\""@ + person_id + "\">"@ + name
        + "</spark-mention> "@ + content
}

/// The Webex message for an outbound reply: in a group space whose routing data
/// names the sender's id and e-mail, an HTML reply mentioning the sender;
/// otherwise plain text. It goes to the message's room, threaded under
/// `reply_to`.
pub fn outbound_message(msg: &OutboundMessage) -> (r: WebexOutboundMessage)
    ensures
        r.room_id@ == msg.chat_id@,
        r.markdown is None,
        r.parent_id == msg.reply_to,
        ({
            let group = meta_get(msg.metadata@, "room_type"@) == Some("group"@);
            match (meta_get(msg.metadata@, "sender_id"@), meta_get(msg.metadata@, "sender_email"@)) {
                (Some(pid), Some(email)) if group => (r.html matches Some(h) && h@ == mention_html(
                    pid,
                    mention_name(email),
                    msg.content@,
                )) && r.text is None,
                _ => (r.text matches Some(t) && t@ == msg.content@) && r.html is None,
            }
        }),
{
    proof {
        reveal_strlit("room_type");
        reveal_strlit("group");
        reveal_strlit("sender_id");
        reveal_strlit("sender_email");
    }
    let group = match get_meta(&msg.metadata, "room_type") {
        Some(t) => str_eq(t.as_str(), "group"),
        None => false,
    };
    let sender = get_meta(&msg.metadata, "sender_id");
    let email = get_meta(&msg.metadata, "sender_email");
    let (text, html) = match (sender, email) {
        (Some(pid), Some(mail)) if group => {
            let cs = chars_of(mail.as_str());
            let end = match find_from(cs.as_slice(), '@', 0) {
                Some(j) => j,
                None => cs.len(),
            };
            proof {
                assert(cs@.skip(0) =~= cs@);
            }
            let name = string_from_char_range(cs.as_slice(), 0, end);
            assert(name@ == mention_name(mail@)) by {
                assert(cs@.take(cs@.len() as int) =~= cs@);
                assert(cs@.subrange(0, end as int) =~= cs@.take(end as int));
            }
            let mut h = to_owned_string("<spark-mention data-object-type=\"person\" data-object-id=\"");
            push_str(&mut h, pid.as_str());
            push_str(&mut h, "\">");
            push_str(&mut h, name.as_str());
            push_str(&mut h, "</spark-mention> ");
            push_str(&mut h, msg.content.as_str());
            (None, Some(h))
        },
        _ => (Some(msg.content.clone()), None),
    };
    WebexOutboundMessage {
        room_id: msg.chat_id.clone(),
        text,
        markdown: None,
        html,
        parent_id: match &msg.reply_to {
            Some(p) => Some(p.clone()),
            None => None,
        },
    }
}

/// How the webhook server answers a request.
#[derive(Debug, Clone, Copy, PartialEq, Eq)]
pub enum WebhookReply {
    /// The request is not a `POST`.
    MethodNotAllowed,
    /// The request carries a signature that does not match its body.
    Unauthorized,
    /// The body is not a webhook payload.
    BadRequest,
    /// The payload is accepted and will be processed.
    Accepted,
}

/// The raw HTTP response of a reply.
pub open spec fn reply_text(r: WebhookReply) -> Seq<char> {
    match r {
        WebhookReply::MethodNotAllowed => "HTTP/1.1 405 Method Not Allowed\r\n\r\n"@,
        WebhookReply::Unauthorized => "HTTP/1.1 401 Unauthorized\r\n\r\n"@,
        WebhookReply::BadRequest => "HTTP/1.1 400 Bad Request\r\n\r\n"@,
        WebhookReply::Accepted => "HTTP/1.1 200 OK\r\nContent-Length: 2\r\n\r\nOK"@,
    }
}

/// The raw HTTP response sent for `reply`.
pub fn http_reply(reply: WebhookReply) -> (s: &'static str)
    ensures
        s@ == reply_text(reply),
{
    match reply {
        WebhookReply::MethodNotAllowed => "HTTP/1.1 405 Method Not Allowed\r\n\r\n",
        WebhookReply::Unauthorized => "HTTP/1.1 401 Unauthorized\r\n\r\n",
        WebhookReply::BadRequest => "HTTP/1.1 400 Bad Request\r\n\r\n",
        WebhookReply::Accepted => "HTTP/1.1 200 OK\r\nContent-Length: 2\r\n\r\nOK",
    }
}

/// The signature header of a request, when present.
pub open spec fn signature_header(request: ParsedHttpRequest) -> Option<Seq<char>> {
    let h = header_views(request.headers@);
    match header_index(h, "X-Spark-Signature"@) {
        Some(i) => Some(h[i].1),
        None => None,
    }
}

/// Whether a signature is accepted for a body under the webhook secret.
pub open spec fn signature_ok(secret: Option<Seq<char>>, signature: Seq<char>, body: Seq<char>) -> bool {
    match secret {
        None => true,
        Some(sec) => signature == hex_lower(
            hmac_sha1(vstd::utf8::encode_utf8(sec), vstd::utf8::encode_utf8(body)),
        ),
    }
}

/// The first checks of a webhook request, before its body is read: only `POST`
/// is served, and a request that carries a signature must carry the right one
/// (a request without the header passes). `None` lets the body be read.
pub fn webhook_gate(request: &ParsedHttpRequest, webhook_secret: Option<&str>) -> (r: Option<WebhookReply>)
    ensures
        request.method@ != "POST"@ ==> r == Some(WebhookReply::MethodNotAllowed),
        request.method@ == "POST"@ ==> r == (match signature_header(*request) {
            Some(sig) => if signature_ok(
                match webhook_secret { Some(s) => Some(s@), None => None },
                sig,
                request.body@,
            ) {
                None
            } else {
                Some(WebhookReply::Unauthorized)
            },
            None => None,
        }),
{
    proof {
        reveal_strlit("X-Spark-Signature");
        reveal_strlit("POST");
    }
    if !str_eq(request.method.as_str(), "POST") {
        return Some(WebhookReply::MethodNotAllowed);
    }
    let hs = request.headers.as_slice();
    proof {
        lemma_header_index_bounds(header_views(hs@), "X-Spark-Signature"@);
    }
    match get_header(hs, "X-Spark-Signature") {
        Some(sig) => {
            if verify_signature(webhook_secret, sig, request.body.as_str()) {
                None
            } else {
                Some(WebhookReply::Unauthorized)
            }
        },
        None => None,
    }
}

/// Decides whether a webhook event is forwarded to the agent and with which
/// text. Only `messages`/`created` events that carry data (`sender`: the
/// message id and the sender's person id) are considered, and the bot's own
/// messages are skipped; each other message id is remembered, so that a
/// message delivered again is skipped. A new message is forwarded when its
/// sender is allowed and it carries text or files.
pub fn webhook_message_content(
    processed: &mut ProcessedMessageIds,
    resource: &str,
    event: &str,
    sender: Option<(&str, &str)>,
    bot_id: Option<&str>,
    person_allowed: bool,
    text: Option<&str>,
    markdown: Option<&str>,
    has_files: bool,
) -> (r: Option<String>)
    ensures
        ({
            let considered = resource@ == "messages"@ && event@ == "created"@ && sender is Some && !(
            bot_id matches Some(b) && sender.unwrap().1@ == b@);
            let content = message_content(
                match text { Some(t) => Some(t@), None => None },
                match markdown { Some(m) => Some(m@), None => None },
            );
            let fresh = sender matches Some(s) && !old(processed)@.contains(s.0@);
            &&& !considered ==> final(processed)@ == old(processed)@
            &&& considered && fresh ==> final(processed)@ == remembered_ids(
                old(processed)@.push(sender.unwrap().0@),
            )
            &&& considered && !fresh ==> final(processed)@ == old(processed)@
            &&& (r is Some <==> considered && fresh && person_allowed && (content.len() > 0 || has_files))
            &&& r matches Some(c) ==> c@ == content
        }),
{
    if !str_eq(resource, "messages") || !str_eq(event, "created") {
        return None;
    }
    let (message_id, pid) = match sender {
        None => {
            return None;
        },
        Some(s) => s,
    };
    if let Some(b) = bot_id {
        if str_eq(pid, b) {
            return None;
        }
    }
    if !processed.mark(message_id) {
        return None;
    }
    if !person_allowed {
        return None;
    }
    let content = match text {
        Some(t) => to_owned_string(t),
        None => match markdown {
            Some(m) => to_owned_string(m),
            None => String::new(),
        },
    };
    if content.as_str().is_empty() && !has_files {
        return None;
    }
    Some(content)
}

} // verus!
