//! Character-level string helpers used by the parsers and formatters.
//!
//! Strings are modelled by their views, `Seq<char>`; byte-level code works on
//! the UTF-8 encoding `encode_utf8(s@)` that `str::as_bytes` gives.
use vstd::prelude::*;
use vstd::string::StringExecFns;

verus! {

/// The characters of `s`, in order.
pub fn chars_of(s: &str) -> (v: Vec<char>)
    ensures
        v@ == s@,
{
    let mut v: Vec<char> = Vec::new();
    proof {
        broadcast use vstd::string::group_string_axioms;
    }
    for c in iter: s.chars()
        invariant
            iter.seq() == s@,
            v@ == s@.take(iter.index() as int),
    {
        v.push(c);
    }
    v
}

/// Appends the character `c` to `s` (`String::push`).
#[verifier::external_body]
pub(crate) fn push_char(s: &mut String, c: char)
    ensures
        final(s)@ == old(s)@.push(c),
{
    s.push(c);
}

/// Appends the string slice `t` to `s`.
pub fn push_str(s: &mut String, t: &str)
    ensures
        final(s)@ == old(s)@ + t@,
{
    s.append(t);
}

/// An owned copy of `t`.
pub fn to_owned_string(t: &str) -> (s: String)
    ensures
        s@ == t@,
{
    let mut s = String::new();
    s.append(t);
    s
}

/// The string made of the characters of `cs`.
pub fn string_from_chars(cs: &[char]) -> (s: String)
    ensures
        s@ == cs@,
{
    let mut s = String::new();
    let mut i: usize = 0;
    while i < cs.len()
        invariant
            i <= cs.len(),
            s@ == cs@.take(i as int),
        decreases cs.len() - i,
    {
        push_char(&mut s, cs[i]);
        assert(cs@.take(i as int).push(cs@[i as int]) =~= cs@.take(i + 1));
        i += 1;
    }
    assert(cs@.take(cs.len() as int) =~= cs@);
    s
}

/// The string made of the characters `cs[from..to]`.
pub fn string_from_char_range(cs: &[char], from: usize, to: usize) -> (s: String)
    requires
        from <= to <= cs.len(),
    ensures
        s@ == cs@.subrange(from as int, to as int),
{
    let mut s = String::new();
    let mut i: usize = from;
    while i < to
        invariant
            from <= i <= to <= cs.len(),
            s@ == cs@.subrange(from as int, i as int),
        decreases to - i,
    {
        push_char(&mut s, cs[i]);
        assert(cs@.subrange(from as int, i as int).push(cs@[i as int]) =~= cs@.subrange(
            from as int,
            i + 1,
        ));
        i += 1;
    }
    s
}

/// Equality of two string slices, compared character by character.
pub fn str_eq(a: &str, b: &str) -> (r: bool)
    ensures
        r == (a@ == b@),
{
    let ca = chars_of(a);
    let cb = chars_of(b);
    chars_eq(ca.as_slice(), cb.as_slice())
}

/// Whether `c` has the Unicode `White_Space` property (what
/// `char::is_whitespace` decides): the 25 code points U+0009 to U+000D, U+0020,
/// U+0085, U+00A0, U+1680, U+2000 to U+200A, U+2028, U+2029, U+202F, U+205F and
/// U+3000.
pub open spec fn is_unicode_whitespace(c: char) -> bool {
    let u = c as u32;
    ||| 0x09 <= u <= 0x0D
    ||| u == 0x20
    ||| u == 0x85
    ||| u == 0xA0
    ||| u == 0x1680
    ||| 0x2000 <= u <= 0x200A
    ||| u == 0x2028
    ||| u == 0x2029
    ||| u == 0x202F
    ||| u == 0x205F
    ||| u == 0x3000
}

/// Whether `c` is Unicode white space.
pub(crate) fn char_is_whitespace(c: char) -> (r: bool)
    ensures
        r == is_unicode_whitespace(c),
{
    let u = c as u32;
    (0x09 <= u && u <= 0x0D) || u == 0x20 || u == 0x85 || u == 0xA0 || u == 0x1680 || (0x2000 <= u && u
        <= 0x200A) || u == 0x2028 || u == 0x2029 || u == 0x202F || u == 0x205F || u == 0x3000
}

/// `true` when `p` is a prefix of `s`.
pub open spec fn is_prefix(p: Seq<char>, s: Seq<char>) -> bool {
    p.len() <= s.len() && s.take(p.len() as int) == p
}

/// `true` when `p` is a suffix of `s`.
pub open spec fn is_suffix(p: Seq<char>, s: Seq<char>) -> bool {
    p.len() <= s.len() && s.skip(s.len() - p.len()) == p
}

/// Whether `cs` starts with the characters of `p`.
pub fn starts_with_chars(cs: &[char], p: &[char]) -> (r: bool)
    ensures
        r == is_prefix(p@, cs@),
{
    if p.len() > cs.len() {
        return false;
    }
    let mut i: usize = 0;
    while i < p.len()
        invariant
            p.len() <= cs.len(),
            i <= p.len(),
            forall|j: int| 0 <= j < i ==> cs@[j] == p@[j],
        decreases p.len() - i,
    {
        if cs[i] != p[i] {
            assert(cs@.take(p.len() as int)[i as int] != p@[i as int]);
            return false;
        }
        i += 1;
    }
    assert(cs@.take(p.len() as int) =~= p@);
    true
}

/// Number of leading characters of `s` that satisfy `is_unicode_whitespace`.
pub open spec fn leading_ws(s: Seq<char>) -> nat
    decreases s.len(),
{
    if s.len() > 0 && is_unicode_whitespace(s[0]) {
        1 + leading_ws(s.drop_first())
    } else {
        0
    }
}

/// Number of trailing characters of `s` that satisfy `is_unicode_whitespace`.
pub open spec fn trailing_ws(s: Seq<char>) -> nat
    decreases s.len(),
{
    if s.len() > 0 && is_unicode_whitespace(s.last()) {
        1 + trailing_ws(s.drop_last())
    } else {
        0
    }
}

/// `s` with leading and trailing Unicode whitespace removed (`str::trim`).
pub open spec fn trim_spec(s: Seq<char>) -> Seq<char> {
    let a = s.skip(leading_ws(s) as int);
    a.take(a.len() - trailing_ws(a))
}

proof fn lemma_leading_ws_bound(s: Seq<char>)
    ensures
        leading_ws(s) <= s.len(),
        forall|j: int| 0 <= j < leading_ws(s) ==> is_unicode_whitespace(#[trigger] s[j]),
        leading_ws(s) < s.len() ==> !is_unicode_whitespace(s[leading_ws(s) as int]),
    decreases s.len(),
{
    if s.len() > 0 && is_unicode_whitespace(s[0]) {
        lemma_leading_ws_bound(s.drop_first());
        assert forall|j: int| 0 <= j < leading_ws(s) implies is_unicode_whitespace(#[trigger] s[j]) by {
            if j > 0 {
                assert(s[j] == s.drop_first()[j - 1]);
            }
        }
    }
}

proof fn lemma_trailing_ws_bound(s: Seq<char>)
    ensures
        trailing_ws(s) <= s.len(),
        forall|j: int|
            s.len() - trailing_ws(s) <= j < s.len() ==> is_unicode_whitespace(#[trigger] s[j]),
        trailing_ws(s) < s.len() ==> !is_unicode_whitespace(s[s.len() - trailing_ws(s) - 1]),
    decreases s.len(),
{
    if s.len() > 0 && is_unicode_whitespace(s.last()) {
        lemma_trailing_ws_bound(s.drop_last());
        assert forall|j: int|
            s.len() - trailing_ws(s) <= j < s.len() implies is_unicode_whitespace(
            #[trigger] s[j],
        ) by {
            if j < s.len() - 1 {
                assert(s[j] == s.drop_last()[j]);
            }
        }
        if trailing_ws(s) < s.len() {
            assert(s[s.len() - trailing_ws(s) - 1] == s.drop_last()[s.drop_last().len()
                - trailing_ws(s.drop_last()) - 1]);
        }
    }
}

proof fn lemma_leading_ws_from(s: Seq<char>, i: int)
    requires
        0 <= i <= s.len(),
        forall|j: int| 0 <= j < i ==> is_unicode_whitespace(#[trigger] s[j]),
        i == s.len() || !is_unicode_whitespace(s[i]),
    ensures
        leading_ws(s) == i,
    decreases s.len(),
{
    if i > 0 {
        assert(is_unicode_whitespace(s[0]));
        assert forall|j: int| 0 <= j < i - 1 implies is_unicode_whitespace(
            #[trigger] s.drop_first()[j],
        ) by {
            assert(s.drop_first()[j] == s[j + 1]);
        }
        if i < s.len() {
            assert(s.drop_first()[i - 1] == s[i]);
        }
        lemma_leading_ws_from(s.drop_first(), i - 1);
    }
}

proof fn lemma_trailing_ws_from(s: Seq<char>, k: int)
    requires
        0 <= k <= s.len(),
        forall|j: int| s.len() - k <= j < s.len() ==> is_unicode_whitespace(#[trigger] s[j]),
        k == s.len() || !is_unicode_whitespace(s[s.len() - k - 1]),
    ensures
        trailing_ws(s) == k,
    decreases s.len(),
{
    if k > 0 {
        assert(is_unicode_whitespace(s[s.len() - 1]));
        let d = s.drop_last();
        assert forall|j: int| d.len() - (k - 1) <= j < d.len() implies is_unicode_whitespace(
            #[trigger] d[j],
        ) by {
            assert(d[j] == s[j]);
        }
        if k < s.len() {
            assert(d[d.len() - (k - 1) - 1] == s[s.len() - k - 1]);
        }
        lemma_trailing_ws_from(d, k - 1);
    }
}

/// Bounds `[start, end)` of the trimmed part of `cs` (`str::trim`).
pub fn trim_bounds(cs: &[char]) -> (r: (usize, usize))
    ensures
        r.0 <= r.1 <= cs.len(),
        cs@.subrange(r.0 as int, r.1 as int) == trim_spec(cs@),
{
    let mut start: usize = 0;
    while start < cs.len() && char_is_whitespace(cs[start])
        invariant
            start <= cs.len(),
            forall|j: int| 0 <= j < start ==> is_unicode_whitespace(#[trigger] cs@[j]),
        decreases cs.len() - start,
    {
        start += 1;
    }
    proof {
        lemma_leading_ws_from(cs@, start as int);
    }
    let mut end: usize = cs.len();
    while end > start && char_is_whitespace(cs[end - 1])
        invariant
            start <= end <= cs.len(),
            forall|j: int| end <= j < cs.len() ==> is_unicode_whitespace(#[trigger] cs@[j]),
        decreases end,
    {
        end -= 1;
    }
    proof {
        let a = cs@.skip(start as int);
        let k = cs.len() - end;
        assert forall|j: int| a.len() - k <= j < a.len() implies is_unicode_whitespace(
            #[trigger] a[j],
        ) by {
            assert(a[j] == cs@[j + start]);
        }
        if k < a.len() {
            assert(a[a.len() - k - 1] == cs@[end - 1]);
        }
        lemma_trailing_ws_from(a, k);
        assert(a.take(a.len() - trailing_ws(a)) =~= cs@.subrange(start as int, end as int));
    }
    (start, end)
}

/// `s.trim()` as an owned string.
pub fn trim(s: &str) -> (r: String)
    ensures
        r@ == trim_spec(s@),
{
    let cs = chars_of(s);
    let (a, b) = trim_bounds(cs.as_slice());
    string_from_char_range(cs.as_slice(), a, b)
}

/// Decimal digit character for `d < 10`.
pub open spec fn digit_char(d: nat) -> char {
    if d == 0 { '0' }
    else if d == 1 { '1' }
    else if d == 2 { '2' }
    else if d == 3 { '3' }
    else if d == 4 { '4' }
    else if d == 5 { '5' }
    else if d == 6 { '6' }
    else if d == 7 { '7' }
    else if d == 8 { '8' }
    else { '9' }
}

/// Decimal representation of `n` without leading zeros (`"0"` for zero), as `Display` writes it.
pub open spec fn decimal(n: nat) -> Seq<char>
    decreases n,
{
    if n < 10 {
        seq![digit_char(n)]
    } else {
        decimal(n / 10).push(digit_char(n % 10))
    }
}

fn digit_to_char(d: u64) -> (c: char)
    requires
        d < 10,
    ensures
        c == digit_char(d as nat),
{
    if d == 0 { '0' }
    else if d == 1 { '1' }
    else if d == 2 { '2' }
    else if d == 3 { '3' }
    else if d == 4 { '4' }
    else if d == 5 { '5' }
    else if d == 6 { '6' }
    else if d == 7 { '7' }
    else if d == 8 { '8' }
    else { '9' }
}

/// Decimal text of `n`, as `n.to_string()` gives it.
pub fn u64_to_decimal(n: u64) -> (s: String)
    ensures
        s@ == decimal(n as nat),
    decreases n,
{
    if n < 10 {
        let mut s = String::new();
        push_char(&mut s, digit_to_char(n));
        s
    } else {
        let mut s = u64_to_decimal(n / 10);
        push_char(&mut s, digit_to_char(n % 10));
        s
    }
}


/// The view of an optional string.
pub open spec fn opt_str_view(o: Option<String>) -> Option<Seq<char>> {
    match o {
        Some(s) => Some(s@),
        None => None,
    }
}

/// Index of the first occurrence of `c` in `s`.
pub open spec fn find_char(s: Seq<char>, c: char) -> Option<int>
    decreases s.len(),
{
    if s.len() == 0 {
        None
    } else if s[0] == c {
        Some(0)
    } else {
        match find_char(s.drop_first(), c) {
            Some(i) => Some(i + 1),
            None => None,
        }
    }
}

/// `find_char` gives the first position of `c`.
pub proof fn lemma_find_char(s: Seq<char>, c: char, j: int)
    requires
        0 <= j <= s.len(),
        forall|i: int| 0 <= i < j ==> s[i] != c,
        j < s.len() ==> s[j] == c,
    ensures
        find_char(s, c) == if j < s.len() { Some(j) } else { None::<int> },
    decreases s.len(),
{
    if s.len() > 0 && j > 0 {
        assert forall|i: int| 0 <= i < j - 1 implies s.drop_first()[i] != c by {
            assert(s.drop_first()[i] == s[i + 1]);
        }
        if j < s.len() {
            assert(s.drop_first()[j - 1] == s[j]);
        }
        lemma_find_char(s.drop_first(), c, j - 1);
    }
}

/// First index `j >= from` with `cs[j] == c`.
pub fn find_from(cs: &[char], c: char, from: usize) -> (r: Option<usize>)
    requires
        from <= cs.len(),
    ensures
        match r {
            Some(j) => from <= j < cs.len() && find_char(cs@.skip(from as int), c) == Some(
                j - from,
            ),
            None => find_char(cs@.skip(from as int), c) is None,
        },
{
    let mut j = from;
    while j < cs.len()
        invariant
            from <= j <= cs.len(),
            forall|i: int| from <= i < j ==> cs@[i] != c,
        decreases cs.len() - j,
    {
        if cs[j] == c {
            proof {
                let t = cs@.skip(from as int);
                assert forall|i: int| 0 <= i < j - from implies t[i] != c by {
                    assert(t[i] == cs@[i + from]);
                }
                lemma_find_char(t, c, j - from);
            }
            return Some(j);
        }
        j += 1;
    }
    proof {
        let t = cs@.skip(from as int);
        assert forall|i: int| 0 <= i < t.len() implies t[i] != c by {
            assert(t[i] == cs@[i + from]);
        }
        lemma_find_char(t, c, t.len() as int);
    }
    None
}

/// The pieces of `s` between occurrences of `sep` (`str::split` with a char).
pub open spec fn split_seq(s: Seq<char>, sep: char) -> Seq<Seq<char>>
    decreases s.len(),
{
    match find_char(s, sep) {
        None => seq![s],
        Some(i) => if 0 <= i < s.len() {
            seq![s.take(i)] + split_seq(s.skip(i + 1), sep)
        } else {
            seq![s]
        },
    }
}

/// `find_char` returns an in-bounds position of `c`.
pub proof fn lemma_find_char_bounds(s: Seq<char>, c: char)
    ensures
        match find_char(s, c) {
            Some(i) => 0 <= i < s.len() && s[i] == c && forall|k: int| 0 <= k < i ==> s[k] != c,
            None => forall|k: int| 0 <= k < s.len() ==> s[k] != c,
        },
    decreases s.len(),
{
    if s.len() > 0 && s[0] != c {
        lemma_find_char_bounds(s.drop_first(), c);
        match find_char(s.drop_first(), c) {
            Some(i) => {
                assert(s[i + 1] == s.drop_first()[i]);
                assert forall|k: int| 0 <= k < i + 1 implies s[k] != c by {
                    if k > 0 {
                        assert(s[k] == s.drop_first()[k - 1]);
                    }
                }
            },
            None => {
                assert forall|k: int| 0 <= k < s.len() implies s[k] != c by {
                    if k > 0 {
                        assert(s[k] == s.drop_first()[k - 1]);
                    }
                }
            },
        }
    }
}

/// The characters `cs[from..to]` as a vector.
pub fn sub_chars(cs: &[char], from: usize, to: usize) -> (r: Vec<char>)
    requires
        from <= to <= cs.len(),
    ensures
        r@ == cs@.subrange(from as int, to as int),
{
    let mut r: Vec<char> = Vec::new();
    let mut i = from;
    while i < to
        invariant
            from <= i <= to <= cs.len(),
            r@ == cs@.subrange(from as int, i as int),
        decreases to - i,
    {
        r.push(cs[i]);
        assert(r@ =~= cs@.subrange(from as int, i + 1));
        i += 1;
    }
    r
}

fn split_from(cs: &[char], sep: char, from: usize) -> (r: Vec<Vec<char>>)
    requires
        from <= cs.len(),
    ensures
        r@.map_values(|v: Vec<char>| v@) == split_seq(cs@.skip(from as int), sep),
    decreases cs.len() - from,
{
    let ghost t = cs@.skip(from as int);
    match find_from(cs, sep, from) {
        None => {
            let piece = sub_chars(cs, from, cs.len());
            let mut r: Vec<Vec<char>> = Vec::new();
            r.push(piece);
            assert(r@.map_values(|v: Vec<char>| v@) =~= seq![t]);
            r
        },
        Some(j) => {
            proof {
                lemma_find_char_bounds(t, sep);
            }
            let piece = sub_chars(cs, from, j);
            assert(piece@ =~= t.take(j - from));
            let mut r = split_from(cs, sep, j + 1);
            assert(cs@.skip(j + 1) =~= t.skip(j - from + 1));
            r.insert(0, piece);
            assert(r@.map_values(|v: Vec<char>| v@) =~= seq![t.take(j - from)] + split_seq(
                t.skip(j - from + 1),
                sep,
            ));
            r
        },
    }
}

/// The pieces of `cs` between occurrences of `sep`.
pub fn split_chars(cs: &[char], sep: char) -> (r: Vec<Vec<char>>)
    ensures
        r@.map_values(|v: Vec<char>| v@) == split_seq(cs@, sep),
{
    assert(cs@.skip(0) =~= cs@);
    split_from(cs, sep, 0)
}

/// Equality of two character slices.
pub fn chars_eq(a: &[char], b: &[char]) -> (r: bool)
    ensures
        r == (a@ == b@),
{
    if a.len() != b.len() {
        return false;
    }
    let mut i: usize = 0;
    while i < a.len()
        invariant
            a.len() == b.len(),
            i <= a.len(),
            forall|k: int| 0 <= k < i ==> a@[k] == b@[k],
        decreases a.len() - i,
    {
        if a[i] != b[i] {
            return false;
        }
        i += 1;
    }
    assert(a@ =~= b@);
    true
}


/// The text that `String::from_utf8_lossy` makes of `bytes`: valid UTF-8 is
/// decoded, invalid sequences become U+FFFD.
pub uninterp spec fn utf8_lossy(bytes: Seq<u8>) -> Seq<char>;

/// `String::from_utf8`: `Some` exactly when `bytes` is valid UTF-8, holding the decoded text.
#[verifier::external_body]
pub(crate) fn string_from_utf8(bytes: Vec<u8>) -> (r: Option<String>)
    ensures
        r is Some <==> vstd::utf8::valid_utf8(bytes@),
        r matches Some(s) ==> s@ == vstd::utf8::decode_utf8(bytes@),
{
    String::from_utf8(bytes).ok()
}

/// `String::from_utf8_lossy`: the result is named `utf8_lossy(bytes@)`; on valid
/// UTF-8 it is the decoded text.
#[verifier::external_body]
pub(crate) fn string_from_utf8_lossy(bytes: &[u8]) -> (s: String)
    ensures
        s@ == utf8_lossy(bytes@),
        vstd::utf8::valid_utf8(bytes@) ==> s@ == vstd::utf8::decode_utf8(bytes@),
{
    String::from_utf8_lossy(bytes).into_owned()
}

/// Joins `list` with `sep` between consecutive elements.
pub open spec fn join_seq(list: Seq<Seq<char>>, sep: Seq<char>) -> Seq<char>
    decreases list.len(),
{
    if list.len() == 0 {
        Seq::empty()
    } else if list.len() == 1 {
        list[0]
    } else {
        join_seq(list.drop_last(), sep) + sep + list.last()
    }
}

/// `list.join(sep)`.
pub fn join_strings(list: &Vec<String>, sep: &str) -> (r: String)
    ensures
        r@ == join_seq(list@.map_values(|s: String| s@), sep@),
{
    let ghost views = list@.map_values(|s: String| s@);
    let mut r = String::new();
    let mut i: usize = 0;
    while i < list.len()
        invariant
            i <= list.len(),
            views == list@.map_values(|s: String| s@),
            r@ == join_seq(views.take(i as int), sep@),
        decreases list.len() - i,
    {
        assert(views.take(i + 1).drop_last() =~= views.take(i as int));
        if i != 0 {
            push_str(&mut r, sep);
        }
        push_str(&mut r, list[i].as_str());
        assert(views.take(i + 1).last() == list@[i as int]@);
        if i == 0 {
            assert(r@ =~= join_seq(views.take(1), sep@));
        }
        i += 1;
    }
    assert(views.take(list.len() as int) =~= views);
    r
}


/// Number of leading characters of `s` that are not Unicode whitespace.
pub open spec fn leading_non_ws(s: Seq<char>) -> nat
    decreases s.len(),
{
    if s.len() > 0 && !is_unicode_whitespace(s[0]) {
        1 + leading_non_ws(s.drop_first())
    } else {
        0
    }
}

/// The whitespace-separated words of `s` (`str::split_whitespace`).
pub open spec fn words(s: Seq<char>) -> Seq<Seq<char>>
    decreases s.len(),
{
    let t = s.skip(leading_ws(s) as int);
    if leading_ws(s) > s.len() || t.len() == 0 {
        Seq::empty()
    } else {
        let n = leading_non_ws(t);
        if n == 0 || n > t.len() {
            Seq::empty()
        } else {
            seq![t.take(n as int)] + words(t.skip(n as int))
        }
    }
}

proof fn lemma_leading_non_ws_from(s: Seq<char>, i: int)
    requires
        0 <= i <= s.len(),
        forall|j: int| 0 <= j < i ==> !is_unicode_whitespace(#[trigger] s[j]),
        i == s.len() || is_unicode_whitespace(s[i]),
    ensures
        leading_non_ws(s) == i,
    decreases s.len(),
{
    if i > 0 {
        assert forall|j: int| 0 <= j < i - 1 implies !is_unicode_whitespace(
            #[trigger] s.drop_first()[j],
        ) by {
            assert(s.drop_first()[j] == s[j + 1]);
        }
        if i < s.len() {
            assert(s.drop_first()[i - 1] == s[i]);
        }
        lemma_leading_non_ws_from(s.drop_first(), i - 1);
    }
}

fn words_from(cs: &[char], from: usize) -> (r: Vec<Vec<char>>)
    requires
        from <= cs.len(),
    ensures
        r@.map_values(|v: Vec<char>| v@) == words(cs@.skip(from as int)),
    decreases cs.len() - from,
{
    let ghost s = cs@.skip(from as int);
    let mut a = from;
    while a < cs.len() && char_is_whitespace(cs[a])
        invariant
            from <= a <= cs.len(),
            forall|j: int| from <= j < a ==> is_unicode_whitespace(#[trigger] cs@[j]),
        decreases cs.len() - a,
    {
        a += 1;
    }
    proof {
        assert forall|j: int| 0 <= j < a - from implies is_unicode_whitespace(#[trigger] s[j]) by {
            assert(s[j] == cs@[j + from]);
        }
        if a < cs.len() {
            assert(s[a - from] == cs@[a as int]);
        }
        lemma_leading_ws_from(s, a - from);
        assert(s.skip(a - from) =~= cs@.skip(a as int));
    }
    if a == cs.len() {
        let r: Vec<Vec<char>> = Vec::new();
        assert(r@.map_values(|v: Vec<char>| v@) =~= Seq::<Seq<char>>::empty());
        return r;
    }
    let mut b = a;
    while b < cs.len() && !char_is_whitespace(cs[b])
        invariant
            a <= b <= cs.len(),
            forall|j: int| a <= j < b ==> !is_unicode_whitespace(#[trigger] cs@[j]),
        decreases cs.len() - b,
    {
        b += 1;
    }
    let ghost t = cs@.skip(a as int);
    proof {
        assert forall|j: int| 0 <= j < b - a implies !is_unicode_whitespace(#[trigger] t[j]) by {
            assert(t[j] == cs@[j + a]);
        }
        if b < cs.len() {
            assert(t[b - a] == cs@[b as int]);
        }
        lemma_leading_non_ws_from(t, b - a);
        assert(t.skip(b - a) =~= cs@.skip(b as int));
        assert(t.take(b - a) =~= cs@.subrange(a as int, b as int));
    }
    let word = sub_chars(cs, a, b);
    let mut r = words_from(cs, b);
    r.insert(0, word);
    assert(r@.map_values(|v: Vec<char>| v@) =~= seq![t.take(b - a)] + words(t.skip(b - a)));
    r
}

/// The whitespace-separated words of `cs`.
pub fn split_whitespace_chars(cs: &[char]) -> (r: Vec<Vec<char>>)
    ensures
        r@.map_values(|v: Vec<char>| v@) == words(cs@),
{
    assert(cs@.skip(0) =~= cs@);
    words_from(cs, 0)
}

/// The first line of `s` as `str::lines` yields it (`None` for empty text):
/// up to the first `\n`, without a `\r` right before it.
pub open spec fn first_line(s: Seq<char>) -> Option<Seq<char>> {
    if s.len() == 0 {
        None
    } else {
        match find_char(s, '\n') {
            None => Some(s),
            Some(i) => {
                let l = s.take(i);
                if l.len() > 0 && l.last() == '\r' {
                    Some(l.drop_last())
                } else {
                    Some(l)
                }
            },
        }
    }
}

/// End of the first line of `cs` (see [`first_line`]).
pub fn first_line_bounds(cs: &[char]) -> (r: Option<usize>)
    ensures
        match r {
            Some(e) => e <= cs.len() && first_line(cs@) == Some(cs@.take(e as int)),
            None => first_line(cs@) is None,
        },
{
    if cs.len() == 0 {
        return None;
    }
    assert(cs@.skip(0) =~= cs@);
    proof {
        lemma_find_char_bounds(cs@, '\n');
    }
    match find_from(cs, '\n', 0) {
        None => Some(cs.len()),
        Some(i) => {
            if i > 0 && cs[i - 1] == '\r' {
                assert(cs@.take(i as int).drop_last() =~= cs@.take(i - 1));
                Some(i - 1)
            } else {
                Some(i)
            }
        },
    }
}

/// Lexicographic order of texts by code point (the order of `str::cmp`).
pub open spec fn seq_lt(a: Seq<char>, b: Seq<char>) -> bool
    decreases a.len(),
{
    if a.len() == 0 {
        b.len() > 0
    } else if b.len() == 0 {
        false
    } else if a[0] != b[0] {
        a[0] < b[0]
    } else {
        seq_lt(a.drop_first(), b.drop_first())
    }
}

/// No text is below itself.
pub proof fn lemma_seq_lt_irreflexive(a: Seq<char>)
    ensures
        !seq_lt(a, a),
    decreases a.len(),
{
    if a.len() > 0 {
        lemma_seq_lt_irreflexive(a.drop_first());
    }
}

/// Two different texts are ordered one way or the other.
pub proof fn lemma_seq_lt_total(a: Seq<char>, b: Seq<char>)
    requires
        a != b,
    ensures
        seq_lt(a, b) || seq_lt(b, a),
    decreases a.len(),
{
    if a.len() > 0 && b.len() > 0 && a[0] == b[0] {
        if a.drop_first() == b.drop_first() {
            assert(a =~= seq![a[0]] + a.drop_first());
            assert(b =~= seq![b[0]] + b.drop_first());
        }
        lemma_seq_lt_total(a.drop_first(), b.drop_first());
    } else if a.len() == 0 && b.len() == 0 {
        assert(a =~= b);
    }
}

/// The order is transitive.
pub proof fn lemma_seq_lt_transitive(a: Seq<char>, b: Seq<char>, c: Seq<char>)
    requires
        seq_lt(a, b),
        seq_lt(b, c),
    ensures
        seq_lt(a, c),
    decreases a.len(),
{
    if a.len() > 0 && b.len() > 0 && c.len() > 0 && a[0] == b[0] && b[0] == c[0] {
        lemma_seq_lt_transitive(a.drop_first(), b.drop_first(), c.drop_first());
    }
}

/// The order is asymmetric.
pub proof fn lemma_seq_lt_asymmetric(a: Seq<char>, b: Seq<char>)
    requires
        seq_lt(a, b),
    ensures
        !seq_lt(b, a),
    decreases a.len(),
{
    if a.len() > 0 && b.len() > 0 && a[0] == b[0] {
        lemma_seq_lt_asymmetric(a.drop_first(), b.drop_first());
    }
}

proof fn lemma_seq_lt_skip(a: Seq<char>, b: Seq<char>, i: int)
    requires
        0 <= i <= a.len(),
        i <= b.len(),
        a.take(i) == b.take(i),
    ensures
        seq_lt(a, b) == seq_lt(a.skip(i), b.skip(i)),
    decreases i,
{
    if i > 0 {
        assert(a[0] == a.take(i)[0]);
        assert(b[0] == b.take(i)[0]);
        assert(a.drop_first().take(i - 1) =~= a.take(i).drop_first());
        assert(b.drop_first().take(i - 1) =~= b.take(i).drop_first());
        lemma_seq_lt_skip(a.drop_first(), b.drop_first(), i - 1);
        assert(a.drop_first().skip(i - 1) =~= a.skip(i));
        assert(b.drop_first().skip(i - 1) =~= b.skip(i));
    } else {
        assert(a.skip(0) =~= a);
        assert(b.skip(0) =~= b);
    }
}

/// Whether `a` sorts before `b` (`str` order).
pub fn str_lt(a: &str, b: &str) -> (r: bool)
    ensures
        r == seq_lt(a@, b@),
{
    let ca = chars_of(a);
    let cb = chars_of(b);
    let mut i: usize = 0;
    while i < ca.len() && i < cb.len()
        invariant
            ca@ == a@,
            cb@ == b@,
            i <= ca@.len(),
            i <= cb@.len(),
            ca@.take(i as int) == cb@.take(i as int),
        decreases ca@.len() - i,
    {
        if ca[i] != cb[i] {
            proof {
                lemma_seq_lt_skip(ca@, cb@, i as int);
                assert(ca@.skip(i as int)[0] == ca@[i as int]);
                assert(cb@.skip(i as int)[0] == cb@[i as int]);
            }
            return ca[i] < cb[i];
        }
        assert(ca@.take(i + 1) =~= ca@.take(i as int).push(ca@[i as int]));
        assert(cb@.take(i + 1) =~= cb@.take(i as int).push(cb@[i as int]));
        i += 1;
    }
    proof {
        lemma_seq_lt_skip(ca@, cb@, i as int);
    }
    i == ca.len() && i < cb.len()
}

/// `home` joined with `rest` as `Path::join` does on Unix: an absolute `rest`
/// replaces `home`; otherwise one `/` separates them unless `home` is empty or
/// already ends with `/`.
pub open spec fn path_join(home: Seq<char>, rest: Seq<char>) -> Seq<char> {
    if rest.len() > 0 && rest[0] == '/' {
        rest
    } else if home.len() == 0 || home.last() == '/' {
        home + rest
    } else {
        home + seq!['/'] + rest
    }
}

} // verus!
