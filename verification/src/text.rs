//! Byte-level text helpers shared by the request logic: header values,
//! ASCII whitespace trimming, splitting at a separator, and turning validated
//! bytes into strings.
use vstd::prelude::*;
use vstd::slice::{slice_subrange, slice_to_vec};
use vstd::utf8::*;
use vstd::string::StrSliceExecFns;

verus! {

broadcast use vstd::utf8::group_utf8_lib;

#[verifier::external_type_specification]
#[verifier::external_body]
pub struct ExFromUtf8Error(std::string::FromUtf8Error);

/// Wraps `String::from_utf8`. Claimed: the call succeeds exactly when the
/// bytes are well-formed UTF-8, and the string then holds the characters that
/// those bytes encode.
#[verifier::external_body]
pub(crate) fn string_from_utf8(bytes: Vec<u8>) -> (res: Result<String, std::string::FromUtf8Error>)
    ensures
        res is Ok <==> valid_utf8(bytes@),
        res matches Ok(s) ==> s@ == decode_utf8(bytes@),
{
    String::from_utf8(bytes)
}

// ---------------------------------------------------------------------------
// Specifications
// ---------------------------------------------------------------------------
/// A byte that an HTTP header value may hold when read as text: visible
/// ASCII or a horizontal tab.
pub open spec fn is_visible_ascii(b: u8) -> bool {
    (32 <= b && b < 127) || b == 9
}

pub open spec fn all_visible(s: Seq<u8>) -> bool {
    forall|i: int| 0 <= i < s.len() ==> is_visible_ascii(#[trigger] s[i])
}

/// The text of a header value, where a value that is not visible ASCII is
/// read as the empty text.
pub open spec fn header_text(raw: Seq<u8>) -> Seq<u8> {
    if all_visible(raw) {
        raw
    } else {
        Seq::empty()
    }
}

pub open spec fn is_ascii_bytes(b: Seq<u8>) -> bool {
    forall|i: int| 0 <= i < b.len() ==> #[trigger] b[i] < 128
}

/// The characters of ASCII bytes, one for one.
pub open spec fn ascii_chars(b: Seq<u8>) -> Seq<char> {
    Seq::new(b.len(), |i: int| b[i] as char)
}

/// The whitespace characters of the ASCII range.
pub open spec fn is_ascii_whitespace(b: u8) -> bool {
    b == 32 || (9 <= b && b <= 13)
}

pub open spec fn trim_start(s: Seq<u8>) -> Seq<u8>
    decreases s.len(),
{
    if s.len() > 0 && is_ascii_whitespace(s[0]) {
        trim_start(s.drop_first())
    } else {
        s
    }
}

pub open spec fn trim_end(s: Seq<u8>) -> Seq<u8>
    decreases s.len(),
{
    if s.len() > 0 && is_ascii_whitespace(s.last()) {
        trim_end(s.drop_last())
    } else {
        s
    }
}

/// The text without its leading and trailing whitespace.
pub open spec fn trim(s: Seq<u8>) -> Seq<u8> {
    trim_end(trim_start(s))
}

/// The part of `s` before the first `sep`, or all of `s` when it holds no `sep`.
pub open spec fn text_before(s: Seq<u8>, sep: u8) -> Seq<u8>
    decreases s.len(),
{
    if s.len() == 0 || s[0] == sep {
        Seq::empty()
    } else {
        seq![s[0]] + text_before(s.drop_first(), sep)
    }
}

/// `s` without the run of `c` at its end.
pub open spec fn without_trailing<A>(s: Seq<A>, c: A) -> Seq<A>
    decreases s.len(),
{
    if s.len() > 0 && s.last() == c {
        without_trailing(s.drop_last(), c)
    } else {
        s
    }
}

/// The optional text of an optional string slice.
pub open spec fn opt_str(o: Option<&str>) -> Option<Seq<char>> {
    match o {
        Some(s) => Some(s@),
        None => None,
    }
}

pub open spec fn has_prefix(s: Seq<u8>, p: Seq<u8>) -> bool {
    p.len() <= s.len() && s.subrange(0, p.len() as int) == p
}

// ---------------------------------------------------------------------------
// Lemmas
// ---------------------------------------------------------------------------
pub proof fn lemma_ascii_decode(b: Seq<u8>)
    requires
        is_ascii_bytes(b),
    ensures
        valid_utf8(b),
        decode_utf8(b) == ascii_chars(b),
    decreases b.len(),
{
    if b.len() > 0 {
        let x: u8 = b[0];
        assert(x & 0x7f == x) by (bit_vector)
            requires
                x < 128,
        ;
        let rest = b.subrange(1, b.len() as int);
        assert(pop_first_scalar(b) == rest);
        assert(is_ascii_bytes(rest)) by {
            assert forall|i: int| 0 <= i < rest.len() implies #[trigger] rest[i] < 128 by {
                assert(rest[i] == b[i + 1]);
            }
        }
        lemma_ascii_decode(rest);
        assert(decode_utf8(b) =~= ascii_chars(b));
    } else {
        assert(decode_utf8(b) =~= ascii_chars(b));
    }
}

proof fn lemma_text_before(s: Seq<u8>, sep: u8, k: int)
    requires
        0 <= k <= s.len(),
        forall|j: int| 0 <= j < k ==> #[trigger] s[j] != sep,
        k == s.len() || s[k] == sep,
    ensures
        text_before(s, sep) == s.subrange(0, k),
    decreases k,
{
    if k == 0 {
        assert(s.subrange(0, 0) =~= Seq::<u8>::empty());
    } else {
        let t = s.drop_first();
        assert forall|j: int| 0 <= j < k - 1 implies #[trigger] t[j] != sep by {
            assert(t[j] == s[j + 1]);
        }
        lemma_text_before(t, sep, k - 1);
        assert(s.subrange(0, k) =~= seq![s[0]] + t.subrange(0, k - 1));
    }
}

proof fn lemma_trim_start(s: Seq<u8>, k: int)
    requires
        0 <= k <= s.len(),
        forall|j: int| 0 <= j < k ==> is_ascii_whitespace(#[trigger] s[j]),
        k == s.len() || !is_ascii_whitespace(s[k]),
    ensures
        trim_start(s) == s.subrange(k, s.len() as int),
    decreases k,
{
    if k == 0 {
        assert(s.subrange(0, s.len() as int) =~= s);
    } else {
        let t = s.drop_first();
        assert forall|j: int| 0 <= j < k - 1 implies is_ascii_whitespace(#[trigger] t[j]) by {
            assert(t[j] == s[j + 1]);
        }
        assert(is_ascii_whitespace(s[0]));
        lemma_trim_start(t, k - 1);
        assert(t.subrange(k - 1, t.len() as int) =~= s.subrange(k, s.len() as int));
    }
}

proof fn lemma_trim_end(s: Seq<u8>, k: int)
    requires
        0 <= k <= s.len(),
        forall|j: int| k <= j < s.len() ==> is_ascii_whitespace(#[trigger] s[j]),
        k == 0 || !is_ascii_whitespace(s[k - 1]),
    ensures
        trim_end(s) == s.subrange(0, k),
    decreases s.len() - k,
{
    if k == s.len() {
        assert(s.subrange(0, k) =~= s);
    } else {
        let t = s.drop_last();
        assert forall|j: int| k <= j < t.len() implies is_ascii_whitespace(#[trigger] t[j]) by {
            assert(t[j] == s[j]);
        }
        assert(is_ascii_whitespace(s[s.len() - 1]));
        lemma_trim_end(t, k);
        assert(t.subrange(0, k) =~= s.subrange(0, k));
    }
}

proof fn lemma_without_trailing<A>(s: Seq<A>, c: A, k: int)
    requires
        0 <= k <= s.len(),
        forall|j: int| k <= j < s.len() ==> #[trigger] s[j] == c,
        k == 0 || s[k - 1] != c,
    ensures
        without_trailing(s, c) == s.subrange(0, k),
    decreases s.len() - k,
{
    if k == s.len() {
        assert(s.subrange(0, k) =~= s);
    } else {
        let t = s.drop_last();
        assert forall|j: int| k <= j < t.len() implies #[trigger] t[j] == c by {
            assert(t[j] == s[j]);
        }
        lemma_without_trailing(t, c, k);
        assert(t.subrange(0, k) =~= s.subrange(0, k));
    }
}

/// Trimming removes exactly the ASCII whitespace bytes (tab, line feed,
/// vertical tab, form feed, carriage return: 9..13, and space: 32) at the
/// two ends: when `s[k1..k2]` is `s` without such bytes at its ends, and the
/// bytes at `k1` and `k2 - 1` are none of them, the trimmed text is
/// `s[k1..k2]`. In particular a text whose first and last bytes are not
/// whitespace trims to itself.
pub proof fn lemma_trim_removes_only_whitespace(s: Seq<u8>, k1: int, k2: int)
    requires
        0 <= k1 <= k2 <= s.len(),
        forall|j: int| 0 <= j < k1 ==> (#[trigger] s[j] == 32u8 || (9u8 <= s[j] && s[j] <= 13u8)),
        forall|j: int| k2 <= j < s.len() ==> (#[trigger] s[j] == 32u8 || (9u8 <= s[j] && s[j] <= 13u8)),
        k1 < k2 ==> !(s[k1] == 32u8 || (9u8 <= s[k1] && s[k1] <= 13u8)),
        k1 < k2 ==> !(s[k2 - 1] == 32u8 || (9u8 <= s[k2 - 1] && s[k2 - 1] <= 13u8)),
    ensures
        trim(s) == s.subrange(k1, k2),
{
    if k1 < k2 {
        lemma_trim_start(s, k1);
        let t = s.subrange(k1, s.len() as int);
        assert forall|j: int| k2 - k1 <= j < t.len() implies is_ascii_whitespace(#[trigger] t[j]) by {
            assert(t[j] == s[j + k1]);
        }
        assert(t[k2 - k1 - 1] == s[k2 - 1]);
        lemma_trim_end(t, k2 - k1);
        assert(t.subrange(0, k2 - k1) =~= s.subrange(k1, k2));
    } else {
        lemma_trim_start(s, s.len() as int);
        let t = s.subrange(s.len() as int, s.len() as int);
        assert(t =~= Seq::<u8>::empty());
        assert(trim_end(t) == t);
        assert(s.subrange(k1, k2) =~= Seq::<u8>::empty());
    }
}

/// The part before the first `sep` is the bytes up to the first `sep`, or
/// all of the text when there is none.
pub proof fn lemma_text_before_first(s: Seq<u8>, sep: u8, k: int)
    requires
        0 <= k <= s.len(),
        forall|j: int| 0 <= j < k ==> #[trigger] s[j] != sep,
        k == s.len() || s[k] == sep,
    ensures
        text_before(s, sep) == s.subrange(0, k),
{
    lemma_text_before(s, sep, k);
}

/// A header value of printable ASCII (32..126) or tabs reads as itself.
pub proof fn lemma_printable_header_text(raw: Seq<u8>)
    requires
        forall|i: int| 0 <= i < raw.len() ==> ((32u8 <= #[trigger] raw[i] && raw[i] <= 126u8) || raw[i] == 9u8),
    ensures
        header_text(raw) == raw,
        all_visible(raw),
{
}

// ---------------------------------------------------------------------------
// Executable helpers
// ---------------------------------------------------------------------------
/// Whether a header value can be read as text.
pub fn is_header_text(raw: &[u8]) -> (b: bool)
    ensures
        b == all_visible(raw@),
{
    let mut i: usize = 0;
    while i < raw.len()
        invariant
            0 <= i <= raw@.len(),
            forall|j: int| 0 <= j < i ==> is_visible_ascii(#[trigger] raw@[j]),
        decreases raw@.len() - i,
    {
        let b: u8 = raw[i];
        if !((32 <= b && b < 127) || b == 9) {
            return false;
        }
        i = i + 1;
    }
    true
}

/// Whether `s` begins with `p`.
pub fn starts_with(s: &[u8], p: &[u8]) -> (b: bool)
    ensures
        b == has_prefix(s@, p@),
{
    if p.len() > s.len() {
        return false;
    }
    let mut i: usize = 0;
    while i < p.len()
        invariant
            p@.len() <= s@.len(),
            0 <= i <= p@.len(),
            forall|j: int| 0 <= j < i ==> #[trigger] s@[j] == p@[j],
        decreases p@.len() - i,
    {
        if s[i] != p[i] {
            assert(s@.subrange(0, p@.len() as int)[i as int] != p@[i as int]);
            return false;
        }
        i = i + 1;
    }
    assert(s@.subrange(0, p@.len() as int) =~= p@);
    true
}

/// The position of the first `c` in `s`, if any.
pub fn find_byte(s: &[u8], c: u8) -> (r: Option<usize>)
    ensures
        r is None ==> forall|j: int| 0 <= j < s@.len() ==> #[trigger] s@[j] != c,
        r matches Some(k) ==> k < s@.len() && s@[k as int] == c && forall|j: int|
            0 <= j < k ==> #[trigger] s@[j] != c,
{
    let mut i: usize = 0;
    while i < s.len()
        invariant
            0 <= i <= s@.len(),
            forall|j: int| 0 <= j < i ==> #[trigger] s@[j] != c,
        decreases s@.len() - i,
    {
        if s[i] == c {
            return Some(i);
        }
        i = i + 1;
    }
    None
}

/// The part of `s` before the first `sep`.
pub fn take_before(s: &[u8], sep: u8) -> (r: Vec<u8>)
    ensures
        r@ == text_before(s@, sep),
        all_visible(s@) ==> all_visible(r@),
{
    let k = match find_byte(s, sep) {
        Some(k) => k,
        None => s.len(),
    };
    proof {
        lemma_text_before(s@, sep, k as int);
    }
    slice_to_vec(slice_subrange(s, 0, k))
}

/// Whether `b` is ASCII whitespace.
pub fn is_whitespace_byte(b: u8) -> (r: bool)
    ensures
        r == is_ascii_whitespace(b),
{
    b == 32 || (9 <= b && b <= 13)
}

/// `s` without leading and trailing ASCII whitespace.
pub fn trim_whitespace(s: &[u8]) -> (r: Vec<u8>)
    ensures
        r@ == trim(s@),
        all_visible(s@) ==> all_visible(r@),
{
    let mut start: usize = 0;
    while start < s.len() && is_whitespace_byte(s[start])
        invariant
            0 <= start <= s@.len(),
            forall|j: int| 0 <= j < start ==> is_ascii_whitespace(#[trigger] s@[j]),
        decreases s@.len() - start,
    {
        start = start + 1;
    }
    proof {
        lemma_trim_start(s@, start as int);
    }
    let t = slice_subrange(s, start, s.len());
    let mut end: usize = t.len();
    while end > 0 && is_whitespace_byte(t[end - 1])
        invariant
            0 <= end <= t@.len(),
            forall|j: int| end <= j < t@.len() ==> is_ascii_whitespace(#[trigger] t@[j]),
        decreases end,
    {
        end = end - 1;
    }
    proof {
        lemma_trim_end(t@, end as int);
    }
    slice_to_vec(slice_subrange(t, 0, end))
}

/// The text without the run of `c` at its end.
pub fn strip_trailing_char(s: &str, c: char) -> (r: String)
    ensures
        r@ == without_trailing(s@, c),
{
    let mut end: usize = s.unicode_len();
    while end > 0 && s.get_char(end - 1) == c
        invariant
            0 <= end <= s@.len(),
            forall|j: int| end <= j < s@.len() ==> #[trigger] s@[j] == c,
        decreases end,
    {
        end = end - 1;
    }
    proof {
        lemma_without_trailing(s@, c, end as int);
    }
    s.substring_char(0, end).to_owned()
}

pub proof fn lemma_visible_is_ascii(s: Seq<u8>)
    requires
        all_visible(s),
    ensures
        is_ascii_bytes(s),
{
    assert forall|i: int| 0 <= i < s.len() implies #[trigger] s[i] < 128 by {
        assert(is_visible_ascii(s[i]));
    }
}

/// Turns bytes that are all ASCII into the string with the same characters.
pub fn ascii_string(bytes: Vec<u8>) -> (s: String)
    requires
        is_ascii_bytes(bytes@),
    ensures
        s@ == ascii_chars(bytes@),
{
    proof {
        lemma_ascii_decode(bytes@);
    }
    match string_from_utf8(bytes) {
        Ok(s) => s,
        Err(_) => {
            assert(false);
            String::new()
        },
    }
}

/// The three texts one after another.
pub fn join3(a: &str, b: &str, c: &str) -> (s: String)
    ensures
        s@ == a@ + b@ + c@,
{
    let s = a.to_owned();
    let s = s.concat(b);
    s.concat(c)
}

} // verus!
