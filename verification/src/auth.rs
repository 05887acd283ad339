//! HTTP Basic credentials as routers send them to the update endpoint:
//! `Authorization: Basic <base64 of "username:password">`.
use base64::Engine as _;
use vstd::prelude::*;
use vstd::slice::{slice_subrange, slice_to_vec};
use vstd::utf8::*;

use crate::text::{
    all_visible, find_byte, has_prefix, header_text, is_header_text, lemma_ascii_decode,
    starts_with, string_from_utf8,
};

verus! {

broadcast use vstd::utf8::group_utf8_lib;

#[verifier::external_type_specification]
#[verifier::external_body]
pub struct ExDecodeError(base64::DecodeError);

/// What base64 decoding with the standard alphabet (with padding) gives for
/// the input bytes, or `None` when the input is not such an encoding.
pub uninterp spec fn base64_standard_decode(input: Seq<u8>) -> Option<Seq<u8>>;

/// Wraps `base64::engine::general_purpose::STANDARD.decode`. Claimed: the
/// result depends on the input bytes alone; decoding fails exactly when the
/// name gives `None`, and otherwise yields the bytes the name gives.
#[verifier::external_body]
fn decode_base64_standard(input: &[u8]) -> (res: Result<Vec<u8>, base64::DecodeError>)
    ensures
        base64_standard_decode(input@) == (match res {
            Ok(v) => Some(v@),
            Err(_) => None,
        }),
{
    base64::engine::general_purpose::STANDARD.decode(input)
}

/// Why a request's credentials are refused.
#[derive(Debug, Clone, Copy, PartialEq, Eq, Structural)]
pub enum AuthFailure {
    /// No usable `Basic` authorization header.
    Missing,
    /// The header is there but does not carry `username:password`.
    Invalid,
}

/// The six bytes of `"Basic "`.
pub open spec fn basic_scheme() -> Seq<u8> {
    seq![66u8, 97u8, 115u8, 105u8, 99u8, 32u8]
}

/// The optional bytes of an optional slice.
pub open spec fn opt_bytes(o: Option<&[u8]>) -> Option<Seq<u8>> {
    match o {
        Some(s) => Some(s@),
        None => None,
    }
}

/// The token after `"Basic "` in the header, when the header reads as text
/// and starts with that scheme.
pub open spec fn basic_token(header: Option<Seq<u8>>) -> Option<Seq<u8>> {
    match header {
        None => None,
        Some(raw) => {
            let t = header_text(raw);
            if has_prefix(t, basic_scheme()) {
                Some(t.subrange(6, t.len() as int))
            } else {
                None
            }
        },
    }
}

/// Decoded credentials are accepted when they are UTF-8 text holding a ':'.
pub open spec fn credentials_acceptable(decoded: Seq<u8>) -> bool {
    valid_utf8(decoded) && decoded.contains(58u8)
}

/// `user` and `pass` are the text before and after the first ':' of `decoded`.
pub open spec fn splits_credentials(decoded: Seq<u8>, user: Seq<char>, pass: Seq<char>) -> bool {
    &&& decoded == encode_utf8(user) + seq![58u8] + encode_utf8(pass)
    &&& !encode_utf8(user).contains(58u8)
}

/// The view of a credentials result: the two texts, or the failure.
pub open spec fn credentials_view(r: Result<(String, String), AuthFailure>) -> Result<
    (Seq<char>, Seq<char>),
    AuthFailure,
> {
    match r {
        Ok((u, p)) => Ok((u@, p@)),
        Err(e) => Err(e),
    }
}

/// What decoding the token gives, read as credentials.
pub open spec fn decoded_credentials_outcome(
    decoded: Option<Seq<u8>>,
    res: Result<(Seq<char>, Seq<char>), AuthFailure>,
) -> bool {
    match decoded {
        None => res == Err::<(Seq<char>, Seq<char>), AuthFailure>(AuthFailure::Invalid),
        Some(d) => if credentials_acceptable(d) {
            res matches Ok((u, p)) && splits_credentials(d, u, p)
        } else {
            res == Err::<(Seq<char>, Seq<char>), AuthFailure>(AuthFailure::Invalid)
        },
    }
}

/// What an authorization header gives, read as Basic credentials.
pub open spec fn basic_auth_outcome(
    header: Option<Seq<u8>>,
    res: Result<(Seq<char>, Seq<char>), AuthFailure>,
) -> bool {
    match basic_token(header) {
        None => res == Err::<(Seq<char>, Seq<char>), AuthFailure>(AuthFailure::Missing),
        Some(tok) => decoded_credentials_outcome(base64_standard_decode(tok), res),
    }
}

proof fn lemma_colon_split(d: Seq<u8>, k: int)
    requires
        0 <= k < d.len(),
        d[k] == 58u8,
    ensures
        d == d.subrange(0, k) + seq![58u8] + d.subrange(k + 1, d.len() as int),
        valid_utf8(d) <==> (valid_utf8(d.subrange(0, k)) && valid_utf8(
            d.subrange(k + 1, d.len() as int),
        )),
{
    let u = d.subrange(0, k);
    let p = d.subrange(k + 1, d.len() as int);
    let colon = seq![58u8];
    assert(d =~= u + colon + p);
    lemma_ascii_decode(colon);
    if valid_utf8(d) {
        assert(is_char_boundary(d, k));
        let rest = d.subrange(k, d.len() as int);
        assert(valid_utf8(u));
        assert(valid_utf8(rest));
        assert(rest.len() > 0);
        assert(pop_first_scalar(rest) =~= p);
    }
    if valid_utf8(u) && valid_utf8(p) {
        valid_utf8_concat(u, colon);
        valid_utf8_concat(u + colon, p);
    }
}

/// Reads decoded credentials: UTF-8 text split at its first ':' into the
/// username and the password.
pub fn credentials_from_decoded(decoded: Option<Vec<u8>>) -> (res: Result<(String, String), AuthFailure>)
    ensures
        decoded_credentials_outcome(
            match decoded {
                Some(v) => Some(v@),
                None => None,
            },
            credentials_view(res),
        ),
{
    let d = match decoded {
        Some(d) => d,
        None => return Err(AuthFailure::Invalid),
    };
    let k = match find_byte(d.as_slice(), 58u8) {
        Some(k) => k,
        None => return Err(AuthFailure::Invalid),
    };
    let ghost dv = d@;
    proof {
        lemma_colon_split(dv, k as int);
    }
    let user_bytes = slice_to_vec(slice_subrange(d.as_slice(), 0, k));
    let pass_bytes = slice_to_vec(slice_subrange(d.as_slice(), k + 1, d.len()));
    let ghost ub = user_bytes@;
    let ghost pb = pass_bytes@;
    let user = match string_from_utf8(user_bytes) {
        Ok(s) => s,
        Err(_) => return Err(AuthFailure::Invalid),
    };
    let pass = match string_from_utf8(pass_bytes) {
        Ok(s) => s,
        Err(_) => return Err(AuthFailure::Invalid),
    };
    proof {
        assert(encode_utf8(user@) == ub);
        assert(encode_utf8(pass@) == pb);
        assert(dv.contains(58u8)) by {
            assert(dv[k as int] == 58u8);
        }
        assert(!ub.contains(58u8)) by {
            if ub.contains(58u8) {
                let j = choose|j: int| 0 <= j < ub.len() && ub[j] == 58u8;
                assert(dv[j] == 58u8);
            }
        }
    }
    Ok((user, pass))
}

/// Reads the `Authorization` header of an update request: it must read as
/// text, start with `"Basic "`, and the rest must be standard base64 of
/// `username:password`.
pub fn parse_basic_auth(header: Option<&[u8]>) -> (res: Result<(String, String), AuthFailure>)
    ensures
        basic_auth_outcome(opt_bytes(header), credentials_view(res)),
{
    let raw = match header {
        Some(raw) => raw,
        None => return Err(AuthFailure::Missing),
    };
    if !is_header_text(raw) {
        proof {
            assert(!has_prefix(Seq::<u8>::empty(), basic_scheme()));
        }
        return Err(AuthFailure::Missing);
    }
    let scheme: [u8; 6] = [66u8, 97u8, 115u8, 105u8, 99u8, 32u8];
    proof {
        assert(scheme@ =~= basic_scheme());
    }
    if !starts_with(raw, scheme.as_slice()) {
        return Err(AuthFailure::Missing);
    }
    let token = slice_subrange(raw, 6, raw.len());
    let decoded = match decode_base64_standard(token) {
        Ok(v) => Some(v),
        Err(_) => None,
    };
    credentials_from_decoded(decoded)
}

// ---------------------------------------------------------------------------
// Laws
// ---------------------------------------------------------------------------
proof fn lemma_scalar_colon(c: char)
    ensures
        encode_scalar(c as u32).contains(58u8) <==> c == ':',
{
    let v: u32 = c as u32;
    char_is_scalar(c);
    let e = encode_scalar(v);
    if has_width_1_encoding(v) {
        assert(leading_byte_width_1(v) == v as u8) by (bit_vector)
            requires
                v <= 0x7f,
        ;
        assert(e[0] == v as u8);
        if c == ':' {
            assert(e.contains(58u8)) by {
                assert(e[0] == 58u8);
            }
        } else {
            assert(v != 58) by {
                char_u32_cast(c, v);
            }
            assert(!e.contains(58u8)) by {
                if e.contains(58u8) {
                    let j = choose|j: int| 0 <= j < e.len() && e[j] == 58u8;
                    assert(j == 0);
                }
            }
        }
    } else {
        assert(v != 58);
        assert(c != ':');
        assert forall|j: int| 0 <= j < e.len() implies #[trigger] e[j] >= 0x80 by {
            let b2: u8 = ((v >> 6) & 0x1F) as u8;
            let b3: u8 = ((v >> 12) & 0x0F) as u8;
            let b4: u8 = ((v >> 18) & 0x7) as u8;
            let l: u8 = (v & 0x3F) as u8;
            let m: u8 = ((v >> 6) & 0x3F) as u8;
            let n: u8 = ((v >> 12) & 0x3F) as u8;
            assert((0xC0u8 | b2) >= 0x80) by (bit_vector);
            assert((0xE0u8 | b3) >= 0x80) by (bit_vector);
            assert((0xF0u8 | b4) >= 0x80) by (bit_vector);
            assert((0x80u8 | l) >= 0x80) by (bit_vector);
            assert((0x80u8 | m) >= 0x80) by (bit_vector);
            assert((0x80u8 | n) >= 0x80) by (bit_vector);
        }
        assert(!e.contains(58u8)) by {
            if e.contains(58u8) {
                let j = choose|j: int| 0 <= j < e.len() && e[j] == 58u8;
                assert(e[j] >= 0x80);
            }
        }
    }
}

proof fn lemma_encode_colon(u: Seq<char>)
    ensures
        encode_utf8(u).contains(58u8) <==> u.contains(':'),
    decreases u.len(),
{
    if u.len() > 0 {
        let head = encode_scalar(u[0] as u32);
        let rest = u.drop_first();
        lemma_scalar_colon(u[0]);
        lemma_encode_colon(rest);
        let e = encode_utf8(u);
        assert(e == head + encode_utf8(rest));
        if e.contains(58u8) {
            let j = choose|j: int| 0 <= j < e.len() && e[j] == 58u8;
            if j < head.len() {
                assert(head[j] == 58u8);
                assert(u[0] == ':');
            } else {
                assert(encode_utf8(rest)[j - head.len()] == 58u8);
                let k = choose|k: int| 0 <= k < rest.len() && rest[k] == ':';
                assert(u[k + 1] == ':');
            }
        }
        if u.contains(':') {
            let k = choose|k: int| 0 <= k < u.len() && u[k] == ':';
            if k == 0 {
                let j = choose|j: int| 0 <= j < head.len() && head[j] == 58u8;
                assert(e[j] == 58u8);
            } else {
                assert(rest[k - 1] == ':');
                let j = choose|j: int| 0 <= j < encode_utf8(rest).len() && encode_utf8(rest)[j] == 58u8;
                assert(e[head.len() + j] == 58u8);
            }
        }
    } else {
        assert(!encode_utf8(u).contains(58u8));
    }
}

/// Credentials are read unambiguously: decoded bytes split into at most one
/// username and password.
pub proof fn lemma_credentials_unambiguous(
    d: Seq<u8>,
    user1: Seq<char>,
    pass1: Seq<char>,
    user2: Seq<char>,
    pass2: Seq<char>,
)
    requires
        splits_credentials(d, user1, pass1),
        splits_credentials(d, user2, pass2),
    ensures
        user1 == user2,
        pass1 == pass2,
{
    let e1 = encode_utf8(user1);
    let e2 = encode_utf8(user2);
    if e1.len() < e2.len() {
        assert(d[e1.len() as int] == 58u8);
        assert(e2[e1.len() as int] == d[e1.len() as int]);
        assert(e2.contains(58u8));
    } else if e2.len() < e1.len() {
        assert(d[e2.len() as int] == 58u8);
        assert(e1[e2.len() as int] == d[e2.len() as int]);
        assert(e1.contains(58u8));
    }
    assert(e1.len() == e2.len());
    assert(e1 =~= d.subrange(0, e1.len() as int));
    assert(e2 =~= d.subrange(0, e2.len() as int));
    assert(encode_utf8(pass1) =~= d.subrange(e1.len() + 1int, d.len() as int));
    assert(encode_utf8(pass2) =~= d.subrange(e2.len() + 1int, d.len() as int));
    assert(decode_utf8(e1) == user1);
    assert(decode_utf8(e2) == user2);
    assert(decode_utf8(encode_utf8(pass1)) == pass1);
    assert(decode_utf8(encode_utf8(pass2)) == pass2);
}

/// A router's credentials are read back as they were sent: when the header
/// is `"Basic "` followed by a token that decodes to `user:pass`, with no
/// ':' in `user`, reading the header gives exactly `user` and `pass`.
pub proof fn lemma_basic_auth_reads_back(
    token: Seq<u8>,
    user: Seq<char>,
    pass: Seq<char>,
    res: Result<(Seq<char>, Seq<char>), AuthFailure>,
)
    requires
        all_visible(basic_scheme() + token),
        base64_standard_decode(token) == Some(encode_utf8(user) + seq![58u8] + encode_utf8(pass)),
        !user.contains(':'),
        basic_auth_outcome(Some(basic_scheme() + token), res),
    ensures
        res == Ok::<(Seq<char>, Seq<char>), AuthFailure>((user, pass)),
{
    let header = basic_scheme() + token;
    assert(header.subrange(0, 6) =~= basic_scheme());
    assert(header.subrange(6, header.len() as int) =~= token);
    let d = encode_utf8(user) + seq![58u8] + encode_utf8(pass);
    lemma_encode_colon(user);
    lemma_ascii_decode(seq![58u8]);
    valid_utf8_concat(encode_utf8(user), seq![58u8]);
    valid_utf8_concat(encode_utf8(user) + seq![58u8], encode_utf8(pass));
    assert(d[encode_utf8(user).len() as int] == 58u8);
    assert(d.contains(58u8));
    assert(splits_credentials(d, user, pass));
    let (u2, p2) = res->Ok_0;
    lemma_credentials_unambiguous(d, user, pass, u2, p2);
}

/// A byte of the standard base64 alphabet: `A`-`Z`, `a`-`z`, `0`-`9`, `+`,
/// `/`, and the padding `=`.
pub open spec fn is_base64_byte(b: u8) -> bool {
    (65u8 <= b && b <= 90u8) || (97u8 <= b && b <= 122u8) || (48u8 <= b && b <= 57u8) || b == 43u8
        || b == 47u8 || b == 61u8
}

/// The header `"Basic "` followed by any token over the standard base64
/// alphabet that decodes to `user:pass`, with no ':' in `user`, reads back
/// as exactly `(user, pass)`.
pub proof fn lemma_basic_token_reads_back(
    token: Seq<u8>,
    user: Seq<char>,
    pass: Seq<char>,
    res: Result<(Seq<char>, Seq<char>), AuthFailure>,
)
    requires
        forall|i: int| 0 <= i < token.len() ==> is_base64_byte(#[trigger] token[i]),
        base64_standard_decode(token) == Some(encode_utf8(user) + seq![58u8] + encode_utf8(pass)),
        !user.contains(':'),
        basic_auth_outcome(Some(seq![66u8, 97u8, 115u8, 105u8, 99u8, 32u8] + token), res),
    ensures
        res == Ok::<(Seq<char>, Seq<char>), AuthFailure>((user, pass)),
{
    let header = seq![66u8, 97u8, 115u8, 105u8, 99u8, 32u8] + token;
    assert(header =~= basic_scheme() + token);
    assert forall|i: int| 0 <= i < header.len() implies crate::text::is_visible_ascii(#[trigger] header[i]) by {
        if i >= 6 {
            assert(header[i] == token[i - 6]);
            assert(is_base64_byte(token[i - 6]));
        }
    }
    lemma_basic_auth_reads_back(token, user, pass, res);
}

} // verus!
