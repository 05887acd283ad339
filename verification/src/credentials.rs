//! Generated update credentials: a 12-character username over lower-case
//! letters and digits, and a 16-character password over letters and digits.
use rand::Rng as _;
use vstd::prelude::*;

use crate::text::{ascii_chars, ascii_string, is_ascii_bytes};

verus! {

#[verifier::external_type_specification]
#[verifier::external_body]
pub struct ExThreadRng(rand::rngs::ThreadRng);

/// Wraps `rand::thread_rng`. Nothing is claimed of the generator.
#[verifier::external_body]
fn thread_rng() -> rand::rngs::ThreadRng {
    rand::thread_rng()
}

/// Wraps `Rng::gen_range` on the range `0..bound`. Claimed: the value drawn
/// lies in the range; which value comes out is left open. The range must not
/// be empty (the call panics on an empty range).
#[verifier::external_body]
fn gen_index(rng: &mut rand::rngs::ThreadRng, bound: u8) -> (r: u8)
    requires
        0 < bound,
    ensures
        r < bound,
{
    rng.gen_range(0..bound)
}

/// Number of characters in a generated username.
pub const USERNAME_LEN: usize = 12;

/// Number of characters in a generated password.
pub const PASSWORD_LEN: usize = 16;

/// The byte that a username index in `0..36` stands for: `a`..`z`, then `0`..`9`.
pub open spec fn username_symbol(i: int) -> u8 {
    if i < 26 {
        (97 + i) as u8
    } else {
        (48 + (i - 26)) as u8
    }
}

/// The byte that a password index in `0..62` stands for: `a`..`z`, `A`..`Z`,
/// then `0`..`9`.
pub open spec fn password_symbol(i: int) -> u8 {
    if i < 26 {
        (97 + i) as u8
    } else if i < 52 {
        (65 + (i - 26)) as u8
    } else {
        (48 + (i - 52)) as u8
    }
}

pub open spec fn is_lower(b: u8) -> bool {
    97 <= b <= 122
}

pub open spec fn is_upper(b: u8) -> bool {
    65 <= b <= 90
}

pub open spec fn is_digit(b: u8) -> bool {
    48 <= b <= 57
}

/// A character a generated username may hold.
pub open spec fn is_username_byte(b: u8) -> bool {
    is_lower(b) || is_digit(b)
}

/// A character a generated password may hold.
pub open spec fn is_password_byte(b: u8) -> bool {
    is_lower(b) || is_upper(b) || is_digit(b)
}

/// The username symbols are exactly the lower-case letters and digits, and
/// the password symbols exactly the letters and digits.
pub proof fn lemma_symbol_alphabets()
    ensures
        forall|i: int| 0 <= i < 36 ==> is_username_byte(#[trigger] username_symbol(i)),
        forall|b: u8| is_username_byte(b) ==> exists|i: int| 0 <= i < 36 && #[trigger] username_symbol(i) == b,
        forall|i: int| 0 <= i < 62 ==> is_password_byte(#[trigger] password_symbol(i)),
        forall|b: u8| is_password_byte(b) ==> exists|i: int| 0 <= i < 62 && #[trigger] password_symbol(i) == b,
{
    assert forall|b: u8| is_username_byte(b) implies exists|i: int| 0 <= i < 36 && #[trigger] username_symbol(i) == b by {
        if is_lower(b) {
            assert(username_symbol(b - 97) == b);
        } else {
            assert(username_symbol(b - 48 + 26) == b);
        }
    }
    assert forall|b: u8| is_password_byte(b) implies exists|i: int| 0 <= i < 62 && #[trigger] password_symbol(i) == b by {
        if is_lower(b) {
            assert(password_symbol(b - 97) == b);
        } else if is_upper(b) {
            assert(password_symbol(b - 65 + 26) == b);
        } else {
            assert(password_symbol(b - 48 + 52) == b);
        }
    }
}

/// The username character for an index drawn from `0..36`.
pub fn username_symbol_byte(idx: u8) -> (b: u8)
    requires
        idx < 36,
    ensures
        b == username_symbol(idx as int),
{
    if idx < 26 {
        97u8 + idx
    } else {
        48u8 + (idx - 26)
    }
}

/// The password character for an index drawn from `0..62`.
pub fn password_symbol_byte(idx: u8) -> (b: u8)
    requires
        idx < 62,
    ensures
        b == password_symbol(idx as int),
{
    if idx < 26 {
        97u8 + idx
    } else if idx < 52 {
        65u8 + (idx - 26)
    } else {
        48u8 + (idx - 52)
    }
}

/// `len` random indices drawn one after another from `0..bound`.
fn draw_indices(rng: &mut rand::rngs::ThreadRng, len: usize, bound: u8) -> (v: Vec<u8>)
    requires
        0 < bound,
    ensures
        v@.len() == len,
        forall|i: int| 0 <= i < len ==> #[trigger] v@[i] < bound,
{
    let mut v: Vec<u8> = Vec::new();
    let mut i: usize = 0;
    while i < len
        invariant
            0 < bound,
            0 <= i <= len,
            v@.len() == i,
            forall|j: int| 0 <= j < i ==> #[trigger] v@[j] < bound,
        decreases len - i,
    {
        let idx = gen_index(rng, bound);
        v.push(idx);
        i = i + 1;
    }
    v
}

/// The bytes of the text, one per character, when all characters are ASCII.
pub open spec fn text_bytes(s: Seq<char>) -> Seq<u8> {
    Seq::new(s.len(), |i: int| s[i] as u8)
}

/// The username that a sequence of draws from `0..36` spells: the i-th
/// character is the username symbol of the i-th draw.
pub open spec fn username_text(draws: Seq<u8>) -> Seq<char> {
    ascii_chars(Seq::new(draws.len(), |i: int| username_symbol(draws[i] as int)))
}

/// The password that a sequence of draws from `0..62` spells: the i-th
/// character is the password symbol of the i-th draw.
pub open spec fn password_text(draws: Seq<u8>) -> Seq<char> {
    ascii_chars(Seq::new(draws.len(), |i: int| password_symbol(draws[i] as int)))
}

proof fn lemma_text_bytes_ascii(b: Seq<u8>)
    requires
        is_ascii_bytes(b),
    ensures
        text_bytes(ascii_chars(b)) == b,
{
    assert forall|i: int| 0 <= i < b.len() implies #[trigger] text_bytes(ascii_chars(b))[i] == b[i] by {
        let x: u8 = b[i];
        assert(((x as char) as u8) == x);
    }
    assert(text_bytes(ascii_chars(b)) =~= b);
}

/// The credentials that two sequences of draws spell: the username from the
/// draws over `0..36`, the password from the draws over `0..62`, character
/// by character.
pub fn credentials_from_indices(user_draws: &Vec<u8>, pass_draws: &Vec<u8>) -> (res: (String, String))
    requires
        forall|i: int| 0 <= i < user_draws@.len() ==> #[trigger] user_draws@[i] < 36,
        forall|i: int| 0 <= i < pass_draws@.len() ==> #[trigger] pass_draws@[i] < 62,
    ensures
        res.0@ == username_text(user_draws@),
        res.1@ == password_text(pass_draws@),
{
    let mut user: Vec<u8> = Vec::new();
    let mut i: usize = 0;
    while i < user_draws.len()
        invariant
            0 <= i <= user_draws@.len(),
            forall|j: int| 0 <= j < user_draws@.len() ==> #[trigger] user_draws@[j] < 36,
            user@ =~= Seq::new(i as nat, |j: int| username_symbol(user_draws@[j] as int)),
        decreases user_draws@.len() - i,
    {
        let b = username_symbol_byte(user_draws[i]);
        user.push(b);
        i = i + 1;
    }
    let mut pass: Vec<u8> = Vec::new();
    let mut k: usize = 0;
    while k < pass_draws.len()
        invariant
            0 <= k <= pass_draws@.len(),
            forall|j: int| 0 <= j < pass_draws@.len() ==> #[trigger] pass_draws@[j] < 62,
            pass@ =~= Seq::new(k as nat, |j: int| password_symbol(pass_draws@[j] as int)),
        decreases pass_draws@.len() - k,
    {
        let b = password_symbol_byte(pass_draws[k]);
        pass.push(b);
        k = k + 1;
    }
    proof {
        lemma_symbol_alphabets();
        assert forall|j: int| 0 <= j < user@.len() implies #[trigger] user@[j] < 128 by {
            assert(is_username_byte(username_symbol(user_draws@[j] as int)));
        }
        assert forall|j: int| 0 <= j < pass@.len() implies #[trigger] pass@[j] < 128 by {
            assert(is_password_byte(password_symbol(pass_draws@[j] as int)));
        }
    }
    (ascii_string(user), ascii_string(pass))
}

/// Fresh credentials for a new configuration: [`USERNAME_LEN`] draws from
/// `0..36` spell the username (lower-case letters and digits) and then
/// [`PASSWORD_LEN`] draws from `0..62` spell the password (letters and
/// digits), as [`credentials_from_indices`] maps them. Which values are
/// drawn is the random generator's.
pub fn generate_credentials() -> (res: (String, String))
    ensures
        exists|user_draws: Seq<u8>, pass_draws: Seq<u8>|
            {
                &&& user_draws.len() == USERNAME_LEN
                &&& pass_draws.len() == PASSWORD_LEN
                &&& (forall|i: int| 0 <= i < USERNAME_LEN ==> #[trigger] user_draws[i] < 36)
                &&& (forall|i: int| 0 <= i < PASSWORD_LEN ==> #[trigger] pass_draws[i] < 62)
                &&& res.0@ == username_text(user_draws)
                &&& res.1@ == password_text(pass_draws)
            },
        res.0@.len() == USERNAME_LEN,
        res.1@.len() == PASSWORD_LEN,
        forall|i: int| 0 <= i < USERNAME_LEN ==> is_username_byte(#[trigger] text_bytes(res.0@)[i]),
        forall|i: int| 0 <= i < PASSWORD_LEN ==> is_password_byte(#[trigger] text_bytes(res.1@)[i]),
        res.0@ == ascii_chars(text_bytes(res.0@)),
        res.1@ == ascii_chars(text_bytes(res.1@)),
{
    let mut rng = thread_rng();
    let user_draws = draw_indices(&mut rng, USERNAME_LEN, 36);
    let pass_draws = draw_indices(&mut rng, PASSWORD_LEN, 62);
    let res = credentials_from_indices(&user_draws, &pass_draws);
    proof {
        lemma_symbol_alphabets();
        let ub = Seq::new(user_draws@.len(), |i: int| username_symbol(user_draws@[i] as int));
        let pb = Seq::new(pass_draws@.len(), |i: int| password_symbol(pass_draws@[i] as int));
        assert forall|j: int| 0 <= j < ub.len() implies #[trigger] ub[j] < 128 by {
            assert(is_username_byte(username_symbol(user_draws@[j] as int)));
        }
        assert forall|j: int| 0 <= j < pb.len() implies #[trigger] pb[j] < 128 by {
            assert(is_password_byte(password_symbol(pass_draws@[j] as int)));
        }
        lemma_text_bytes_ascii(ub);
        lemma_text_bytes_ascii(pb);
        assert forall|i: int| 0 <= i < USERNAME_LEN implies is_username_byte(#[trigger] text_bytes(res.0@)[i]) by {
            assert(text_bytes(res.0@)[i] == username_symbol(user_draws@[i] as int));
        }
        assert forall|i: int| 0 <= i < PASSWORD_LEN implies is_password_byte(#[trigger] text_bytes(res.1@)[i]) by {
            assert(text_bytes(res.1@)[i] == password_symbol(pass_draws@[i] as int));
        }
    }
    res
}

} // verus!
