//! Drawing tokens that are certain to differ from those already taken.
//!
//! A token is a random UUID. Two random UUIDs coincide with a probability
//! that is negligible but not zero, so a token that repeats one already
//! taken is drawn again, and after a few repeats a spare token is taken in
//! its place: the first of a fixed series that is not yet among the taken.

use crate::project::texts;
use crate::text::same_text;
use crate::trusted::{is_lower_hex, is_uuid_text, random_uuid};
use vstd::prelude::*;

verus! {

/// Whether no two of the texts are the same.
pub open spec fn pairwise_distinct(tokens: Seq<Seq<char>>) -> bool {
    forall|i: int, j: int| 0 <= i < j < tokens.len() ==> tokens[i] != tokens[j]
}

/// Whether `token` is among `taken`.
pub fn is_taken(taken: &Vec<String>, token: &str) -> (found: bool)
    ensures
        found == texts(taken@).contains(token@),
{
    let mut i: usize = 0;
    while i < taken.len()
        invariant
            i <= taken.len(),
            forall|j: int| 0 <= j < i ==> texts(taken@)[j] != token@,
        decreases taken.len() - i,
    {
        if same_text(taken[i].as_str(), token) {
            assert(texts(taken@)[i as int] == token@);
            return true;
        }
        i += 1;
    }
    false
}

/// The lower-case hexadecimal digit for `d`.
pub open spec fn hex_char(d: nat) -> char
    recommends
        d < 16,
{
    if d < 10 {
        ('0' as u32 + d as u32) as char
    } else {
        ('a' as u32 + (d - 10) as u32) as char
    }
}

/// The last `width` hexadecimal digits of `k`, most significant first.
pub open spec fn hex_text(k: nat, width: nat) -> Seq<char>
    decreases width,
{
    if width == 0 {
        Seq::empty()
    } else {
        hex_text(k / 16, (width - 1) as nat).push(hex_char(k % 16))
    }
}

/// Sixteen to the power of `width`.
pub open spec fn sixteen_to(width: nat) -> nat
    decreases width,
{
    if width == 0 {
        1
    } else {
        16 * sixteen_to((width - 1) as nat)
    }
}

/// `hex_text` gives `width` hexadecimal digits.
pub proof fn lemma_hex_text_form(k: nat, width: nat)
    ensures
        hex_text(k, width).len() == width,
        forall|i: int| 0 <= i < width ==> is_lower_hex(#[trigger] hex_text(k, width)[i]),
    decreases width,
{
    if width > 0 {
        lemma_hex_text_form(k / 16, (width - 1) as nat);
        let shorter = hex_text(k / 16, (width - 1) as nat);
        assert forall|i: int| 0 <= i < width implies is_lower_hex(
            #[trigger] hex_text(k, width)[i],
        ) by {
            if i < width - 1 {
                assert(hex_text(k, width)[i] == shorter[i]);
            }
        }
    }
}

/// Numbers that fit `width` hexadecimal digits and are written alike are
/// the same number.
pub proof fn lemma_hex_text_tells_apart(a: nat, b: nat, width: nat)
    requires
        a < sixteen_to(width),
        b < sixteen_to(width),
        hex_text(a, width) == hex_text(b, width),
    ensures
        a == b,
    decreases width,
{
    if width > 0 {
        let shorter = (width - 1) as nat;
        let x = hex_text(a, width);
        let y = hex_text(b, width);
        assert(x.last() == hex_char(a % 16));
        assert(y.last() == hex_char(b % 16));
        assert(a % 16 == b % 16);
        assert(x.drop_last() == hex_text(a / 16, shorter));
        assert(y.drop_last() == hex_text(b / 16, shorter));
        lemma_hex_text_tells_apart(a / 16, b / 16, shorter);
    }
}

/// The `k`-th spare token: a text in the form of a UUID that is all zeros
/// but for its last sixteen digits, which are `k` in hexadecimal.
pub open spec fn spare_spec(k: nat) -> Seq<char> {
    Seq::new(
        36,
        |p: int|
            if p == 8 || p == 13 || p == 18 || p == 23 {
                '-'
            } else if p < 19 {
                '0'
            } else if p < 23 {
                hex_text(k, 16)[p - 19]
            } else {
                hex_text(k, 16)[p - 20]
            },
    )
}

/// Every spare token has the form of a UUID.
pub proof fn lemma_spare_is_uuid_text(k: nat)
    ensures
        is_uuid_text(spare_spec(k)),
{
    lemma_hex_text_form(k, 16);
    assert forall|i: int| 0 <= i < 36 implies if i == 8 || i == 13 || i == 18 || i == 23 {
        spare_spec(k)[i] == '-'
    } else {
        is_lower_hex(#[trigger] spare_spec(k)[i])
    } by {
        if i == 8 || i == 13 || i == 18 || i == 23 {
        } else if i < 19 {
        } else if i < 23 {
            assert(is_lower_hex(hex_text(k, 16)[i - 19]));
        } else {
            assert(is_lower_hex(hex_text(k, 16)[i - 20]));
        }
    }
}

/// Different numbers of at most 64 bits have different spare tokens.
pub proof fn lemma_spares_differ(a: nat, b: nat)
    requires
        a <= u64::MAX,
        b <= u64::MAX,
        a != b,
    ensures
        spare_spec(a) != spare_spec(b),
{
    if spare_spec(a) == spare_spec(b) {
        lemma_hex_text_form(a, 16);
        lemma_hex_text_form(b, 16);
        let x = hex_text(a, 16);
        let y = hex_text(b, 16);
        assert forall|i: int| 0 <= i < 16 implies x[i] == y[i] by {
            if i < 4 {
                assert(spare_spec(a)[i + 19] == x[i]);
                assert(spare_spec(b)[i + 19] == y[i]);
            } else {
                assert(spare_spec(a)[i + 20] == x[i]);
                assert(spare_spec(b)[i + 20] == y[i]);
            }
        }
        assert(x =~= y);
        assert(sixteen_to(16) == 0x1_0000_0000_0000_0000) by {
            reveal_with_fuel(sixteen_to, 17);
        }
        lemma_hex_text_tells_apart(a, b, 16);
    }
}

/// Among the spare tokens up to the number of texts taken, one is not taken.
pub proof fn lemma_a_spare_is_free(taken: Seq<Seq<char>>)
    requires
        taken.len() <= u64::MAX,
    ensures
        exists|k: nat| k <= taken.len() && !taken.contains(#[trigger] spare_spec(k)),
    decreases taken.len(),
{
    let m = taken.len();
    if !taken.contains(spare_spec(m)) {
        assert(m <= taken.len() && !taken.contains(spare_spec(m)));
    } else {
        let j = choose|j: int| 0 <= j < taken.len() && taken[j] == spare_spec(m);
        let rest = taken.remove(j);
        lemma_a_spare_is_free(rest);
        let k = choose|k: nat| k <= rest.len() && !rest.contains(#[trigger] spare_spec(k));
        lemma_spares_differ(k, m);
        assert(!taken.contains(spare_spec(k))) by {
            if taken.contains(spare_spec(k)) {
                let i = choose|i: int| 0 <= i < taken.len() && taken[i] == spare_spec(k);
                if i < j {
                    assert(rest[i] == taken[i]);
                } else {
                    assert(i > j);
                    assert(rest[i - 1] == taken[i]);
                }
                assert(rest.contains(spare_spec(k)));
            }
        }
        assert(k <= taken.len() && !taken.contains(spare_spec(k)));
    }
}

/// The lower-case hexadecimal digit for `d`.
fn hex_digit(d: u64) -> (c: char)
    requires
        d < 16,
    ensures
        c == hex_char(d as nat),
{
    if d < 10 {
        (('0' as u32) + d as u32) as u8 as char
    } else {
        (('a' as u32) + (d - 10) as u32) as u8 as char
    }
}

/// The last `width` hexadecimal digits of `k`, most significant first.
fn hex_digits(k: u64, width: usize) -> (digits: Vec<char>)
    ensures
        digits@ == hex_text(k as nat, width as nat),
    decreases width,
{
    if width == 0 {
        Vec::new()
    } else {
        let mut digits = hex_digits(k / 16, width - 1);
        digits.push(hex_digit(k % 16));
        digits
    }
}

/// The `k`-th spare token.
fn spare(k: u64) -> (token: String)
    ensures
        token@ == spare_spec(k as nat),
{
    let digits = hex_digits(k, 16);
    proof {
        lemma_hex_text_form(k as nat, 16);
    }
    let mut token = String::new();
    let mut p: usize = 0;
    while p < 36
        invariant
            p <= 36,
            digits@ == hex_text(k as nat, 16),
            digits@.len() == 16,
            token@ == spare_spec(k as nat).take(p as int),
        decreases 36 - p,
    {
        let c = if p == 8 || p == 13 || p == 18 || p == 23 {
            '-'
        } else if p < 19 {
            '0'
        } else if p < 23 {
            digits[p - 19]
        } else {
            digits[p - 20]
        };
        assert(c == spare_spec(k as nat)[p as int]);
        token.push(c);
        assert(token@ =~= spare_spec(k as nat).take(p as int + 1));
        p += 1;
    }
    assert(spare_spec(k as nat).take(36) =~= spare_spec(k as nat));
    token
}

/// The first spare token that is not among `taken`.
pub fn first_free_spare(taken: &Vec<String>) -> (token: String)
    ensures
        is_uuid_text(token@),
        !texts(taken@).contains(token@),
        exists|k: nat|
            k <= taken.len() && token@ == #[trigger] spare_spec(k) && forall|j: nat|
                j < k ==> texts(taken@).contains(#[trigger] spare_spec(j)),
{
    let ghost all = texts(taken@);
    let mut k: usize = 0;
    loop
        invariant
            k <= taken.len(),
            all == texts(taken@),
            forall|j: nat| j < k ==> all.contains(#[trigger] spare_spec(j)),
        decreases taken.len() - k,
    {
        let token = spare(k as u64);
        if !is_taken(taken, token.as_str()) {
            proof {
                lemma_spare_is_uuid_text(k as nat);
            }
            return token;
        }
        if k == taken.len() {
            proof {
                lemma_a_spare_is_free(all);
                let free = choose|j: nat| j <= all.len() && !all.contains(#[trigger] spare_spec(j));
                assert(all.contains(spare_spec(free)));
            }
            return token;
        }
        k += 1;
    }
}

/// How often a token that is already taken is drawn again before a spare
/// token is used.
pub const REDRAWS: usize = 4;

/// Draws a random UUID that is not among `taken`.
pub fn fresh_token(taken: &Vec<String>) -> (token: String)
    ensures
        is_uuid_text(token@),
        !texts(taken@).contains(token@),
{
    let mut draws: usize = 0;
    while draws <= REDRAWS
        invariant
            draws <= REDRAWS + 1,
        decreases REDRAWS + 1 - draws,
    {
        let token = random_uuid();
        if !is_taken(taken, token.as_str()) {
            return token;
        }
        draws += 1;
    }
    first_free_spare(taken)
}

} // verus!
