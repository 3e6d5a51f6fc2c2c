//! Identifiers of requests as text.
use vstd::prelude::*;
use vstd::string::*;

verus! {

/// The digit of value `d` in base thirty-two. The letters I, L, O and U are left out.
pub open spec fn base32_digit(d: nat) -> char {
    if d < 10 {
        (48 + d) as u8 as char
    } else if d < 18 {
        (55 + d) as u8 as char
    } else if d < 20 {
        (56 + d) as u8 as char
    } else if d < 22 {
        (57 + d) as u8 as char
    } else if d < 27 {
        (58 + d) as u8 as char
    } else {
        (59 + d) as u8 as char
    }
}

/// The last `k` digits of `n` in base thirty-two.
pub open spec fn base32(n: nat, k: nat) -> Seq<char>
    decreases k,
{
    if k == 0 {
        Seq::empty()
    } else {
        base32(n / 32, (k - 1) as nat).push(base32_digit(n % 32))
    }
}

/// An identifier as text: all of its digits in base thirty-two.
pub open spec fn ulid_text(id: u128) -> Seq<char> {
    base32(id as nat, 26)
}

/// Calls [`rusty_ulid::Ulid::to_string`] on the identifier of this value. The text has the 26 digits
/// of the value in base thirty-two, the highest one first, in upper case.
#[verifier::external_body]
pub(crate) fn ulid_to_text(id: u128) -> (r: String)
    ensures
        r@ == ulid_text(id),
{
    rusty_ulid::Ulid::from(id).to_string()
}

/// How many numbers have at most `k` digits in base thirty-two.
pub open spec fn base32_limit(k: nat) -> nat
    decreases k,
{
    if k == 0 {
        1
    } else {
        32 * base32_limit((k - 1) as nat)
    }
}

/// Numbers that fit into `k` digits are told apart by these digits.
proof fn lemma_base32_injective(a: nat, b: nat, k: nat)
    requires
        base32(a, k) == base32(b, k),
        a < base32_limit(k),
        b < base32_limit(k),
    ensures
        a == b,
    decreases k,
{
    if k > 0 {
        let n = (k - 1) as nat;
        assert(base32(a, k).last() == base32_digit(a % 32));
        assert(base32(b, k).last() == base32_digit(b % 32));
        assert(a % 32 == b % 32);
        assert(base32(a, k).drop_last() =~= base32(a / 32, n));
        assert(base32(b, k).drop_last() =~= base32(b / 32, n));
        lemma_base32_injective(a / 32, b / 32, n);
    }
}

/// Different identifiers have different texts.
pub proof fn law_ulid_text_is_unique(a: u128, b: u128)
    requires
        a != b,
    ensures
        ulid_text(a) != ulid_text(b),
{
    if ulid_text(a) == ulid_text(b) {
        assert(base32_limit(26) > u128::MAX) by {
            reveal_with_fuel(base32_limit, 27);
        }
        lemma_base32_injective(a as nat, b as nat, 26);
    }
}

} // verus!
