//! Universally unique identifiers of directives and of audit trails.

use vstd::arithmetic::power::pow;
use vstd::prelude::*;
use crate::hex::hex_digit;

verus! {

/// A universally unique identifier.
#[derive(Clone, Copy, Debug, PartialEq, Eq, Hash, Structural)]
pub struct Uuid {
    /// The identifier's 128 bits, the first byte being the most significant.
    pub bits: u128,
}

/// The identifier is of version 4 and of the standard variant.
pub open spec fn is_random_uuid(bits: u128) -> bool {
    &&& (bits >> 76u128) & 0xf == 4
    &&& (bits >> 62u128) & 3 == 2
}

/// The 32 hexadecimal digits of an identifier.
pub open spec fn uuid_digits(bits: u128) -> Seq<char> {
    Seq::new(32, |i: int| hex_digit((bits as int / pow(16, (31 - i) as nat)) % 16))
}

/// The digits of an identifier in groups of 8, 4, 4, 4 and 12, with hyphens between.
pub open spec fn hyphenated(bits: u128) -> Seq<char> {
    let d = uuid_digits(bits);
    d.subrange(0, 8) + seq!['-'] + d.subrange(8, 12) + seq!['-'] + d.subrange(12, 16) + seq!['-']
        + d.subrange(16, 20) + seq!['-'] + d.subrange(20, 32)
}

/// `uuid::Uuid::new_v4`: a random identifier, of which the version and the variant are
/// known.
#[verifier::external_body]
fn random_uuid() -> (r: u128)
    ensures
        is_random_uuid(r),
{
    uuid::Uuid::new_v4().as_u128()
}

/// `uuid::Uuid`'s `Display`: the lowercase hyphenated notation.
#[verifier::external_body]
fn uuid_text(bits: u128) -> (r: String)
    ensures
        r@ == hyphenated(bits),
{
    uuid::Uuid::from_u128(bits).to_string()
}

/// The notations of different identifiers differ.
pub proof fn distinct_ids_have_distinct_texts(a: Uuid, b: Uuid)
    requires
        hyphenated(a.bits) == hyphenated(b.bits),
    ensures
        a == b,
{
    let da = uuid_digits(a.bits);
    let db = uuid_digits(b.bits);
    let ha = hyphenated(a.bits);
    let hb = hyphenated(b.bits);
    assert forall|i: int| 0 <= i < 32 implies da[i] == db[i] by {
        let at = if i < 8 {
            i
        } else if i < 12 {
            i + 1
        } else if i < 16 {
            i + 2
        } else if i < 20 {
            i + 3
        } else {
            i + 4
        };
        assert(ha[at] == da[i]);
        assert(hb[at] == db[i]);
    }
    assert forall|k: nat| k < 32 implies (a.bits as int / pow(16, k)) % 16 == (b.bits as int / #[trigger] pow(
        16,
        k,
    )) % 16 by {
        let i = 31 - k;
        assert(da[i] == hex_digit((a.bits as int / pow(16, k)) % 16));
        assert(db[i] == hex_digit((b.bits as int / pow(16, k)) % 16));
    }
    lemma_16_to_the_32();
    vstd::arithmetic::div_mod::lemma_basic_div(a.bits as int, pow(16, 32));
    vstd::arithmetic::div_mod::lemma_basic_div(b.bits as int, pow(16, 32));
    lemma_same_digits(a.bits as int, b.bits as int, 32);
    reveal(pow);
    assert(pow(16, 0) == 1);
}

/// 16 to the 32 is the number of identifiers.
proof fn lemma_16_to_the_32()
    ensures
        pow(16, 32) == 0x1_0000_0000_0000_0000_0000_0000_0000_0000,
{
    vstd::arithmetic::power::lemma_pow_adds(16, 16, 16);
    vstd::arithmetic::power::lemma_pow_adds(16, 8, 8);
    vstd::arithmetic::power::lemma_pow_adds(16, 4, 4);
    reveal(pow);
    reveal_with_fuel(pow, 5);
    assert(pow(16, 4) == 0x1_0000);
    assert(pow(16, 8) == 0x1_0000_0000);
    assert(pow(16, 16) == 0x1_0000_0000_0000_0000) by (nonlinear_arith)
        requires
            pow(16, 8) == 0x1_0000_0000,
            pow(16, 16) == pow(16, 8) * pow(16, 8),
    ;
    assert(pow(16, 32) == 0x1_0000_0000_0000_0000_0000_0000_0000_0000) by (nonlinear_arith)
        requires
            pow(16, 16) == 0x1_0000_0000_0000_0000,
            pow(16, 32) == pow(16, 16) * pow(16, 16),
    ;
}

/// Numbers below a power of 16 whose lower digits agree are the same from any digit on.
proof fn lemma_same_digits(a: int, b: int, count: nat)
    requires
        0 <= a,
        0 <= b,
        a / pow(16, count) == b / pow(16, count),
        forall|k: nat| k < count ==> (a / pow(16, k)) % 16 == (b / #[trigger] pow(16, k)) % 16,
    ensures
        a / pow(16, 0) == b / pow(16, 0),
    decreases count,
{
    if count > 0 {
        let k = (count - 1) as nat;
        vstd::arithmetic::power::lemma_pow_positive(16, k);
        vstd::arithmetic::power::lemma_pow_adds(16, k, 1);
        vstd::arithmetic::power::lemma_pow1(16);
        vstd::arithmetic::div_mod::lemma_div_denominator(a, pow(16, k), 16);
        vstd::arithmetic::div_mod::lemma_div_denominator(b, pow(16, k), 16);
        assert((a / pow(16, k)) / 16 == (b / pow(16, k)) / 16);
        assert((a / pow(16, k)) % 16 == (b / pow(16, k)) % 16);
        vstd::arithmetic::div_mod::lemma_fundamental_div_mod(a / pow(16, k), 16);
        vstd::arithmetic::div_mod::lemma_fundamental_div_mod(b / pow(16, k), 16);
        lemma_same_digits(a, b, k);
    }
}

impl Uuid {
    /// A new random identifier.
    pub fn new_v4() -> (r: Uuid)
        ensures
            is_random_uuid(r.bits),
    {
        Uuid { bits: random_uuid() }
    }

    /// The lowercase hyphenated notation.
    pub fn to_text(&self) -> (r: String)
        ensures
            r@ == hyphenated(self.bits),
    {
        uuid_text(self.bits)
    }
}

} // verus!
