//! Identifiers: the 128 bits of a UUID, how they are drawn and how they are written.
use vstd::arithmetic::power::*;
use vstd::prelude::*;

verus! {

/// The 128 bits of a UUID, most significant first.
pub type Uuid = u128;

/// How often a drawn identifier that is already taken is drawn again.
pub const MAX_REDRAWS: usize = 1024;

/// The lower-case hexadecimal digit that stands for `value`.
pub open spec fn hex_digit(value: int) -> char {
    if value < 10 {
        crate::text::digit(value as nat)
    } else if value == 10 {
        'a'
    } else if value == 11 {
        'b'
    } else if value == 12 {
        'c'
    } else if value == 13 {
        'd'
    } else if value == 14 {
        'e'
    } else {
        'f'
    }
}

/// The `i`th of the 32 hexadecimal digits of `id`, most significant first.
pub open spec fn nibble(id: Uuid, i: int) -> int {
    (id as int / pow(16, (31 - i) as nat)) % 16
}

/// The 32 digits of `id`.
pub open spec fn simple_text(id: Uuid) -> Seq<char> {
    Seq::new(32, |i: int| hex_digit(nibble(id, i)))
}

/// The digits of `id` in groups of 8, 4, 4, 4 and 12, joined by hyphens.
pub open spec fn hyphenated_text(id: Uuid) -> Seq<char> {
    let digits = simple_text(id);
    digits.subrange(0, 8).push('-') + digits.subrange(8, 12).push('-') + digits.subrange(
        12,
        16,
    ).push('-') + digits.subrange(16, 20).push('-') + digits.subrange(20, 32)
}

/// The version field reads 4 (random) and the variant field reads binary 10.
pub open spec fn is_version_4(id: Uuid) -> bool {
    &&& (id as int / pow(2, 76)) % 16 == 4
    &&& (id as int / pow(2, 62)) % 4 == 2
}

/// What the UUID parser makes of `text`.
pub uninterp spec fn parsed_uuid(text: Seq<char>) -> Option<Uuid>;

/// `uuid::Uuid::new_v4`: 128 random bits with the version field set to 4 and the variant field
/// set to binary 10. Nothing else is claimed of the bits; two draws may agree.
#[verifier::external_body]
pub(crate) fn random_uuid() -> (id: Uuid)
    ensures
        is_version_4(id),
{
    uuid::Uuid::new_v4().as_u128()
}

/// `uuid::Uuid::parse_str`: the identifier that a text spells, if it spells one. The result
/// depends on the text alone, and the hyphenated form of an identifier spells that identifier.
#[verifier::external_body]
pub(crate) fn parse_uuid(text: &str) -> (id: Option<Uuid>)
    ensures
        id == parsed_uuid(text@),
        forall|written: Uuid| #[trigger] hyphenated_text(written) == text@ ==> id == Some(written),
{
    match uuid::Uuid::parse_str(text) {
        Ok(id) => Some(id.as_u128()),
        Err(_) => None,
    }
}

/// The `Display` of `uuid::fmt::Hyphenated`: 32 lower-case hexadecimal digits, grouped by
/// hyphens.
#[verifier::external_body]
pub(crate) fn hyphenated(id: Uuid) -> (text: String)
    ensures
        text@ == hyphenated_text(id),
{
    uuid::Uuid::from_u128(id).hyphenated().to_string()
}

/// The `Display` of `uuid::fmt::Simple`: 32 lower-case hexadecimal digits.
#[verifier::external_body]
pub(crate) fn simple(id: Uuid) -> (text: String)
    ensures
        text@ == simple_text(id),
{
    uuid::Uuid::from_u128(id).simple().to_string()
}

/// `true` exactly when `ids` lists `id`.
pub fn lists(ids: &Vec<Uuid>, id: Uuid) -> (found: bool)
    ensures
        found == ids@.contains(id),
{
    let mut i: usize = 0;
    while i < ids.len()
        invariant
            i <= ids@.len(),
            forall|k: int| 0 <= k < i ==> ids@[k] != id,
        decreases ids@.len() - i,
    {
        if ids[i] == id {
            return true;
        }
        i += 1;
    }
    false
}

/// The `k`th identifier with the version and variant fields of a random one, in the order in
/// which they are tried when drawing finds none.
pub open spec fn numbered(k: int) -> int {
    0x4000_8000_0000_0000_0000 + (k / 0x4000_0000_0000_0000) * 0x1_0000_0000_0000_0000 + k
        % 0x4000_0000_0000_0000
}

/// Numbered identifiers have the fields of random ones, and differ.
proof fn numbered_is_random(k: int)
    requires
        0 <= k <= 0x1_0000_0000_0000_0000,
    ensures
        0 <= numbered(k) <= u128::MAX,
        is_version_4(numbered(k) as Uuid),
        forall|other: int| #[trigger] numbered(other) == numbered(k) && 0 <= other ==> other == k,
{
    assert(pow(2, 62) == 0x4000_0000_0000_0000 && pow(2, 76) == 0x1000_0000_0000_0000_0000) by {
        let p31 = pow(2, 31);
        let p38 = pow(2, 38);
        reveal_with_fuel(pow, 39);
        lemma_pow_adds(2, 31, 31);
        lemma_pow_adds(2, 38, 38);
        assert(p31 * p31 == 0x4000_0000_0000_0000) by (nonlinear_arith)
            requires
                p31 == 0x8000_0000,
        ;
        assert(p38 * p38 == 0x1000_0000_0000_0000_0000) by (nonlinear_arith)
            requires
                p38 == 0x40_0000_0000,
        ;
    }
}

/// A list that names each of the first `n + 1` numbered identifiers is longer than `n`.
proof fn all_cannot_be_taken(taken: Seq<Uuid>, n: nat)
    requires
        n < 0x1_0000_0000_0000_0000,
        forall|k: int| 0 <= k <= n ==> taken.contains(#[trigger] numbered(k) as Uuid),
    ensures
        taken.len() > n,
{
    let numbers = vstd::set_lib::set_int_range(0, n as int + 1);
    vstd::set_lib::lemma_int_range(0, n as int + 1);
    let listed = taken.map_values(|k: Uuid| k as int).to_set();
    taken.map_values(|k: Uuid| k as int).lemma_cardinality_of_set();
    let named = numbers.map(|k: int| numbered(k));
    assert(vstd::relations::injective_on(|k: int| numbered(k), numbers)) by {
        assert forall|x: int, y: int|
            numbers.contains(x) && numbers.contains(y) && #[trigger] numbered(x)
                == #[trigger] numbered(y) implies x == y by {
            numbered_is_random(x);
        }
    }
    vstd::set_lib::lemma_map_size(numbers, named, |k: int| numbered(k));
    assert forall|id: int| named.contains(id) implies listed.contains(id) by {
        let k = choose|k: int| numbers.contains(k) && numbered(k) == id;
        numbered_is_random(k);
        assert(taken.contains(numbered(k) as Uuid));
        let at = choose|i: int| 0 <= i < taken.len() && taken[i] == numbered(k) as Uuid;
        assert(taken.map_values(|k: Uuid| k as int)[at] == id);
    }
    vstd::set_lib::lemma_len_subset(named, listed);
}

/// An identifier with the fields of a random one that `taken` does not list: one that is drawn,
/// and drawn again while it is taken. Should every draw be taken, identifiers are tried in turn.
pub fn unused_id(taken: &Vec<Uuid>) -> (id: Uuid)
    ensures
        !taken@.contains(id),
        is_version_4(id),
{
    let mut draws: usize = 0;
    while draws < MAX_REDRAWS
        decreases MAX_REDRAWS - draws,
    {
        let candidate: Uuid = random_uuid();
        if !lists(taken, candidate) {
            return candidate;
        }
        draws += 1;
    }
    let mut k: u128 = 0;
    let last: u128 = taken.len() as u128;
    loop
        invariant
            k <= last,
            last == taken@.len(),
            last < 0x1_0000_0000_0000_0000,
            forall|i: int| 0 <= i < k ==> taken@.contains(#[trigger] numbered(i) as Uuid),
        decreases last - k,
    {
        proof {
            numbered_is_random(k as int);
        }
        let candidate: Uuid = 0x4000_8000_0000_0000_0000 + (k / 0x4000_0000_0000_0000)
            * 0x1_0000_0000_0000_0000 + k % 0x4000_0000_0000_0000;
        if !lists(taken, candidate) {
            return candidate;
        }
        proof {
            if k == last {
                all_cannot_be_taken(taken@, last as nat);
            }
        }
        k += 1;
    }
}

/// Hexadecimal digits tell values below 16 apart.
proof fn hex_digit_injective(a: int, b: int)
    requires
        0 <= a < 16,
        0 <= b < 16,
        hex_digit(a) == hex_digit(b),
    ensures
        a == b,
{
}

/// All identifiers lie below this power.
proof fn sixteen_to_the_32()
    ensures
        pow(16, 32) == 0x1_0000_0000_0000_0000_0000_0000_0000_0000,
{
    let p4 = pow(16, 4);
    let p8 = pow(16, 8);
    let p16 = pow(16, 16);
    assert(p4 == 0x1_0000) by {
        reveal_with_fuel(pow, 5);
    }
    lemma_pow_adds(16, 4, 4);
    assert(p8 == 0x1_0000_0000) by (nonlinear_arith)
        requires
            p8 == p4 * p4,
            p4 == 0x1_0000,
    ;
    lemma_pow_adds(16, 8, 8);
    assert(p16 == 0x1_0000_0000_0000_0000) by (nonlinear_arith)
        requires
            p16 == p8 * p8,
            p8 == 0x1_0000_0000,
    ;
    lemma_pow_adds(16, 16, 16);
    let p32 = pow(16, 32);
    assert(p32 == 0x1_0000_0000_0000_0000_0000_0000_0000_0000) by (nonlinear_arith)
        requires
            p32 == p16 * p16,
            p16 == 0x1_0000_0000_0000_0000,
    ;
}

/// The digits above position `k` determine the number above it.
proof fn nibbles_determine(a: Uuid, b: Uuid, k: nat)
    requires
        k <= 32,
        forall|i: int| 0 <= i < 32 ==> nibble(a, i) == nibble(b, i),
    ensures
        a as int / pow(16, k) == b as int / pow(16, k),
    decreases 32 - k,
{
    if k == 32 {
        sixteen_to_the_32();
        vstd::arithmetic::div_mod::lemma_basic_div(a as int, pow(16, 32));
        vstd::arithmetic::div_mod::lemma_basic_div(b as int, pow(16, 32));
    } else {
        nibbles_determine(a, b, k + 1);
        let p = pow(16, k);
        lemma_pow_positive(16, k);
        assert(pow(16, k + 1) == p * 16) by {
            reveal(pow);
            vstd::arithmetic::mul::lemma_mul_is_commutative(16, p);
        }
        vstd::arithmetic::div_mod::lemma_div_denominator(a as int, p, 16);
        vstd::arithmetic::div_mod::lemma_div_denominator(b as int, p, 16);
        vstd::arithmetic::div_mod::lemma_fundamental_div_mod(a as int / p, 16);
        vstd::arithmetic::div_mod::lemma_fundamental_div_mod(b as int / p, 16);
        let i = 31 - k as int;
        assert(nibble(a, i) == nibble(b, i));
        assert((31 - i) as nat == k);
    }
}

/// Two identifiers with the same digits are the same.
pub proof fn simple_text_injective(a: Uuid, b: Uuid)
    requires
        simple_text(a) == simple_text(b),
    ensures
        a == b,
{
    assert forall|i: int| 0 <= i < 32 implies nibble(a, i) == nibble(b, i) by {
        assert(simple_text(a)[i] == hex_digit(nibble(a, i)));
        assert(simple_text(b)[i] == hex_digit(nibble(b, i)));
        hex_digit_injective(nibble(a, i), nibble(b, i));
    }
    nibbles_determine(a, b, 0);
    assert(pow(16, 0) == 1) by {
        reveal(pow);
    }
}

/// Two identifiers that are written the same are the same.
pub proof fn hyphenated_text_injective(a: Uuid, b: Uuid)
    requires
        hyphenated_text(a) == hyphenated_text(b),
    ensures
        a == b,
{
    let x = simple_text(a);
    let y = simple_text(b);
    let u = hyphenated_text(a);
    let v = hyphenated_text(b);
    assert forall|i: int| 0 <= i < 32 implies x[i] == y[i] by {
        let at = if i < 8 {
            i
        } else if i < 12 {
            i + 1
        } else if i < 16 {
            i + 2
        } else if i < 20 {
            i + 3
        } else {
            i + 4
        };
        assert(u[at] == x[i]);
        assert(v[at] == y[i]);
    }
    assert(x =~= y);
    simple_text_injective(a, b);
}

} // verus!
