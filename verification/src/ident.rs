//! Entity identifiers: the 128 bits of a UUID, and their text.

use vstd::prelude::*;

verus! {

/// The identifier of an entity.
#[derive(Debug, Clone, Copy, PartialEq, Eq, PartialOrd, Ord, Hash, Structural)]
pub struct EntityId {
    pub value: u128,
}

/// The lower-case hexadecimal digit of `n`, for `n` below sixteen.
pub open spec fn hex_digit(n: nat) -> char {
    if n < 10 {
        ('0' as int + n) as char
    } else {
        ('a' as int + n - 10) as char
    }
}

/// The last `digits` hexadecimal digits of `value`, most significant first.
pub open spec fn hex_text(value: nat, digits: nat) -> Seq<char>
    decreases digits,
{
    if digits == 0 {
        Seq::empty()
    } else {
        hex_text(value / 16, (digits - 1) as nat).push(hex_digit(value % 16))
    }
}

/// The hyphenated text of an identifier: its 32 hexadecimal digits in lower
/// case, in groups of 8, 4, 4, 4 and 12.
pub open spec fn hyphenated_text(value: u128) -> Seq<char> {
    let h = hex_text(value as nat, 32);
    h.subrange(0, 8) + seq!['-'] + h.subrange(8, 12) + seq!['-'] + h.subrange(12, 16) + seq!['-']
        + h.subrange(16, 20) + seq!['-'] + h.subrange(20, 32)
}

/// What `uuid::Uuid::parse_str` makes of a text: the 128 bits of the
/// identifier that it reads, or nothing where it reports an error.
pub uninterp spec fn parsed_uuid(text: Seq<char>) -> Option<u128>;

/// Calls `uuid::Uuid::parse_str` and hands back the bits of the identifier
/// (`Uuid::as_u128`). Nothing is claimed about which texts parse: the result
/// is only given its name.
#[verifier::external_body]
fn uuid_parse_str(text: &str) -> (r: Option<u128>)
    ensures
        r == parsed_uuid(text@),
{
    match uuid::Uuid::parse_str(text) {
        Ok(id) => Some(id.as_u128()),
        Err(_) => None,
    }
}

/// Formats through `uuid::Uuid`: `Uuid::from_u128` takes the bits in
/// big-endian order, and the type's `Display` writes the hyphenated
/// lower-case form, two digits for each byte. `uuid::Uuid::parse_str`
/// reads every form that the crate writes, this one among them, back as the
/// identifier that was written.
#[verifier::external_body]
fn uuid_hyphenated(value: u128) -> (r: String)
    ensures
        r@ == hyphenated_text(value),
        parsed_uuid(r@) == Some(value),
{
    uuid::Uuid::from_u128(value).to_string()
}

impl EntityId {
    /// The text of this identifier.
    pub open spec fn text(self) -> Seq<char> {
        hyphenated_text(self.value)
    }

    /// The identifier with the given bits.
    pub fn from_u128(value: u128) -> (id: EntityId)
        ensures
            id.value == value,
    {
        EntityId { value }
    }

    /// The bits of this identifier.
    pub fn as_u128(&self) -> (value: u128)
        ensures
            value == self.value,
    {
        self.value
    }

    /// Reads an identifier from any of the textual forms of a UUID.
    pub fn parse_str(text: &str) -> (id: Option<EntityId>)
        ensures
            id == parsed_id(text@),
    {
        match uuid_parse_str(text) {
            Some(value) => Some(EntityId { value }),
            None => None,
        }
    }

    /// Writes this identifier in its hyphenated form, which reads back as
    /// this identifier.
    pub fn to_string(&self) -> (text: String)
        ensures
            text@ == self.text(),
            parsed_id(text@) == Some(*self),
    {
        uuid_hyphenated(self.value)
    }
}

/// The identifier that a text denotes, if it denotes one.
pub open spec fn parsed_id(text: Seq<char>) -> Option<EntityId> {
    match parsed_uuid(text) {
        Some(value) => Some(EntityId { value }),
        None => None,
    }
}

/// The hyphenated text has 36 characters, with hyphens at the four joints.
pub proof fn lemma_hyphenated_shape(value: u128)
    ensures
        hyphenated_text(value).len() == 36,
        hyphenated_text(value)[8] == '-',
        hyphenated_text(value)[13] == '-',
        hyphenated_text(value)[18] == '-',
        hyphenated_text(value)[23] == '-',
{
    lemma_hex_text_len(value as nat, 32);
}

/// A hexadecimal text has as many characters as digits were asked for.
pub proof fn lemma_hex_text_len(value: nat, digits: nat)
    ensures
        hex_text(value, digits).len() == digits,
    decreases digits,
{
    if digits > 0 {
        lemma_hex_text_len(value / 16, (digits - 1) as nat);
    }
}

/// What is left of `value` after its last `digits` hexadecimal digits are
/// struck off.
pub open spec fn without_digits(value: nat, digits: nat) -> nat
    decreases digits,
{
    if digits == 0 {
        value
    } else {
        without_digits(value / 16, (digits - 1) as nat)
    }
}

/// Sixteen to the power of `digits`.
pub open spec fn sixteen_to(digits: nat) -> nat
    decreases digits,
{
    if digits == 0 {
        1
    } else {
        16 * sixteen_to((digits - 1) as nat)
    }
}

/// A value below sixteen to the power of `digits` has no more than
/// `digits` hexadecimal digits.
pub proof fn lemma_without_digits_is_zero(value: nat, digits: nat)
    requires
        value < sixteen_to(digits),
    ensures
        without_digits(value, digits) == 0,
    decreases digits,
{
    if digits > 0 {
        lemma_without_digits_is_zero(value / 16, (digits - 1) as nat);
    }
}

/// Two values with the same last `digits` hexadecimal digits, and the same
/// digits above those, are one value.
pub proof fn lemma_hex_text_injective(a: nat, b: nat, digits: nat)
    requires
        hex_text(a, digits) == hex_text(b, digits),
        without_digits(a, digits) == without_digits(b, digits),
    ensures
        a == b,
    decreases digits,
{
    if digits > 0 {
        let rest = (digits - 1) as nat;
        let x = hex_text(a / 16, rest).push(hex_digit(a % 16));
        let y = hex_text(b / 16, rest).push(hex_digit(b % 16));
        lemma_hex_text_len(a / 16, rest);
        lemma_hex_text_len(b / 16, rest);
        assert(x.last() == y.last());
        assert(x.drop_last() =~= hex_text(a / 16, rest));
        assert(y.drop_last() =~= hex_text(b / 16, rest));
        lemma_hex_text_injective(a / 16, b / 16, rest);
        assert(hex_digit(a % 16) == hex_digit(b % 16));
        assert(a % 16 == b % 16);
    }
}

/// Two identifiers with one text are one identifier.
pub proof fn lemma_hyphenated_text_injective(a: u128, b: u128)
    requires
        hyphenated_text(a) == hyphenated_text(b),
    ensures
        a == b,
{
    let x = hex_text(a as nat, 32);
    let y = hex_text(b as nat, 32);
    lemma_hex_text_len(a as nat, 32);
    lemma_hex_text_len(b as nat, 32);
    let s = hyphenated_text(a);
    let t = hyphenated_text(b);
    assert forall|i: int| 0 <= i < 32 implies x[i] == y[i] by {
        let at = if i < 8 {
            i
        } else if i < 12 {
            i + 1
        } else if i < 16 {
            i + 2
        } else if i < 20 {
            i + 3
        } else {
            i + 4
        };
        assert(s[at] == x[i]);
        assert(t[at] == y[i]);
    }
    assert(x =~= y);
    assert(sixteen_to(32) == 0x1_0000_0000_0000_0000_0000_0000_0000_0000) by {
        reveal_with_fuel(sixteen_to, 33);
    }
    lemma_without_digits_is_zero(a as nat, 32);
    lemma_without_digits_is_zero(b as nat, 32);
    lemma_hex_text_injective(a as nat, b as nat, 32);
}

/// Whether `c` is a character of a hyphenated text: a lower-case
/// hexadecimal digit or a hyphen.
pub open spec fn is_hyphenated_char(c: char) -> bool {
    ('0' <= c && c <= '9') || ('a' <= c && c <= 'f') || c == '-'
}

/// A hexadecimal text holds hexadecimal digits only.
pub proof fn lemma_hex_text_chars(value: nat, digits: nat)
    ensures
        forall|i: int|
            0 <= i < hex_text(value, digits).len() ==> is_hyphenated_char(
                #[trigger] hex_text(value, digits)[i],
            ),
    decreases digits,
{
    if digits > 0 {
        let rest = hex_text(value / 16, (digits - 1) as nat);
        lemma_hex_text_chars(value / 16, (digits - 1) as nat);
        let all = hex_text(value, digits);
        assert forall|i: int| 0 <= i < all.len() implies is_hyphenated_char(#[trigger] all[i]) by {
            if i < rest.len() {
                assert(all[i] == rest[i]);
            } else {
                assert(all[i] == hex_digit(value % 16));
            }
        }
    }
}

/// A hyphenated text holds lower-case hexadecimal digits and hyphens only.
pub proof fn lemma_hyphenated_text_chars(value: u128)
    ensures
        forall|i: int|
            0 <= i < hyphenated_text(value).len() ==> is_hyphenated_char(
                #[trigger] hyphenated_text(value)[i],
            ),
{
    let h = hex_text(value as nat, 32);
    lemma_hex_text_len(value as nat, 32);
    lemma_hex_text_chars(value as nat, 32);
    let t = hyphenated_text(value);
    assert forall|i: int| 0 <= i < t.len() implies is_hyphenated_char(#[trigger] t[i]) by {
        if i < 8 {
            assert(t[i] == h[i]);
        } else if i == 8 {
        } else if i < 13 {
            assert(t[i] == h[i - 1]);
        } else if i == 13 {
        } else if i < 18 {
            assert(t[i] == h[i - 2]);
        } else if i == 18 {
        } else if i < 23 {
            assert(t[i] == h[i - 3]);
        } else if i == 23 {
        } else {
            assert(t[i] == h[i - 4]);
        }
    }
}

} // verus!
