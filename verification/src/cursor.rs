//! Cursors: opaque tokens that carry the zero-based position of an element.
//!
//! A cursor is the position written in decimal, without sign and without
//! leading zeros. Exactly these texts decode, so every token has one position
//! and every position one token.

use vstd::prelude::*;
use vstd::string::*;

verus! {

/// Whether `c` is one of the ten decimal digits.
pub open spec fn is_digit(c: char) -> bool {
    '0' <= c && c <= '9'
}

/// The number that the digit `c` stands for.
pub open spec fn digit_value(c: char) -> nat {
    (c as int - '0' as int) as nat
}

/// The digit that stands for `d`, for `d` below ten.
pub open spec fn digit_char(d: nat) -> char {
    ('0' as int + d as int) as char
}

/// The token of position `n`: its decimal digits, most significant first.
pub open spec fn cursor_text(n: nat) -> Seq<char>
    decreases n,
{
    if n < 10 {
        seq![digit_char(n)]
    } else {
        cursor_text(n / 10).push(digit_char(n % 10))
    }
}

/// The number that a run of digits denotes, read most significant first.
pub open spec fn digits_value(s: Seq<char>) -> nat
    decreases s.len(),
{
    if s.len() == 0 {
        0
    } else {
        digits_value(s.drop_last()) * 10 + digit_value(s.last())
    }
}

/// Whether `s` is a well-formed token: one digit at least, digits only, and
/// no leading zero on a token of two digits or more.
pub open spec fn is_canonical(s: Seq<char>) -> bool {
    &&& s.len() > 0
    &&& forall|i: int| 0 <= i < s.len() ==> is_digit(#[trigger] s[i])
    &&& (s.len() > 1 ==> s[0] != '0')
}

/// The position that a token carries, if it is well formed.
pub open spec fn cursor_ordinal(s: Seq<char>) -> Option<nat> {
    if is_canonical(s) {
        Some(digits_value(s))
    } else {
        None
    }
}

/// A digit converts to its value and back.
pub proof fn lemma_digit_char(d: nat)
    requires
        d < 10,
    ensures
        is_digit(digit_char(d)),
        digit_value(digit_char(d)) == d,
        digit_char(0) == '0',
{
}

/// The token of a position is well formed, and of a positive value unless
/// the position is zero.
pub proof fn lemma_cursor_text_canonical(n: nat)
    ensures
        is_canonical(cursor_text(n)),
        digits_value(cursor_text(n)) == n,
        n > 0 ==> cursor_text(n)[0] != '0',
    decreases n,
{
    lemma_digit_char(n % 10);
    if n < 10 {
        let s = cursor_text(n);
        assert(s.len() == 1);
        assert(s.drop_last().len() == 0);
        assert(digits_value(s.drop_last()) == 0);
        assert(s.last() == digit_char(n));
    } else {
        let p = cursor_text(n / 10);
        lemma_cursor_text_canonical(n / 10);
        let s = cursor_text(n);
        assert(s == p.push(digit_char(n % 10)));
        assert(s.drop_last() =~= p);
        assert(s.last() == digit_char(n % 10));
        assert(s[0] == p[0]);
        assert forall|i: int| 0 <= i < s.len() implies is_digit(#[trigger] s[i]) by {
            if i < p.len() {
                assert(s[i] == p[i]);
            }
        }
    }
}

/// A well-formed token is the token of the position that it carries.
pub proof fn lemma_canonical_is_cursor_text(s: Seq<char>)
    requires
        is_canonical(s),
    ensures
        cursor_text(digits_value(s)) == s,
        s.len() > 1 ==> digits_value(s) >= 10,
        s[0] != '0' ==> digits_value(s) > 0,
    decreases s.len(),
{
    let d = digit_value(s.last());
    assert(is_digit(s.last()));
    assert(digit_char(d) == s.last());
    if s.len() == 1 {
        assert(s.drop_last().len() == 0);
        assert(digits_value(s.drop_last()) == 0);
        assert(digits_value(s) == d);
        assert(cursor_text(d) =~= s);
    } else {
        let p = s.drop_last();
        assert forall|i: int| 0 <= i < p.len() implies is_digit(#[trigger] p[i]) by {
            assert(p[i] == s[i]);
        }
        assert(p[0] == s[0]);
        if p.len() == 1 {
            assert(p.drop_last().len() == 0);
            assert(digits_value(p.drop_last()) == 0);
            assert(is_digit(p[0]));
            assert(digits_value(p) == digit_value(p[0]));
            assert(digits_value(p) > 0);
        }
        lemma_canonical_is_cursor_text(p);
        let v = digits_value(p);
        assert(v > 0);
        assert(digits_value(s) == v * 10 + d);
        assert((v * 10 + d) / 10 == v);
        assert((v * 10 + d) % 10 == d);
        assert(cursor_text(v * 10 + d) == cursor_text(v).push(digit_char(d)));
        assert(p.push(s.last()) =~= s);
    }
}

/// Encoding then decoding gives the position back, and a text decodes only
/// if it is the encoding of what it decodes to.
pub proof fn lemma_cursor_round_trip(n: nat)
    ensures
        cursor_ordinal(cursor_text(n)) == Some(n),
        forall|s: Seq<char>| cursor_ordinal(s) == Some(n) ==> s == cursor_text(n),
{
    lemma_cursor_text_canonical(n);
    assert forall|s: Seq<char>| cursor_ordinal(s) == Some(n) implies s == cursor_text(n) by {
        lemma_canonical_is_cursor_text(s);
    }
}

/// Two positions with one token are one position.
pub proof fn lemma_cursor_text_injective(a: nat, b: nat)
    requires
        cursor_text(a) == cursor_text(b),
    ensures
        a == b,
{
    lemma_cursor_text_canonical(a);
    lemma_cursor_text_canonical(b);
}

/// A run of digits denotes at least what any of its prefixes denotes.
pub proof fn lemma_digits_value_prefix(s: Seq<char>, k: int)
    requires
        0 <= k <= s.len(),
    ensures
        digits_value(s.take(k)) <= digits_value(s),
    decreases s.len() - k,
{
    if k == s.len() {
        assert(s.take(k) =~= s);
    } else {
        lemma_digits_value_prefix(s, k + 1);
        let t = s.take(k + 1);
        assert(t.drop_last() =~= s.take(k));
        assert(digits_value(t) == digits_value(s.take(k)) * 10 + digit_value(t.last()));
    }
}

/// The one-character text of the digit `d`.
fn digit_str(d: usize) -> (r: &'static str)
    requires
        d < 10,
    ensures
        r@ == seq![digit_char(d as nat)],
{
    proof {
        reveal_strlit("0");
        reveal_strlit("1");
        reveal_strlit("2");
        reveal_strlit("3");
        reveal_strlit("4");
        reveal_strlit("5");
        reveal_strlit("6");
        reveal_strlit("7");
        reveal_strlit("8");
        reveal_strlit("9");
    }
    let r = if d == 0 {
        "0"
    } else if d == 1 {
        "1"
    } else if d == 2 {
        "2"
    } else if d == 3 {
        "3"
    } else if d == 4 {
        "4"
    } else if d == 5 {
        "5"
    } else if d == 6 {
        "6"
    } else if d == 7 {
        "7"
    } else if d == 8 {
        "8"
    } else {
        "9"
    };
    assert(r@ =~= seq![digit_char(d as nat)]);
    r
}

/// Appends the token of `n` to `out`.
fn push_cursor_text(n: usize, out: &mut String)
    ensures
        final(out)@ == old(out)@ + cursor_text(n as nat),
    decreases n,
{
    if n >= 10 {
        push_cursor_text(n / 10, out);
    }
    out.append(digit_str(n % 10));
    proof {
        let d = digit_char((n % 10) as nat);
        if n >= 10 {
            let p = cursor_text((n / 10) as nat);
            assert((old(out)@ + p) + seq![d] =~= old(out)@ + p.push(d));
        }
    }
}

/// Writes the token of the position `ordinal`.
pub fn encode_cursor(ordinal: usize) -> (token: String)
    ensures
        token@ == cursor_text(ordinal as nat),
        cursor_ordinal(token@) == Some(ordinal as nat),
{
    let mut token = String::new();
    push_cursor_text(ordinal, &mut token);
    proof {
        assert(Seq::<char>::empty() + cursor_text(ordinal as nat) =~= cursor_text(ordinal as nat));
        lemma_cursor_text_canonical(ordinal as nat);
    }
    token
}

/// Reads the position out of a token. A text that is no well-formed token,
/// or whose position does not fit the machine word, has none.
pub fn decode_cursor(token: &str) -> (ordinal: Option<usize>)
    ensures
        ordinal == match cursor_ordinal(token@) {
            Some(n) if n <= usize::MAX => Some(n as usize),
            _ => None::<usize>,
        },
        ordinal matches Some(i) ==> token@ == cursor_text(i as nat),
{
    let len = token.unicode_len();
    if len == 0 {
        return None;
    }
    let mut value: usize = 0;
    let mut i: usize = 0;
    while i < len
        invariant
            len == token@.len(),
            0 <= i <= len,
            forall|j: int| 0 <= j < i ==> is_digit(#[trigger] token@[j]),
            i > 1 ==> token@[0] != '0',
            value == digits_value(token@.take(i as int)),
        decreases len - i,
    {
        let c = token.get_char(i);
        if c < '0' || c > '9' {
            return None;
        }
        if i == 1 && token.get_char(0) == '0' {
            return None;
        }
        let d: usize = (c as u8 - 48u8) as usize;
        proof {
            let t = token@.take(i as int + 1);
            assert(t.drop_last() =~= token@.take(i as int));
            assert(t.last() == c);
            assert(digits_value(t) == value * 10 + d);
            lemma_digits_value_prefix(token@, i as int + 1);
        }
        let scaled = match value.checked_mul(10) {
            Some(v) => v,
            None => {
                return None;
            },
        };
        value = match scaled.checked_add(d) {
            Some(v) => v,
            None => {
                return None;
            },
        };
        i += 1;
    }
    proof {
        assert(token@.take(len as int) =~= token@);
        lemma_canonical_is_cursor_text(token@);
    }
    Some(value)
}

} // verus!
