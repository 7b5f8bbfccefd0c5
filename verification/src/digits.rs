//! Decimal renderings of tile coordinates.
//!
//! Tile coordinates travel in two directions: outward, a `u32` is rendered as
//! the decimal path segment of a tile file; inward, a request path segment is
//! parsed back into a `u32`. Both directions are specified against the same
//! mathematical model of decimal digit strings.

use vstd::prelude::*;

verus! {

/// The digit character for a single decimal digit value (values of ten or
/// more all map to `'9'`; `dec_digits` never hands one in).
pub open spec fn digit_char(d: nat) -> char {
    if d == 0 {
        '0'
    } else if d == 1 {
        '1'
    } else if d == 2 {
        '2'
    } else if d == 3 {
        '3'
    } else if d == 4 {
        '4'
    } else if d == 5 {
        '5'
    } else if d == 6 {
        '6'
    } else if d == 7 {
        '7'
    } else if d == 8 {
        '8'
    } else {
        '9'
    }
}

pub open spec fn is_dec_digit(c: char) -> bool {
    '0' <= c <= '9'
}

/// The numeric value of a decimal digit character.
pub open spec fn digit_value(c: char) -> nat {
    (c as nat - '0' as nat) as nat
}

/// The decimal rendering of `n`: most significant digit first, no sign, and
/// no leading zero (zero itself is the single digit `'0'`).
pub open spec fn dec_digits(n: nat) -> Seq<char>
    decreases n,
{
    if n < 10 {
        seq![digit_char(n)]
    } else {
        dec_digits(n / 10).push(digit_char(n % 10))
    }
}

/// The numeric value of a sequence of decimal digit characters, most
/// significant first.
pub open spec fn dec_value(s: Seq<char>) -> nat
    decreases s.len(),
{
    if s.len() == 0 {
        0
    } else {
        dec_value(s.drop_last()) * 10 + digit_value(s.last())
    }
}

pub open spec fn all_dec_digits(s: Seq<char>) -> bool {
    forall|i: int| 0 <= i < s.len() ==> is_dec_digit(#[trigger] s[i])
}

/// The strings that parse as a `u32` coordinate: non-empty, every character a
/// decimal digit, and the value within range (leading zeros are accepted).
pub open spec fn is_u32_decimal(s: Seq<char>) -> bool {
    s.len() > 0 && all_dec_digits(s) && dec_value(s) <= u32::MAX
}

/// Rendering a value and reading the digits back returns the value: the
/// decimal rendering is faithful.
pub proof fn lemma_dec_digits_value(n: nat)
    ensures
        dec_digits(n).len() > 0,
        all_dec_digits(dec_digits(n)),
        dec_value(dec_digits(n)) == n,
    decreases n,
{
    if n < 10 {
        let s = seq![digit_char(n)];
        assert(s.drop_last() =~= Seq::<char>::empty());
        assert(dec_value(Seq::<char>::empty()) == 0);
        assert(dec_value(s) == dec_value(s.drop_last()) * 10 + digit_value(s.last()));
        assert(s.last() == digit_char(n));
    } else {
        lemma_dec_digits_value(n / 10);
        let prefix = dec_digits(n / 10);
        let s = prefix.push(digit_char(n % 10));
        assert(s.drop_last() =~= prefix);
        assert(s.last() == digit_char(n % 10));
        assert forall|i: int| 0 <= i < s.len() implies is_dec_digit(#[trigger] s[i]) by {
            if i < prefix.len() {
                assert(is_dec_digit(prefix[i]));
            }
        }
        assert(dec_value(s) == (n / 10) * 10 + (n % 10));
        assert((n / 10) * 10 + (n % 10) == n) by {
            vstd::arithmetic::div_mod::lemma_fundamental_div_mod(n as int, 10);
        }
    }
}

/// A prefix of a digit string never exceeds the whole string in value:
/// appending digits can only multiply the value up.
pub proof fn lemma_dec_value_prefix_le(s: Seq<char>, i: int)
    requires
        0 <= i <= s.len(),
    ensures
        dec_value(s.take(i)) <= dec_value(s),
    decreases s.len() - i,
{
    if i == s.len() {
        assert(s.take(i) =~= s);
    } else {
        let shorter = s.take(i);
        let longer = s.take(i + 1);
        assert(longer.drop_last() =~= shorter);
        assert(longer.last() == s[i]);
        assert(dec_value(longer) == dec_value(shorter) * 10 + digit_value(s[i]));
        lemma_dec_value_prefix_le(s, i + 1);
    }
}

/// Appending to equal sequences from the left cancels: the suffixes agree.
pub(crate) proof fn lemma_concat_cancel_left(a: Seq<char>, b1: Seq<char>, b2: Seq<char>)
    requires
        a + b1 == a + b2,
    ensures
        b1 == b2,
{
    assert((a + b1).len() == a.len() + b1.len());
    assert((a + b2).len() == a.len() + b2.len());
    assert forall|i: int| 0 <= i < b1.len() implies b1[i] == b2[i] by {
        assert((a + b1)[a.len() + i] == b1[i]);
        assert((a + b2)[a.len() + i] == b2[i]);
    }
    assert(b1 =~= b2);
}

/// A run of digits up to a non-digit separator is read off a string
/// uniquely: if two digit-runs followed by the separator and a tail spell
/// the same string, the runs agree and the tails agree.
pub(crate) proof fn lemma_digits_sep_unique(
    a1: Seq<char>,
    t1: Seq<char>,
    a2: Seq<char>,
    t2: Seq<char>,
    sep: char,
)
    requires
        all_dec_digits(a1),
        all_dec_digits(a2),
        !is_dec_digit(sep),
        a1 + seq![sep] + t1 == a2 + seq![sep] + t2,
    ensures
        a1 == a2,
        t1 == t2,
{
    let s = a1 + seq![sep] + t1;
    assert(s.len() == a1.len() + 1 + t1.len());
    assert(s.len() == a2.len() + 1 + t2.len());
    if a1.len() < a2.len() {
        let i = a1.len() as int;
        assert(s[i] == sep);
        assert((a2 + seq![sep] + t2)[i] == a2[i]);
        assert(is_dec_digit(a2[i]));
        assert(false);
    }
    if a2.len() < a1.len() {
        let i = a2.len() as int;
        assert((a2 + seq![sep] + t2)[i] == sep);
        assert(s[i] == a1[i]);
        assert(is_dec_digit(a1[i]));
        assert(false);
    }
    assert forall|i: int| 0 <= i < a1.len() implies a1[i] == a2[i] by {
        assert(s[i] == a1[i]);
        assert((a2 + seq![sep] + t2)[i] == a2[i]);
    }
    assert(a1 =~= a2);
    assert forall|i: int| 0 <= i < t1.len() implies t1[i] == t2[i] by {
        assert(s[a1.len() + 1 + i] == t1[i]);
        assert((a2 + seq![sep] + t2)[a2.len() + 1 + i] == t2[i]);
    }
    assert(t1 =~= t2);
}

/// The one-character string slice for a decimal digit value.
fn digit_str(d: u32) -> (s: &'static str)
    requires
        d < 10,
    ensures
        s@ == seq![digit_char(d as nat)],
{
    let s: &'static str = if d == 0 {
        "0"
    } else if d == 1 {
        "1"
    } else if d == 2 {
        "2"
    } else if d == 3 {
        "3"
    } else if d == 4 {
        "4"
    } else if d == 5 {
        "5"
    } else if d == 6 {
        "6"
    } else if d == 7 {
        "7"
    } else if d == 8 {
        "8"
    } else {
        "9"
    };
    proof {
        reveal_strlit("0");
        reveal_strlit("1");
        reveal_strlit("2");
        reveal_strlit("3");
        reveal_strlit("4");
        reveal_strlit("5");
        reveal_strlit("6");
        reveal_strlit("7");
        reveal_strlit("8");
        reveal_strlit("9");
        assert(s@ =~= seq![digit_char(d as nat)]);
    }
    s
}

/// Appends the decimal rendering of `n` to `out`.
pub fn push_decimal(out: &mut String, n: u32)
    ensures
        final(out)@ == old(out)@ + dec_digits(n as nat),
    decreases n,
{
    if n >= 10 {
        push_decimal(out, n / 10);
    }
    let d = n % 10;
    out.append(digit_str(d));
    proof {
        assert(out@ =~= old(out)@ + dec_digits(n as nat));
    }
}

/// The decimal rendering of `n` as a fresh string.
pub fn u32_to_decimal(n: u32) -> (s: String)
    ensures
        s@ == dec_digits(n as nat),
{
    let mut s = String::new();
    push_decimal(&mut s, n);
    proof {
        assert(s@ =~= dec_digits(n as nat));
    }
    s
}

/// Parses a path segment as a non-negative decimal integer, exactly as the
/// tile route accepts one: a value comes back if and only if the segment is
/// non-empty, all decimal digits, and in range for `u32`.
pub fn parse_decimal_u32(s: &str) -> (r: Option<u32>)
    ensures
        r is Some <==> is_u32_decimal(s@),
        r is Some ==> r->Some_0 as nat == dec_value(s@),
{
    let len = s.unicode_len();
    if len == 0 {
        return None;
    }
    let mut acc: u32 = 0;
    let mut i: usize = 0;
    while i < len
        invariant
            0 < len == s@.len(),
            0 <= i <= len,
            all_dec_digits(s@.take(i as int)),
            acc as nat == dec_value(s@.take(i as int)),
        decreases len - i,
    {
        let c = s.get_char(i);
        if c < '0' || c > '9' {
            proof {
                assert(!is_dec_digit(s@[i as int]));
            }
            return None;
        }
        let d = (c as u32) - 48;
        proof {
            assert(s@.take(i as int + 1).drop_last() =~= s@.take(i as int));
            assert(s@.take(i as int + 1).last() == s@[i as int]);
            assert(dec_value(s@.take(i as int + 1)) == acc as nat * 10 + d as nat);
        }
        if acc > (u32::MAX - d) / 10 {
            proof {
                assert(acc as nat * 10 + d as nat > u32::MAX) by {
                    vstd::arithmetic::div_mod::lemma_fundamental_div_mod(
                        (u32::MAX - d) as int,
                        10,
                    );
                }
                lemma_dec_value_prefix_le(s@, i as int + 1);
            }
            return None;
        }
        proof {
            assert(acc as nat * 10 + d as nat <= u32::MAX) by {
                vstd::arithmetic::div_mod::lemma_fundamental_div_mod((u32::MAX - d) as int, 10);
            }
        }
        acc = acc * 10 + d;
        i = i + 1;
    }
    proof {
        assert(s@.take(len as int) =~= s@);
    }
    Some(acc)
}

} // verus!
