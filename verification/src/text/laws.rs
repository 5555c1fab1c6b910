//! What holds of the text helpers, said of the characters themselves.
use vstd::prelude::*;
use crate::text::{
    ascii_lower, ascii_upper, decimal, digit_char, hex_digits, hex_number, hex_u32, hex_value,
    is_space, listed, lowered, text_le, trim_back, trim_front, trimmed,
};

verus! {

/// The digits there are, in lower and in upper case.
pub open spec fn lower_digits() -> Seq<char> {
    "0123456789abcdef"@
}

pub open spec fn upper_digits() -> Seq<char> {
    "0123456789ABCDEF"@
}

// ---------------------------------------------------------------------
// Hexadecimal
// ---------------------------------------------------------------------

/// Whether digits, each in either case, spell a number in hexadecimal.
pub open spec fn spells_hex(s: Seq<char>, v: nat) -> bool
    decreases s.len(),
{
    if s.len() == 0 {
        v == 0
    } else {
        &&& s.last() == lower_digits()[(v % 16) as int] || s.last() == upper_digits()[(v
            % 16) as int]
        &&& spells_hex(s.drop_last(), v / 16)
    }
}

proof fn lemma_digits()
    ensures
        lower_digits().len() == 16,
        upper_digits().len() == 16,
        forall|d: int| 0 <= d < 16 ==> hex_value(#[trigger] lower_digits()[d]) == Some(d as nat),
        forall|d: int| 0 <= d < 16 ==> hex_value(#[trigger] upper_digits()[d]) == Some(d as nat),
        forall|d: int| 0 <= d < 16 ==> digit_char(d as nat) == #[trigger] lower_digits()[d],
        forall|c: char|
            (#[trigger] hex_value(c)) matches Some(d) ==> d < 16 && (c == lower_digits()[d as int]
                || c == upper_digits()[d as int]),
        lower_digits()[0] != '+',
{
    reveal_strlit("0123456789abcdef");
    reveal_strlit("0123456789ABCDEF");
    let l = lower_digits();
    let u = upper_digits();
    assert(l =~= seq![
        '0', '1', '2', '3', '4', '5', '6', '7', '8', '9', 'a', 'b', 'c', 'd', 'e', 'f'
    ]);
    assert(u =~= seq![
        '0', '1', '2', '3', '4', '5', '6', '7', '8', '9', 'A', 'B', 'C', 'D', 'E', 'F'
    ]);
    assert forall|c: char| (#[trigger] hex_value(c)) matches Some(d) implies hex_value(c).unwrap()
        < 16 && (c == l[hex_value(c).unwrap() as int] || c == u[hex_value(c).unwrap() as int]) by {
        if hex_value(c) is Some {
            let d = hex_value(c).unwrap() as int;
            if '0' <= c <= '9' {
                assert(c as u32 == l[d] as u32);
            } else if 'a' <= c <= 'f' {
                assert(c as u32 == l[d] as u32);
            } else {
                assert(c as u32 == u[d] as u32);
            }
        }
    }
}

proof fn lemma_spelled_is_read(s: Seq<char>, v: nat)
    requires
        spells_hex(s, v),
    ensures
        hex_number(s) == Some(v),
        s.len() > 0 ==> s[0] != '+',
    decreases s.len(),
{
    lemma_digits();
    if s.len() > 0 {
        lemma_spelled_is_read(s.drop_last(), v / 16);
        let d = (v % 16) as int;
        assert(hex_value(s.last()) == Some(d as nat));
        assert(v == 16 * (v / 16) + v % 16);
        if s.len() == 1 {
            assert(hex_value('+') is None);
        }
    }
}

proof fn lemma_read_is_spelled(s: Seq<char>)
    requires
        hex_number(s) is Some,
    ensures
        spells_hex(s, hex_number(s).unwrap()),
    decreases s.len(),
{
    lemma_digits();
    if s.len() > 0 {
        let rest = s.drop_last();
        lemma_read_is_spelled(rest);
        let a = hex_number(rest).unwrap();
        let d = hex_value(s.last()).unwrap();
        let v = 16 * a + d;
        assert(v / 16 == a && v % 16 == d) by (nonlinear_arith)
            requires
                v == 16 * a + d,
                d < 16,
        ;
    }
}

/// Hexadecimal is read in upper and in lower case alike: digits that spell a
/// 32-bit number are read as that number, with or without a plus sign in
/// front.
pub proof fn law_hex_is_read_in_either_case(s: Seq<char>, v: u32)
    requires
        s.len() > 0,
        spells_hex(s, v as nat),
    ensures
        hex_u32(s) == Some(v),
        hex_u32(seq!['+'] + s) == Some(v),
{
    lemma_spelled_is_read(s, v as nat);
    assert((seq!['+'] + s).skip(1) =~= s);
}

/// Nothing but such digits is read, and nothing that is no 32-bit number: what
/// is read is what the digits spell.
pub proof fn law_only_hex_is_read(s: Seq<char>)
    ensures
        hex_u32(s) matches Some(v) ==> {
            let digits = if s[0] == '+' {
                s.skip(1)
            } else {
                s
            };
            s.len() > 0 && digits.len() > 0 && spells_hex(digits, v as nat)
        },
{
    if hex_u32(s) is Some {
        let digits = if s.len() > 0 && s[0] == '+' {
            s.skip(1)
        } else {
            s
        };
        lemma_read_is_spelled(digits);
    }
}

proof fn lemma_hex_digits(v: nat, n: nat)
    ensures
        hex_digits(v, n).len() == n,
        forall|i: int| 0 <= i < n ==> lower_digits().contains(#[trigger] hex_digits(v, n)[i]),
        v < vstd::arithmetic::power::pow(16, n) ==> spells_hex(hex_digits(v, n), v),
    decreases n,
{
    lemma_digits();
    if n > 0 {
        let m = (n - 1) as nat;
        lemma_hex_digits(v / 16, m);
        let h = hex_digits(v, n);
        assert(h.drop_last() =~= hex_digits(v / 16, m));
        assert(h.last() == lower_digits()[(v % 16) as int]);
        assert forall|i: int| 0 <= i < n implies lower_digits().contains(#[trigger] h[i]) by {
            if i < m {
                assert(h[i] == hex_digits(v / 16, m)[i]);
            }
        }
        vstd::arithmetic::power::lemma_pow1(16);
        vstd::arithmetic::power::lemma_pow_adds(16, 1, m);
        let p = vstd::arithmetic::power::pow(16, m);
        if v < vstd::arithmetic::power::pow(16, n) {
            assert(v / 16 < p) by (nonlinear_arith)
                requires
                    v < 16 * p,
            ;
        }
    } else {
        vstd::arithmetic::power::lemma_pow0(16);
    }
}

/// A number written as eight hexadecimal digits is written in lower case, and
/// read back as that number.
pub proof fn law_hex_is_read_back(v: u32)
    ensures
        hex_digits(v as nat, 8).len() == 8,
        spells_hex(hex_digits(v as nat, 8), v as nat),
        forall|i: int| 0 <= i < 8 ==> lower_digits().contains(#[trigger] hex_digits(v as nat, 8)[i]),
        hex_u32(hex_digits(v as nat, 8)) == Some(v),
{
    lemma_hex_digits(v as nat, 8);
    assert(vstd::arithmetic::power::pow(16, 8) == 0x1_0000_0000) by {
        reveal_with_fuel(vstd::arithmetic::power::pow, 9);
    }
    law_hex_is_read_in_either_case(hex_digits(v as nat, 8), v);
}

// ---------------------------------------------------------------------
// Decimal
// ---------------------------------------------------------------------

/// The number that decimal digits make up.
pub open spec fn decimal_value(s: Seq<char>) -> int
    decreases s.len(),
{
    if s.len() == 0 {
        0
    } else {
        10 * decimal_value(s.drop_last()) + (s.last() as u32 - '0' as u32)
    }
}

/// A number in decimal is made up of digits, has no zero in front but that of
/// zero itself, and makes up that number.
pub proof fn law_decimals_make_up_their_number(n: nat)
    ensures
        decimal_value(decimal(n)) == n,
        decimal(n).len() > 0,
        decimal(n)[0] == '0' ==> n == 0 && decimal(n).len() == 1,
        forall|i: int| 0 <= i < decimal(n).len() ==> '0' <= #[trigger] decimal(n)[i] <= '9',
    decreases n,
{
    let s = decimal(n);
    if n >= 10 {
        let front = decimal(n / 10);
        law_decimals_make_up_their_number(n / 10);
        assert(s.drop_last() =~= front);
        assert(s[0] == front[0]);
        assert forall|i: int| 0 <= i < s.len() implies '0' <= #[trigger] s[i] <= '9' by {
            if i < front.len() {
                assert(s[i] == front[i]);
            }
        }
    } else {
        assert(s.drop_last() =~= Seq::<char>::empty());
        assert(decimal_value(s.drop_last()) == 0);
    }
}

/// Bytes are listed in decimal in their order, with a comma and a space between
/// two of them and none around.
pub proof fn law_bytes_are_listed_in_order(b: Seq<u8>, i: int)
    requires
        0 < i < b.len(),
    ensures
        listed(Seq::empty(), 0) == Seq::<char>::empty(),
        listed(b, 0) == decimal(b[0] as nat) + listed(b, 1),
        listed(b, i) == ", "@ + decimal(b[i] as nat) + listed(b, i + 1),
        listed(b, b.len() as int) == Seq::<char>::empty(),
{
}

// ---------------------------------------------------------------------
// Case, space and order
// ---------------------------------------------------------------------

/// The two cases of an ASCII letter lead to each other, and nothing else has a
/// case.
pub proof fn law_cases_lead_to_each_other(c: char)
    ensures
        'a' <= c <= 'z' ==> 'A' <= ascii_upper(c) <= 'Z' && ascii_lower(ascii_upper(c)) == c,
        'A' <= c <= 'Z' ==> 'a' <= ascii_lower(c) <= 'z' && ascii_upper(ascii_lower(c)) == c,
        !('a' <= c <= 'z') ==> ascii_upper(c) == c,
        !('A' <= c <= 'Z') ==> ascii_lower(c) == c,
        ascii_upper('q') == 'Q',
        ascii_lower('Q') == 'q',
{
}

/// Lowering a text lowers each of its characters in place.
pub proof fn law_lowering_is_by_character(s: Seq<char>, i: int)
    requires
        0 <= i < s.len(),
    ensures
        lowered(s).len() == s.len(),
        lowered(s)[i] == ascii_lower(s[i]),
        lowered(lowered(s)) == lowered(s),
{
    assert(lowered(lowered(s)) =~= lowered(s));
}

/// Of the ASCII characters the blank and the five control characters from the
/// tab on are white space, and no other.
pub proof fn law_ascii_white_space(c: char)
    requires
        c as u32 <= 0x7f,
    ensures
        is_space(c) <==> c == ' ' || c == '\t' || c == '\n' || c == '\r' || c as u32 == 11 || c
            as u32 == 12,
{
}

/// White space around a text is trimmed, all of it and nothing else: what is
/// left begins and ends with something that is no white space.
pub proof fn law_trimming_takes_the_space_around(a: Seq<char>, s: Seq<char>, b: Seq<char>)
    requires
        forall|i: int| 0 <= i < a.len() ==> is_space(#[trigger] a[i]),
        forall|i: int| 0 <= i < b.len() ==> is_space(#[trigger] b[i]),
        s.len() > 0 ==> !is_space(s[0]) && !is_space(s.last()),
    ensures
        trimmed(a + s + b) == s,
        trim_front(a + s + b) == if s.len() > 0 {
            s + b
        } else {
            Seq::empty()
        },
{
    lemma_front(a, s + b);
    assert(a + s + b =~= a + (s + b));
    if s.len() > 0 {
        assert((s + b)[0] == s[0]);
        assert(trim_front(s + b) == s + b);
        lemma_back(s, b);
    } else {
        assert(s + b =~= b);
        lemma_front(b, Seq::empty());
        assert(b + Seq::<char>::empty() =~= b);
        assert(trim_front(Seq::<char>::empty()) =~= Seq::empty());
        assert(s =~= Seq::empty());
    }
}

proof fn lemma_front(a: Seq<char>, s: Seq<char>)
    requires
        forall|i: int| 0 <= i < a.len() ==> is_space(#[trigger] a[i]),
    ensures
        trim_front(a + s) == trim_front(s),
    decreases a.len(),
{
    if a.len() > 0 {
        assert((a + s)[0] == a[0]);
        assert((a + s).skip(1) =~= a.skip(1) + s);
        let rest = a.skip(1);
        assert forall|i: int| 0 <= i < rest.len() implies is_space(#[trigger] rest[i]) by {
            assert(is_space(a[i + 1]));
        }
        lemma_front(rest, s);
    } else {
        assert(a + s =~= s);
    }
}

proof fn lemma_back(s: Seq<char>, b: Seq<char>)
    requires
        forall|i: int| 0 <= i < b.len() ==> is_space(#[trigger] b[i]),
        s.len() > 0,
        !is_space(s.last()),
    ensures
        trim_back(s + b) == s,
    decreases b.len(),
{
    if b.len() > 0 {
        assert((s + b).last() == b.last());
        assert(is_space(b[b.len() - 1]));
        assert((s + b).drop_last() =~= s + b.drop_last());
        let rest = b.drop_last();
        assert forall|i: int| 0 <= i < rest.len() implies is_space(#[trigger] rest[i]) by {
            assert(is_space(b[i]));
        }
        lemma_back(s, rest);
    } else {
        assert(s + b =~= s);
    }
}

/// Texts are ordered by the first character in which they differ; where one
/// continues the other, the shorter comes first.
pub proof fn law_texts_are_ordered_by_their_first_difference(
    common: Seq<char>,
    a: Seq<char>,
    b: Seq<char>,
)
    requires
        a.len() > 0 && b.len() > 0 ==> a[0] != b[0],
    ensures
        a.len() > 0 && b.len() > 0 ==> text_le(common + a, common + b) == (a[0] < b[0]),
        a.len() == 0 ==> text_le(common + a, common + b),
        a.len() > 0 && b.len() == 0 ==> !text_le(common + a, common + b),
    decreases common.len(),
{
    if common.len() > 0 {
        law_texts_are_ordered_by_their_first_difference(common.skip(1), a, b);
        assert((common + a).skip(1) =~= common.skip(1) + a);
        assert((common + b).skip(1) =~= common.skip(1) + b);
        assert((common + a)[0] == (common + b)[0]);
    } else {
        assert(common + a =~= a);
        assert(common + b =~= b);
    }
}

} // verus!
