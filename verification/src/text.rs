//! Text helpers over character sequences.
use vstd::prelude::*;
use vstd::utf8::{decode_utf8, encode_utf8, valid_utf8};

pub mod laws;

verus! {

/// What `String::from_utf8_lossy` makes of a byte string that is not
/// well-formed UTF-8: the text with every malformed stretch replaced.
pub uninterp spec fn utf8_repaired(bytes: Seq<u8>) -> Seq<char>;

/// The text of a byte string: what it encodes where it is well-formed, and
/// the repaired text otherwise.
pub open spec fn lossy_text(bytes: Seq<u8>) -> Seq<char> {
    if valid_utf8(bytes) {
        decode_utf8(bytes)
    } else {
        utf8_repaired(bytes)
    }
}

/// Text that was encoded comes back as it was.
pub proof fn lemma_lossy_text_of_encoded(text: Seq<char>)
    ensures
        lossy_text(encode_utf8(text)) == text,
{
    broadcast use {vstd::utf8::encode_utf8_valid_utf8, vstd::utf8::encode_utf8_decode_utf8};

}

/// `String::from_utf8_lossy`. Well-formed UTF-8 comes back as the text it
/// encodes; what stands for a malformed stretch is left to the name.
#[verifier::external_body]
pub(crate) fn from_utf8_lossy(bytes: &[u8]) -> (s: String)
    ensures
        s@ == (if valid_utf8(bytes@) {
            decode_utf8(bytes@)
        } else {
            utf8_repaired(bytes@)
        }),
{
    String::from_utf8_lossy(bytes).into_owned()
}

/// `String::from_utf8`: the text a byte string encodes, and nothing where it
/// is not well-formed UTF-8.
#[verifier::external_body]
pub(crate) fn text_from_utf8(bytes: Vec<u8>) -> (t: Option<String>)
    ensures
        match t {
            Some(t) => valid_utf8(bytes@) && t@ == decode_utf8(bytes@),
            None => !valid_utf8(bytes@),
        },
{
    String::from_utf8(bytes).ok()
}

/// `String::push` appends one character.
pub assume_specification[ String::push ](s: &mut String, c: char)
    ensures
        final(s)@ == old(s)@.push(c),
;

// ---------------------------------------------------------------------
// Characters
// ---------------------------------------------------------------------

/// The characters Unicode counts as white space.
pub open spec fn is_space(c: char) -> bool {
    let u = c as u32;
    ||| 9 <= u <= 13
    ||| u == 0x20 || u == 0x85 || u == 0xa0 || u == 0x1680
    ||| 0x2000 <= u <= 0x200a
    ||| u == 0x2028 || u == 0x2029 || u == 0x202f || u == 0x205f || u == 0x3000
}

pub fn char_is_space(c: char) -> (b: bool)
    ensures
        b == is_space(c),
{
    let u: u32 = c as u32;
    (9 <= u && u <= 13) || u == 0x20 || u == 0x85 || u == 0xa0 || u == 0x1680 || (0x2000 <= u && u
        <= 0x200a) || u == 0x2028 || u == 0x2029 || u == 0x202f || u == 0x205f || u == 0x3000
}

/// An ASCII letter in upper case; any other character as it is.
pub open spec fn ascii_upper(c: char) -> char {
    if 'a' <= c <= 'z' {
        (c as u32 - 32) as char
    } else {
        c
    }
}

/// An ASCII letter in lower case; any other character as it is.
pub open spec fn ascii_lower(c: char) -> char {
    if 'A' <= c <= 'Z' {
        (c as u32 + 32) as char
    } else {
        c
    }
}

pub fn char_ascii_upper(c: char) -> (u: char)
    ensures
        u == ascii_upper(c),
{
    if 'a' <= c && c <= 'z' {
        ((c as u8) - 32) as char
    } else {
        c
    }
}

pub fn char_ascii_lower(c: char) -> (u: char)
    ensures
        u == ascii_lower(c),
{
    if 'A' <= c && c <= 'Z' {
        ((c as u8) + 32) as char
    } else {
        c
    }
}

// ---------------------------------------------------------------------
// Strings as character lists
// ---------------------------------------------------------------------

/// The characters of a text.
pub fn chars_of(s: &str) -> (v: Vec<char>)
    ensures
        v@ == s@,
{
    let mut v: Vec<char> = Vec::new();
    for c in it: s.chars()
        invariant
            v@ == it.seq().take(it.index() as int),
            it.seq() == s@,
    {
        v.push(c);
        assert(it.seq().take(it.index() + 1) =~= it.seq().take(it.index() as int).push(c));
    }
    assert(v@ =~= s@);
    v
}

/// The text of a run of characters.
pub fn text_from(v: &[char]) -> (s: String)
    ensures
        s@ == v@,
{
    let mut s = String::new();
    let mut i: usize = 0;
    while i < v.len()
        invariant
            i <= v@.len(),
            s@ == v@.take(i as int),
        decreases v@.len() - i,
    {
        s.push(v[i]);
        i = i + 1;
        assert(v@.take(i as int) =~= v@.take(i - 1).push(v@[i - 1]));
    }
    assert(v@.take(i as int) =~= v@);
    s
}

/// A text without the white space in front.
pub open spec fn trim_front(s: Seq<char>) -> Seq<char>
    decreases s.len(),
{
    if s.len() > 0 && is_space(s[0]) {
        trim_front(s.skip(1))
    } else {
        s
    }
}

/// A text without the white space behind.
pub open spec fn trim_back(s: Seq<char>) -> Seq<char>
    decreases s.len(),
{
    if s.len() > 0 && is_space(s.last()) {
        trim_back(s.drop_last())
    } else {
        s
    }
}

/// A text without the white space around it.
pub open spec fn trimmed(s: Seq<char>) -> Seq<char> {
    trim_back(trim_front(s))
}

/// The characters of a text without the white space around it.
pub fn trim(s: &[char]) -> (t: &[char])
    ensures
        t@ == trimmed(s@),
{
    let mut a: usize = 0;
    let mut b: usize = s.len();
    proof {
        assert(s@.skip(0) =~= s@);
    }
    while a < b && char_is_space(s[a])
        invariant
            a <= b,
            b == s@.len(),
            trim_front(s@.skip(a as int)) == trim_front(s@),
        decreases b - a,
    {
        proof {
            assert(s@.skip(a as int).skip(1) =~= s@.skip(a + 1));
        }
        a = a + 1;
    }
    let ghost front = s@.skip(a as int);
    proof {
        assert(trim_front(s@) == front);
        assert(front =~= s@.subrange(a as int, b as int));
    }
    while b > a && char_is_space(s[b - 1])
        invariant
            a <= b <= s@.len(),
            front == s@.skip(a as int),
            trim_back(s@.subrange(a as int, b as int)) == trim_back(front),
        decreases b,
    {
        proof {
            assert(s@.subrange(a as int, b as int).drop_last() =~= s@.subrange(
                a as int,
                b - 1,
            ));
        }
        b = b - 1;
    }
    vstd::slice::slice_subrange(s, a, b)
}

/// Trimming twice is trimming once.
pub proof fn lemma_trim_again(s: Seq<char>)
    ensures
        trimmed(trimmed(s)) == trimmed(s),
        trimmed(s).len() > 0 ==> !is_space(trimmed(s)[0]) && !is_space(trimmed(s).last()),
{
    let f = trim_front(s);
    lemma_trim_front(s);
    lemma_trim_back(f);
    let t = trim_back(f);
    if t.len() > 0 {
        assert(t[0] == f[0]);
    }
}

proof fn lemma_trim_front(s: Seq<char>)
    ensures
        trim_front(s).len() <= s.len(),
        trim_front(s).len() > 0 ==> !is_space(trim_front(s)[0]),
    decreases s.len(),
{
    if s.len() > 0 && is_space(s[0]) {
        lemma_trim_front(s.skip(1));
    }
}

proof fn lemma_trim_back(s: Seq<char>)
    ensures
        trim_back(s).len() <= s.len(),
        trim_back(s) == s.take(trim_back(s).len() as int),
        trim_back(s).len() > 0 ==> !is_space(trim_back(s).last()),
    decreases s.len(),
{
    if s.len() > 0 && is_space(s.last()) {
        lemma_trim_back(s.drop_last());
        let n = trim_back(s).len() as int;
        assert(s.drop_last().take(n) =~= s.take(n));
    } else {
        assert(s.take(s.len() as int) =~= s);
    }
}

/// Whether two texts are the same.
pub fn same_text(a: &str, b: &str) -> (same: bool)
    ensures
        same == (a@ == b@),
{
    let x = chars_of(a);
    let y = chars_of(b);
    same_chars(x.as_slice(), y.as_slice())
}

/// A text as `{:?}` shows it: between double quotes, with what would be
/// mistaken inside them escaped.
pub uninterp spec fn debug_quoted(s: Seq<char>) -> Seq<char>;

/// std's `Debug` of a `str`, through `format!`: the text between double quotes,
/// escaped. Which characters are escaped, and how, is left to the name.
#[verifier::external_body]
pub(crate) fn quoted(s: &str) -> (t: String)
    ensures
        t@ == debug_quoted(s@),
{
    format!("{:?}", s)
}

// ---------------------------------------------------------------------
// Numbers as text
// ---------------------------------------------------------------------

/// A digit up to 15, in lower case.
pub open spec fn digit_char(d: nat) -> char {
    if d < 10 {
        (48 + d) as char
    } else {
        (87 + d) as char
    }
}

fn char_of_digit(d: u8) -> (c: char)
    requires
        d < 16,
    ensures
        c == digit_char(d as nat),
{
    if d < 10 {
        (48 + d) as char
    } else {
        (87 + d) as char
    }
}

/// A number in decimal.
pub open spec fn decimal(n: nat) -> Seq<char>
    decreases n,
{
    if n < 10 {
        seq![digit_char(n)]
    } else {
        decimal(n / 10).push(digit_char(n % 10))
    }
}

/// A number as hexadecimal digits, `n` of them.
pub open spec fn hex_digits(v: nat, n: nat) -> Seq<char>
    decreases n,
{
    if n == 0 {
        Seq::<char>::empty()
    } else {
        hex_digits(v / 16, (n - 1) as nat).push(digit_char(v % 16))
    }
}

/// Append a number in decimal.
pub fn push_decimal(out: &mut String, n: u64)
    ensures
        final(out)@ == old(out)@ + decimal(n as nat),
    decreases n,
{
    if n >= 10 {
        push_decimal(out, n / 10);
    }
    out.push(char_of_digit((n % 10) as u8));
    assert(out@ =~= old(out)@ + decimal(n as nat));
}

/// Bytes in decimal, from a position on, with `", "` between them.
pub open spec fn listed(b: Seq<u8>, i: int) -> Seq<char>
    decreases b.len() - i,
{
    if i >= b.len() {
        Seq::<char>::empty()
    } else if i == 0 {
        decimal(b[0] as nat) + listed(b, 1)
    } else {
        ", "@ + decimal(b[i] as nat) + listed(b, i + 1)
    }
}

/// Append bytes in decimal, with `", "` between them.
pub fn push_listed(out: &mut String, b: &[u8])
    ensures
        final(out)@ == old(out)@ + listed(b@, 0),
{
    let mut i: usize = 0;
    let ghost all = out@ + listed(b@, 0);
    while i < b.len()
        invariant
            i <= b@.len(),
            out@ + listed(b@, i as int) == all,
        decreases b@.len() - i,
    {
        let ghost before = out@;
        if i > 0 {
            out.append(", ");
        }
        push_decimal(out, b[i] as u64);
        proof {
            assert(out@ + listed(b@, i + 1) =~= before + listed(b@, i as int));
        }
        i = i + 1;
    }
    assert(out@ =~= all);
}

/// Append a number as `n` hexadecimal digits.
pub fn push_hex(out: &mut String, v: u32, n: u8)
    ensures
        final(out)@ == old(out)@ + hex_digits(v as nat, n as nat),
    decreases n,
{
    if n > 0 {
        push_hex(out, v / 16, n - 1);
        out.push(char_of_digit((v % 16) as u8));
    }
    assert(out@ =~= old(out)@ + hex_digits(v as nat, n as nat));
}

/// The value of a hexadecimal digit.
pub open spec fn hex_value(c: char) -> Option<nat> {
    if '0' <= c <= '9' {
        Some((c as u32 - 48) as nat)
    } else if 'a' <= c <= 'f' {
        Some((c as u32 - 87) as nat)
    } else if 'A' <= c <= 'F' {
        Some((c as u32 - 55) as nat)
    } else {
        None
    }
}

fn hex_digit_value(c: char) -> (v: Option<u32>)
    ensures
        match v {
            Some(v) => hex_value(c) == Some(v as nat) && v < 16,
            None => hex_value(c) is None,
        },
{
    if '0' <= c && c <= '9' {
        Some(c as u32 - 48)
    } else if 'a' <= c && c <= 'f' {
        Some(c as u32 - 87)
    } else if 'A' <= c && c <= 'F' {
        Some(c as u32 - 55)
    } else {
        None
    }
}

/// The number hexadecimal digits spell; `None` where one of them is no digit.
pub open spec fn hex_number(s: Seq<char>) -> Option<nat>
    decreases s.len(),
{
    if s.len() == 0 {
        Some(0)
    } else {
        match (hex_number(s.drop_last()), hex_value(s.last())) {
            (Some(v), Some(d)) => Some(16 * v + d),
            _ => None,
        }
    }
}

/// The 32-bit number a text spells in hexadecimal: an optional plus sign and
/// one or more digits.
pub open spec fn hex_u32(s: Seq<char>) -> Option<u32> {
    let digits = if s.len() > 0 && s[0] == '+' {
        s.skip(1)
    } else {
        s
    };
    if digits.len() == 0 {
        None
    } else {
        match hex_number(digits) {
            None => None,
            Some(v) => if v <= u32::MAX {
                Some(v as u32)
            } else {
                None
            },
        }
    }
}

proof fn lemma_hex_grows(s: Seq<char>, i: int)
    requires
        0 <= i <= s.len(),
    ensures
        hex_number(s.take(i)) is None ==> hex_number(s) is None,
        (hex_number(s.take(i)) matches Some(a) && hex_number(s) matches Some(b)) ==> hex_number(
            s.take(i),
        )->Some_0 <= hex_number(s)->Some_0,
    decreases s.len() - i,
{
    if i < s.len() {
        assert(s.take(i + 1).drop_last() =~= s.take(i));
        lemma_hex_grows(s, i + 1);
    } else {
        assert(s.take(i) =~= s);
    }
}

pub fn parse_hex_u32(s: &[char]) -> (v: Option<u32>)
    ensures
        v == hex_u32(s@),
{
    let start: usize = if s.len() > 0 && s[0] == '+' {
        1
    } else {
        0
    };
    let ghost digits = s@.skip(start as int);
    proof {
        assert(s@.skip(0) =~= s@);
        assert(digits.take(0) =~= Seq::<char>::empty());
    }
    if start >= s.len() {
        return None;
    }
    let mut v: u32 = 0;
    let mut i: usize = start;
    while i < s.len()
        invariant
            start <= i <= s@.len(),
            start <= 1,
            digits == s@.skip(start as int),
            digits.len() > 0,
            hex_u32(s@) == (match hex_number(digits) {
                None => None,
                Some(v) => if v <= u32::MAX {
                    Some(v as u32)
                } else {
                    None
                },
            }),
            hex_number(digits.take(i - start)) == Some(v as nat),
        decreases s@.len() - i,
    {
        proof {
            let upto = digits.take(i + 1 - start);
            assert(upto.drop_last() =~= digits.take(i - start));
            assert(upto.last() == s@[i as int]);
            lemma_hex_grows(digits, i + 1 - start);
        }
        match hex_digit_value(s[i]) {
            None => {
                return None;
            },
            Some(d) => {
                if v > (u32::MAX - d) / 16 {
                    return None;
                }
                v = 16 * v + d;
            },
        }
        i = i + 1;
    }
    proof {
        assert(digits.take(i - start) =~= digits);
    }
    Some(v)
}

// ---------------------------------------------------------------------
// Order
// ---------------------------------------------------------------------

/// Whether one text comes before another or is the same: by the first
/// character that differs, a text before its continuations.
pub open spec fn text_le(a: Seq<char>, b: Seq<char>) -> bool
    decreases a.len(),
{
    if a.len() == 0 {
        true
    } else if b.len() == 0 {
        false
    } else if a[0] != b[0] {
        a[0] < b[0]
    } else {
        text_le(a.skip(1), b.skip(1))
    }
}

pub fn texts_in_order(a: &[char], b: &[char]) -> (le: bool)
    ensures
        le == text_le(a@, b@),
{
    let mut i: usize = 0;
    proof {
        assert(a@.skip(0) =~= a@);
        assert(b@.skip(0) =~= b@);
    }
    while i < a.len()
        invariant
            i <= a@.len(),
            i <= b@.len(),
            text_le(a@, b@) == text_le(a@.skip(i as int), b@.skip(i as int)),
        decreases a@.len() - i,
    {
        if i >= b.len() {
            return false;
        }
        if a[i] != b[i] {
            return a[i] < b[i];
        }
        proof {
            assert(a@.skip(i as int).skip(1) =~= a@.skip(i + 1));
            assert(b@.skip(i as int).skip(1) =~= b@.skip(i + 1));
        }
        i = i + 1;
    }
    true
}

/// Any two texts are in one order or the other.
pub proof fn lemma_text_le_total(a: Seq<char>, b: Seq<char>)
    ensures
        text_le(a, b) || text_le(b, a),
        text_le(a, b) && text_le(b, a) ==> a == b,
    decreases a.len(),
{
    if a.len() > 0 && b.len() > 0 && a[0] == b[0] {
        lemma_text_le_total(a.skip(1), b.skip(1));
        if text_le(a, b) && text_le(b, a) {
            assert(a =~= seq![a[0]] + a.skip(1));
            assert(b =~= seq![b[0]] + b.skip(1));
        }
    } else if a.len() == 0 && b.len() == 0 {
        assert(a =~= b);
    }
}

/// The order is transitive.
pub proof fn lemma_text_le_trans(a: Seq<char>, b: Seq<char>, c: Seq<char>)
    requires
        text_le(a, b),
        text_le(b, c),
    ensures
        text_le(a, c),
    decreases a.len(),
{
    if a.len() > 0 && b.len() > 0 && c.len() > 0 && a[0] == b[0] && b[0] == c[0] {
        lemma_text_le_trans(a.skip(1), b.skip(1), c.skip(1));
    }
}

/// A text with its ASCII letters in lower case.
pub open spec fn lowered(s: Seq<char>) -> Seq<char> {
    s.map_values(|c: char| ascii_lower(c))
}

/// The characters of a text with its ASCII letters in lower case.
pub fn lower_chars(s: &[char]) -> (v: Vec<char>)
    ensures
        v@ == lowered(s@),
{
    let mut v: Vec<char> = Vec::new();
    let mut i: usize = 0;
    while i < s.len()
        invariant
            i <= s@.len(),
            v@ == lowered(s@.take(i as int)),
        decreases s@.len() - i,
    {
        v.push(char_ascii_lower(s[i]));
        i = i + 1;
        assert(v@ =~= lowered(s@.take(i as int)));
    }
    assert(s@.take(i as int) =~= s@);
    v
}

/// Whether two runs of characters are the same.
pub fn same_chars(a: &[char], b: &[char]) -> (same: bool)
    ensures
        same == (a@ == b@),
{
    if a.len() != b.len() {
        return false;
    }
    let mut i: usize = 0;
    while i < a.len()
        invariant
            i <= a@.len(),
            a@.len() == b@.len(),
            forall|k: int| 0 <= k < i ==> a@[k] == b@[k],
        decreases a@.len() - i,
    {
        if a[i] != b[i] {
            return false;
        }
        i = i + 1;
    }
    assert(a@ =~= b@);
    true
}

/// Whether a text occurs in another.
pub open spec fn occurs(needle: Seq<char>, hay: Seq<char>) -> bool {
    exists|i: int|
        0 <= i <= hay.len() - needle.len() && #[trigger] hay.subrange(i, i + needle.len())
            == needle
}

/// Whether a run of characters occurs in another.
pub fn contains_chars(hay: &[char], needle: &[char]) -> (b: bool)
    ensures
        b == occurs(needle@, hay@),
{
    assert(hay@.len() == hay.len());
    assert(needle@.len() == needle.len());
    if needle.len() > hay.len() {
        return false;
    }
    let mut i: usize = 0;
    while i <= hay.len() - needle.len()
        invariant
            needle@.len() <= hay@.len() <= usize::MAX,
            i <= hay@.len() - needle@.len() + 1,
            forall|k: int|
                0 <= k < i ==> #[trigger] hay@.subrange(k, k + needle@.len()) != needle@,
        decreases hay@.len() - needle@.len() + 1 - i,
    {
        let part = vstd::slice::slice_subrange(hay, i, i + needle.len());
        if same_chars(part, needle) {
            return true;
        }
        if i == hay.len() - needle.len() {
            return false;
        }
        i = i + 1;
    }
    false
}

} // verus!
