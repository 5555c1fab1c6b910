//! What holds of numbers as bytes, said of the bytes themselves.
use vstd::prelude::*;
use crate::bytes::{le_bytes, le_value, varint};

verus! {

/// A number of two, four or eight bytes has its lowest byte first.
pub proof fn law_the_lowest_byte_comes_first(x: nat)
    ensures
        le_bytes(x, 2) == seq![(x % 256) as u8, (x / 256 % 256) as u8],
        le_bytes(x, 4) == seq![
            (x % 256) as u8,
            (x / 0x100 % 256) as u8,
            (x / 0x1_0000 % 256) as u8,
            (x / 0x100_0000 % 256) as u8,
        ],
        le_bytes(x, 8) == le_bytes(x, 4) + le_bytes(x / 0x1_0000_0000, 4),
{
    reveal_with_fuel(le_bytes, 10);
    let a = x / 256;
    let b = a / 256;
    let c = b / 256;
    let d = c / 256;
    assert(b == x / 0x1_0000 && c == x / 0x100_0000 && d == x / 0x1_0000_0000);
    assert(le_bytes(x, 2) =~= seq![(x % 256) as u8, (x / 256 % 256) as u8]);
    assert(le_bytes(x, 4) =~= seq![
        (x % 256) as u8,
        (x / 0x100 % 256) as u8,
        (x / 0x1_0000 % 256) as u8,
        (x / 0x100_0000 % 256) as u8,
    ]);
    assert(le_bytes(x, 8) =~= le_bytes(x, 4) + le_bytes(d, 4));
}

/// Two and four bytes are worth what each of them is, the first being the
/// lowest.
pub proof fn law_later_bytes_weigh_more(a: u8, b: u8, c: u8, d: u8)
    ensures
        le_value(seq![a]) == a,
        le_value(seq![a, b]) == a + 0x100 * b,
        le_value(seq![a, b, c, d]) == a + 0x100 * b + 0x1_0000 * c + 0x100_0000 * d,
{
    reveal_with_fuel(le_value, 6);
    let s = seq![a, b, c, d];
    assert(s.skip(1) =~= seq![b, c, d]);
    assert(seq![b, c, d].skip(1) =~= seq![c, d]);
    assert(seq![c, d].skip(1) =~= seq![d]);
    assert(seq![d].skip(1) =~= Seq::<u8>::empty());
    assert(seq![a, b].skip(1) =~= seq![b]);
    assert(seq![b].skip(1) =~= Seq::<u8>::empty());
    assert(seq![a].skip(1) =~= Seq::<u8>::empty());
}

/// The number that groups of seven bits make up, the lowest group first.
pub open spec fn groups_value(s: Seq<u8>) -> nat
    decreases s.len(),
{
    if s.len() == 0 {
        0
    } else {
        s[0] as nat % 128 + 128 * groups_value(s.skip(1))
    }
}

/// A varint is its number in groups of seven bits, the lowest first. The top
/// bit of a byte says that another follows, and the last group is not empty
/// unless it is the only one.
pub proof fn law_varints_are_groups_of_seven(v: nat)
    ensures
        groups_value(varint(v)) == v,
        varint(v).len() > 0,
        forall|i: int|
            0 <= i < varint(v).len() ==> (#[trigger] varint(v)[i] >= 128 <==> i < varint(v).len()
                - 1),
        varint(v).len() > 1 ==> varint(v).last() > 0,
        v < 128 ==> varint(v) == seq![v as u8],
        128 <= v < 0x4000 ==> varint(v) == seq![(v % 128 + 128) as u8, (v / 128) as u8],
    decreases v,
{
    let s = varint(v);
    if v >= 128 {
        law_varints_are_groups_of_seven(v / 128);
        let rest = varint(v / 128);
        assert(s.skip(1) =~= rest);
        assert(s[0] as nat % 128 == v % 128);
        assert forall|i: int| 0 <= i < s.len() implies (#[trigger] s[i] >= 128 <==> i < s.len()
            - 1) by {
            if i > 0 {
                assert(s[i] == rest[i - 1]);
            }
        }
        if v < 0x4000 {
            assert(s =~= seq![(v % 128 + 128) as u8, (v / 128) as u8]);
        }
    } else {
        assert(s.skip(1) =~= Seq::<u8>::empty());
        assert(groups_value(s.skip(1)) == 0);
        assert(s[0] as nat % 128 == v);
    }
}

} // verus!
