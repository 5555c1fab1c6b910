//! The protobuf wire: varints, field keys, and messages as lists of fields.
use vstd::prelude::*;
use crate::bytes::{pow128, push_all, to_vec, varint};

verus! {

/// The varint at the start of a byte string that has `n` of its bytes behind
/// it already, and how many bytes it takes; `None` where the bytes run out, or
/// past 64 bits.
pub open spec fn varint_tail(s: Seq<u8>, n: nat) -> Option<(nat, nat)>
    decreases s.len(),
{
    if s.len() == 0 || n >= 10 {
        None
    } else if s[0] < 128 {
        if n == 9 && s[0] >= 2 {
            None
        } else {
            Some((s[0] as nat, 1))
        }
    } else {
        match varint_tail(s.skip(1), n + 1) {
            None => None,
            Some((v, used)) => Some(((s[0] - 128 + 128 * v) as nat, used + 1)),
        }
    }
}

/// The varint at the start of a byte string, and how many bytes it takes.
pub open spec fn read_varint(s: Seq<u8>) -> Option<(nat, nat)> {
    varint_tail(s, 0)
}

/// The largest field number.
pub const MAX_TAG: u32 = 536_870_911;

/// The wire types in use.
#[derive(Debug, Clone, Copy, PartialEq, Eq)]
pub enum Wire {
    Varint,
    LengthDelimited,
}

/// A wire type's number.
pub open spec fn wire_number(w: Wire) -> nat {
    match w {
        Wire::Varint => 0,
        Wire::LengthDelimited => 2,
    }
}

/// The field number and wire type at the start of a byte string, and how many
/// bytes they take.
pub open spec fn read_key(s: Seq<u8>) -> Option<(u32, u8, nat)> {
    match read_varint(s) {
        None => None,
        Some((key, used)) => if key > u32::MAX || key % 8 > 5 || key / 8 == 0 {
            None
        } else {
            Some(((key / 8) as u32, (key % 8) as u8, used))
        },
    }
}

/// How many messages and groups may stand inside each other.
pub const MAX_DEPTH: u32 = 100;

/// How many bytes `prost::encoding::skip_field` passes over for a field of an
/// outermost message that the message does not know; `None` where it is
/// refused.
pub uninterp spec fn skipped_len(wire: u8, tag: u32, s: Seq<u8>) -> Option<nat>;

/// `prost::encoding::encode_varint` appends a number in groups of 7 bits.
#[verifier::external_body]
fn put_varint(out: &mut Vec<u8>, v: u64)
    ensures
        final(out)@ == old(out)@ + varint(v as nat),
{
    prost::encoding::encode_varint(v, out);
}

/// `prost::encoding::encode_key` appends a field number and its wire type as
/// one varint, the type in the low three bits.
#[verifier::external_body]
fn put_key(out: &mut Vec<u8>, tag: u32, wire: Wire)
    requires
        1 <= tag <= MAX_TAG,
    ensures
        final(out)@ == old(out)@ + varint((8 * tag + wire_number(wire)) as nat),
{
    let wire_type = match wire {
        Wire::Varint => prost::encoding::WireType::Varint,
        Wire::LengthDelimited => prost::encoding::WireType::LengthDelimited,
    };
    prost::encoding::encode_key(tag, wire_type, out);
}

/// `prost::encoding::decode_varint` reads the varint at the front and leaves
/// the bytes behind it.
#[verifier::external_body]
fn take_varint(bytes: &[u8]) -> (r: Option<(u64, &[u8])>)
    ensures
        match r {
            Some((v, rest)) => read_varint(bytes@) matches Some((value, used)) && v == value && used
                <= bytes@.len() && rest@ == bytes@.skip(used as int),
            None => read_varint(bytes@) is None,
        },
{
    let mut rest = bytes;
    let v = prost::encoding::decode_varint(&mut rest).ok()?;
    Some((v, rest))
}

/// `prost::encoding::decode_key` reads the key at the front and leaves the
/// bytes behind it. A key over 32 bits, an unassigned wire type and field
/// number zero are refused.
#[verifier::external_body]
fn take_key(bytes: &[u8]) -> (r: Option<(u32, u8, &[u8])>)
    ensures
        match r {
            Some((tag, wire, rest)) => read_key(bytes@) matches Some((t, w, used)) && tag == t
                && wire == w && used <= bytes@.len() && rest@ == bytes@.skip(used as int),
            None => read_key(bytes@) is None,
        },
{
    let mut rest = bytes;
    let (tag, wire) = prost::encoding::decode_key(&mut rest).ok()?;
    Some((tag, wire as u8, rest))
}

/// `prost::encoding::skip_field` passes over a field that an outermost message
/// does not know and leaves the bytes behind it. How many bytes that takes is a
/// matter of the field alone; what it is for nested groups is left to the name.
#[verifier::external_body]
fn skip_field(wire: u8, tag: u32, bytes: &[u8]) -> (r: Option<&[u8]>)
    requires
        wire <= 5,
    ensures
        match r {
            Some(rest) => skipped_len(wire, tag, bytes@) matches Some(used) && used <= bytes@.len()
                && rest@ == bytes@.skip(used as int),
            None => skipped_len(wire, tag, bytes@) is None,
        },
{
    let mut rest = bytes;
    let wire_type = prost::encoding::WireType::try_from(wire as u64).ok()?;
    let ctx = prost::encoding::DecodeContext::default();
    prost::encoding::skip_field(wire_type, tag, &mut rest, ctx).ok()?;
    Some(rest)
}

/// A field inside groups of field number 1, `depth` of them.
pub open spec fn in_groups(field: Seq<u8>, depth: nat) -> Seq<u8>
    decreases depth,
{
    if depth == 0 {
        field
    } else {
        varint(11) + in_groups(field, (depth - 1) as nat) + varint(12)
    }
}

/// A field with its key, as it stands on the wire.
pub open spec fn keyed(wire: u8, tag: u32, value: Seq<u8>) -> Seq<u8> {
    varint((8 * tag + wire) as nat) + value
}

/// Whether an unknown field is not nested too deep for a message inside `depth`
/// others. A group takes up one level, as a message does: the field is asked of
/// inside as many groups, the first of which is opened by the asking.
pub open spec fn fits_at(wire: u8, tag: u32, value: Seq<u8>, depth: nat) -> bool {
    depth == 0 || skipped_len(
        3,
        1,
        in_groups(keyed(wire, tag, value), (depth - 1) as nat) + varint(12),
    ) is Some
}

/// How many bytes an unknown field takes in a message inside `depth` others;
/// `None` where it is refused.
pub open spec fn skipped_at(wire: u8, tag: u32, s: Seq<u8>, depth: nat) -> Option<nat> {
    match skipped_len(wire, tag, s) {
        Some(n) if fits_at(wire, tag, s.take(n as int), depth) => Some(n),
        _ => None,
    }
}

/// Whether an unknown field is not nested too deep.
fn fits(wire: u8, tag: u32, value: &[u8], depth: u32) -> (b: bool)
    requires
        wire <= 5,
    ensures
        b == fits_at(wire, tag, value@, depth as nat),
{
    if depth == 0 {
        return true;
    }
    let mut out: Vec<u8> = Vec::new();
    put_varint(&mut out, 8 * tag as u64 + wire as u64);
    push_all(&mut out, value);
    let ghost field = keyed(wire, tag, value@);
    assert(out@ =~= field);
    let mut d: u32 = 0;
    while d < depth - 1
        invariant
            d < depth,
            out@ == in_groups(field, d as nat),
        decreases depth - d,
    {
        let mut outer: Vec<u8> = Vec::new();
        put_varint(&mut outer, 11);
        push_all(&mut outer, out.as_slice());
        put_varint(&mut outer, 12);
        d = d + 1;
        assert(outer@ =~= in_groups(field, d as nat));
        out = outer;
    }
    put_varint(&mut out, 12);
    skip_field(3, 1, out.as_slice()).is_some()
}

/// What a field carries.
#[derive(Debug, Clone, PartialEq, Eq)]
pub enum Value {
    Number(u64),
    Bytes(Vec<u8>),
    /// A fixed-width number or a group: no message here has one.
    Foreign,
}

#[derive(Debug, Clone, PartialEq, Eq)]
pub struct Field {
    pub tag: u32,
    pub value: Value,
}

/// What a [`Value`] says.
pub enum ValueView {
    Number(u64),
    Bytes(Seq<u8>),
    Foreign,
}

/// What a [`Field`] says.
pub struct FieldView {
    pub tag: u32,
    pub value: ValueView,
}

impl View for Field {
    type V = FieldView;

    open spec fn view(&self) -> FieldView {
        FieldView {
            tag: self.tag,
            value: match self.value {
                Value::Number(v) => ValueView::Number(v),
                Value::Bytes(b) => ValueView::Bytes(b@),
                Value::Foreign => ValueView::Foreign,
            },
        }
    }
}

/// One field on the wire.
pub open spec fn field_bytes(f: FieldView) -> Seq<u8> {
    match f.value {
        ValueView::Number(v) => varint((8 * f.tag) as nat) + varint(v as nat),
        ValueView::Bytes(b) => varint((8 * f.tag + 2) as nat) + varint(b.len()) + b,
        ValueView::Foreign => Seq::<u8>::empty(),
    }
}

/// Fields on the wire, in order.
pub open spec fn fields_bytes(fs: Seq<FieldView>) -> Seq<u8>
    decreases fs.len(),
{
    if fs.len() == 0 {
        Seq::<u8>::empty()
    } else {
        field_bytes(fs[0]) + fields_bytes(fs.skip(1))
    }
}

/// A field that can be put on the wire.
pub open spec fn sendable(f: FieldView) -> bool {
    &&& 1 <= f.tag <= MAX_TAG
    &&& f.value !is Foreign
    &&& f.value matches ValueView::Bytes(b) ==> b.len() <= u64::MAX
}

/// The field at the start of the bytes of a message inside `depth` others, and
/// how many bytes it takes.
pub open spec fn read_field(s: Seq<u8>, depth: nat) -> Option<(FieldView, nat)> {
    match read_key(s) {
        None => None,
        Some((tag, wire, k)) => {
            let rest = s.skip(k as int);
            if wire == 0 {
                match read_varint(rest) {
                    None => None,
                    Some((v, n)) => Some(
                        (FieldView { tag, value: ValueView::Number(v as u64) }, k + n),
                    ),
                }
            } else if wire == 2 {
                match read_varint(rest) {
                    None => None,
                    Some((len, n)) => if n + len > rest.len() {
                        None
                    } else {
                        Some(
                            (
                                FieldView {
                                    tag,
                                    value: ValueView::Bytes(
                                        rest.subrange(n as int, (n + len) as int),
                                    ),
                                },
                                k + n + len,
                            ),
                        )
                    },
                }
            } else {
                match skipped_at(wire, tag, rest, depth) {
                    None => None,
                    Some(n) => Some((FieldView { tag, value: ValueView::Foreign }, k + n)),
                }
            }
        },
    }
}

/// The fields of a message inside `depth` others; `None` where one of them does
/// not read.
pub open spec fn read_fields(s: Seq<u8>, depth: nat) -> Option<Seq<FieldView>>
    decreases s.len(),
{
    if s.len() == 0 {
        Some(Seq::<FieldView>::empty())
    } else {
        match read_field(s, depth) {
            None => None,
            Some((f, used)) => if used == 0 || used > s.len() {
                None
            } else {
                match read_fields(s.skip(used as int), depth) {
                    None => None,
                    Some(fs) => Some(seq![f] + fs),
                }
            },
        }
    }
}

/// A varint that reads takes at least one byte and no more than there are.
pub proof fn lemma_varint_used(s: Seq<u8>, n: nat)
    ensures
        varint_tail(s, n) matches Some((v, used)) ==> 1 <= used <= s.len() && n + used <= 10,
    decreases s.len(),
{
    if s.len() > 0 && n < 10 && s[0] >= 128 {
        lemma_varint_used(s.skip(1), n + 1);
    }
}

proof fn lemma_varint_tail(v: nat, n: nat, tail: Seq<u8>)
    requires
        n <= 9,
        v * pow128(n) < 0x1_0000_0000_0000_0000,
    ensures
        varint(v).len() >= 1,
        varint_tail(varint(v) + tail, n) == Some((v, varint(v).len())),
    decreases v,
{
    reveal_with_fuel(pow128, 10);
    let s = varint(v) + tail;
    if v < 128 {
        if n == 9 {
            assert(v < 2) by (nonlinear_arith)
                requires
                    v * pow128(n) < 0x1_0000_0000_0000_0000,
                    pow128(n) == 0x8000_0000_0000_0000,
            ;
        }
    } else {
        let q = v / 128;
        if n == 9 {
            assert(false) by (nonlinear_arith)
                requires
                    v >= 128,
                    v * pow128(n) < 0x1_0000_0000_0000_0000,
                    pow128(n) == 0x8000_0000_0000_0000,
            ;
        }
        assert(q * pow128(n + 1) < 0x1_0000_0000_0000_0000) by (nonlinear_arith)
            requires
                pow128(n + 1) == 128 * pow128(n),
                128 * q <= v,
                v * pow128(n) < 0x1_0000_0000_0000_0000,
        ;
        lemma_varint_tail(q, n + 1, tail);
        assert(s.skip(1) =~= varint(q) + tail);
    }
}

/// A number up to 64 bits reads back from its varint, whatever follows.
pub proof fn lemma_varint_reads_back(v: nat, tail: Seq<u8>)
    requires
        v <= u64::MAX,
    ensures
        varint(v).len() >= 1,
        read_varint(varint(v) + tail) == Some((v, varint(v).len())),
{
    assert(v * pow128(0) == v) by (nonlinear_arith)
        requires
            pow128(0) == 1,
    ;
    lemma_varint_tail(v, 0, tail);
}

/// A key reads back from the wire, whatever follows.
proof fn lemma_key_reads_back(tag: u32, wire: nat, tail: Seq<u8>)
    requires
        1 <= tag <= MAX_TAG,
        wire <= 5,
    ensures
        ({
            let key = varint((8 * tag + wire) as nat);
            &&& key.len() >= 1
            &&& read_key(key + tail) == Some((tag, wire as u8, key.len()))
            &&& (key + tail).skip(key.len() as int) == tail
        }),
{
    let k = (8 * tag + wire) as nat;
    lemma_varint_reads_back(k, tail);
    assert(k / 8 == tag && k % 8 == wire);
    assert((varint(k) + tail).skip(varint(k).len() as int) =~= tail);
}

/// A sendable field reads back from the wire, whatever follows.
pub proof fn lemma_field_reads_back(f: FieldView, tail: Seq<u8>, depth: nat)
    requires
        sendable(f),
    ensures
        field_bytes(f).len() >= 1,
        read_field(field_bytes(f) + tail, depth) == Some((f, field_bytes(f).len())),
{
    match f.value {
        ValueView::Number(v) => {
            lemma_number_reads_back(f.tag, v, tail, depth);
        },
        ValueView::Bytes(b) => {
            lemma_bytes_read_back(f.tag, b, tail, depth);
        },
        ValueView::Foreign => {},
    }
}

proof fn lemma_number_reads_back(tag: u32, v: u64, tail: Seq<u8>, depth: nat)
    requires
        1 <= tag <= MAX_TAG,
    ensures
        ({
            let f = FieldView { tag, value: ValueView::Number(v) };
            &&& field_bytes(f).len() >= 1
            &&& read_field(field_bytes(f) + tail, depth) == Some((f, field_bytes(f).len()))
        }),
{
    let f = FieldView { tag, value: ValueView::Number(v) };
    let key = varint((8 * tag) as nat);
    let rest = varint(v as nat) + tail;
    lemma_key_reads_back(tag, 0, rest);
    assert(field_bytes(f) + tail =~= key + rest);
    lemma_varint_reads_back(v as nat, tail);
}

proof fn lemma_bytes_read_back(tag: u32, b: Seq<u8>, tail: Seq<u8>, depth: nat)
    requires
        1 <= tag <= MAX_TAG,
        b.len() <= u64::MAX,
    ensures
        ({
            let f = FieldView { tag, value: ValueView::Bytes(b) };
            &&& field_bytes(f).len() >= 1
            &&& read_field(field_bytes(f) + tail, depth) == Some((f, field_bytes(f).len()))
        }),
{
    let f = FieldView { tag, value: ValueView::Bytes(b) };
    let key = varint((8 * tag + 2) as nat);
    let len = varint(b.len());
    let rest = len + (b + tail);
    lemma_key_reads_back(tag, 2, rest);
    assert(field_bytes(f) + tail =~= key + rest);
    lemma_varint_reads_back(b.len(), b + tail);
    assert(rest.subrange(len.len() as int, (len.len() + b.len()) as int) =~= b);
}

/// Sendable fields read back from the wire.
pub proof fn lemma_fields_read_back(fs: Seq<FieldView>, depth: nat)
    requires
        forall|i: int| 0 <= i < fs.len() ==> sendable(#[trigger] fs[i]),
    ensures
        read_fields(fields_bytes(fs), depth) == Some(fs),
    decreases fs.len(),
{
    let s = fields_bytes(fs);
    if fs.len() == 0 {
        assert(fs =~= Seq::<FieldView>::empty());
    } else {
        let more = fs.skip(1);
        assert forall|i: int| 0 <= i < more.len() implies sendable(#[trigger] more[i]) by {
            assert(more[i] == fs[i + 1]);
        }
        lemma_fields_read_back(more, depth);
        lemma_field_reads_back(fs[0], fields_bytes(more), depth);
        assert(s.skip(field_bytes(fs[0]).len() as int) =~= fields_bytes(more));
        assert(seq![fs[0]] + more =~= fs);
    }
}

/// The wire form of two runs of fields is the two wire forms in a row.
pub proof fn lemma_fields_bytes_concat(a: Seq<FieldView>, b: Seq<FieldView>)
    ensures
        fields_bytes(a + b) == fields_bytes(a) + fields_bytes(b),
    decreases a.len(),
{
    if a.len() == 0 {
        assert(a + b =~= b);
        assert(fields_bytes(a) + fields_bytes(b) =~= fields_bytes(b));
    } else {
        assert((a + b).skip(1) =~= a.skip(1) + b);
        lemma_fields_bytes_concat(a.skip(1), b);
        assert(fields_bytes(a + b) =~= fields_bytes(a) + fields_bytes(b));
    }
}

/// Append a numeric field.
pub(crate) fn put_number(out: &mut Vec<u8>, tag: u32, v: u64)
    requires
        1 <= tag <= MAX_TAG,
    ensures
        final(out)@ == old(out)@ + field_bytes(FieldView { tag, value: ValueView::Number(v) }),
{
    put_key(out, tag, Wire::Varint);
    put_varint(out, v);
    assert(out@ =~= old(out)@ + field_bytes(FieldView { tag, value: ValueView::Number(v) }));
}

/// Append a field of bytes.
pub(crate) fn put_bytes(out: &mut Vec<u8>, tag: u32, b: &[u8])
    requires
        1 <= tag <= MAX_TAG,
    ensures
        final(out)@ == old(out)@ + field_bytes(FieldView { tag, value: ValueView::Bytes(b@) }),
{
    put_key(out, tag, Wire::LengthDelimited);
    put_varint(out, b.len() as u64);
    push_all(out, b);
    assert(out@ =~= old(out)@ + field_bytes(FieldView { tag, value: ValueView::Bytes(b@) }));
}

/// Take the field at the front of a message inside `depth` others; `None` where
/// it does not read.
pub(crate) fn take_field(bytes: &[u8], depth: u32) -> (r: Option<(Field, &[u8])>)
    ensures
        match r {
            Some((f, rest)) => read_field(bytes@, depth as nat) matches Some((view, used)) && f@ == view && 1
                <= used <= bytes@.len() && rest@ == bytes@.skip(used as int),
            None => read_field(bytes@, depth as nat) is None,
        },
{
    let (tag, wire, rest) = match take_key(bytes) {
        Some(key) => key,
        None => {
            return None;
        },
    };
    proof {
        lemma_varint_used(bytes@, 0);
    }
    let ghost k = read_key(bytes@)->Some_0.2;
    if wire == 0 {
        match take_varint(rest) {
            Some((v, rest2)) => {
                proof {
                    let n = read_varint(rest@)->Some_0.1;
                    assert(rest2@ =~= bytes@.skip((k + n) as int));
                }
                Some((Field { tag, value: Value::Number(v) }, rest2))
            },
            None => None,
        }
    } else if wire == 2 {
        match take_varint(rest) {
            Some((len, rest2)) => {
                let ghost n = read_varint(rest@)->Some_0.1;
                if len > rest2.len() as u64 {
                    return None;
                }
                let len: usize = len as usize;
                let b = vstd::slice::slice_subrange(rest2, 0, len);
                let rest3 = vstd::slice::slice_subrange(rest2, len, rest2.len());
                proof {
                    assert(b@ =~= rest@.subrange(n as int, (n + len) as int));
                    assert(rest3@ =~= bytes@.skip((k + n + len) as int));
                }
                Some((Field { tag, value: Value::Bytes(to_vec(b)) }, rest3))
            },
            None => None,
        }
    } else {
        match skip_field(wire, tag, rest) {
            Some(rest2) => {
                let n: usize = rest.len() - rest2.len();
                let value = vstd::slice::slice_subrange(rest, 0, n);
                proof {
                    assert(n == skipped_len(wire, tag, rest@)->Some_0);
                    assert(value@ =~= rest@.take(n as int));
                    assert(rest2@ =~= bytes@.skip((k + n) as int));
                }
                if !fits(wire, tag, value, depth) {
                    return None;
                }
                Some((Field { tag, value: Value::Foreign }, rest2))
            },
            None => None,
        }
    }
}

} // verus!
