//! Messages as lists of fields: what every message type provides, and the
//! encoding and decoding built on it.
use vstd::prelude::*;
use vstd::utf8::{decode_utf8, encode_utf8, valid_utf8};
use crate::signaling::wire::{
    field_bytes, fields_bytes, lemma_fields_read_back, put_bytes, put_number, read_fields, sendable,
    take_field, Field, FieldView, Value, ValueView, MAX_DEPTH, MAX_TAG,
};
use crate::text::text_from_utf8;

verus! {

/// A message that cannot be read.
#[derive(Debug, Clone, Copy, PartialEq, Eq)]
pub struct DecodeError;

/// A message type: which fields say what, and how a field read off the wire
/// changes a message.
pub trait Message: Sized + View {
    /// A message of which nothing has been read.
    spec fn blank() -> Self::V;

    /// The fields of a message, by field number; a field that says what a
    /// blank message says already is left out.
    spec fn fields(v: Self::V) -> Seq<FieldView>;

    /// The message after one more field, the message standing inside `depth`
    /// others; `None` where the field is of the wrong kind. Unknown fields
    /// change nothing.
    spec fn merged(v: Self::V, f: FieldView, depth: nat) -> Option<Self::V>;

    fn new_blank() -> (m: Self)
        ensures
            m@ == Self::blank(),
    ;

    fn put_fields(&self, out: &mut Vec<u8>)
        ensures
            final(out)@ == old(out)@ + fields_bytes(Self::fields(self@)),
    ;

    fn merge(&mut self, f: Field, depth: u32) -> (ok: bool)
        ensures
            ok ==> Self::merged(old(self)@, f@, depth as nat) == Some(final(self)@),
            !ok ==> Self::merged(old(self)@, f@, depth as nat) is None,
    ;
}

/// A message type whose messages can be told from their own fields.
pub trait Readable: Message {
    /// How deep messages of this type nest others.
    spec fn height() -> nat;

    /// Reading back a message's own fields gives the message.
    proof fn reads_back(v: Self::V, depth: nat)
        requires
            fields_bytes(Self::fields(v)).len() <= u64::MAX,
            depth + Self::height() <= MAX_DEPTH,
        ensures
            merge_all::<Self>(Self::blank(), Self::fields(v), depth) == Some(v),
            forall|i: int| 0 <= i < Self::fields(v).len() ==> tagged(#[trigger] Self::fields(v)[i]),
    ;
}

/// The message after a run of fields.
pub open spec fn merge_all<M: Message>(v: M::V, fs: Seq<FieldView>, depth: nat) -> Option<M::V>
    decreases fs.len(),
{
    if fs.len() == 0 {
        Some(v)
    } else {
        match M::merged(v, fs[0], depth) {
            None => None,
            Some(w) => merge_all::<M>(w, fs.skip(1), depth),
        }
    }
}

/// A field with a proper number that a message can have put there.
pub open spec fn tagged(f: FieldView) -> bool {
    1 <= f.tag <= MAX_TAG && f.value !is Foreign
}

/// A message on the wire.
pub open spec fn encoded<M: Message>(v: M::V) -> Seq<u8> {
    fields_bytes(M::fields(v))
}

/// A byte string read on top of a message that stands inside `depth` others;
/// `None` where it does not read.
pub open spec fn merged_from<M: Message>(base: M::V, s: Seq<u8>, depth: nat) -> Option<M::V> {
    match read_fields(s, depth) {
        None => None,
        Some(fs) => merge_all::<M>(base, fs, depth),
    }
}

/// The message a byte string holds; `None` where it holds none.
pub open spec fn decoded<M: Message>(s: Seq<u8>) -> Option<M::V> {
    merged_from::<M>(M::blank(), s, 0)
}

// ---------------------------------------------------------------------
// Fields by kind
// ---------------------------------------------------------------------

/// A number, left out at zero.
pub open spec fn number_field(tag: u32, v: u64) -> Seq<FieldView> {
    if v == 0 {
        Seq::<FieldView>::empty()
    } else {
        seq![FieldView { tag, value: ValueView::Number(v) }]
    }
}

/// A flag, left out when clear.
pub open spec fn flag_field(tag: u32, b: bool) -> Seq<FieldView> {
    number_field(
        tag,
        if b {
            1
        } else {
            0
        },
    )
}

/// A field of bytes, present whatever it holds.
pub open spec fn bytes_entry(tag: u32, b: Seq<u8>) -> FieldView {
    FieldView { tag, value: ValueView::Bytes(b) }
}

/// A byte string, left out when empty.
pub open spec fn bytes_field(tag: u32, b: Seq<u8>) -> Seq<FieldView> {
    if b.len() == 0 {
        Seq::<FieldView>::empty()
    } else {
        seq![bytes_entry(tag, b)]
    }
}

/// A text, left out when empty.
pub open spec fn text_field(tag: u32, t: Seq<char>) -> Seq<FieldView> {
    if t.len() == 0 {
        Seq::<FieldView>::empty()
    } else {
        seq![bytes_entry(tag, encode_utf8(t))]
    }
}

/// A text that may be absent.
pub open spec fn opt_text_field(tag: u32, t: Option<Seq<char>>) -> Seq<FieldView> {
    match t {
        None => Seq::<FieldView>::empty(),
        Some(t) => seq![bytes_entry(tag, encode_utf8(t))],
    }
}

/// The number a field carries.
pub open spec fn number_of(f: FieldView) -> Option<u64> {
    match f.value {
        ValueView::Number(v) => Some(v),
        _ => None,
    }
}

/// The bytes a field carries.
pub open spec fn bytes_of(f: FieldView) -> Option<Seq<u8>> {
    match f.value {
        ValueView::Bytes(b) => Some(b),
        _ => None,
    }
}

/// The text a field carries.
pub open spec fn text_of(f: FieldView) -> Option<Seq<char>> {
    match f.value {
        ValueView::Bytes(b) => if valid_utf8(b) {
            Some(decode_utf8(b))
        } else {
            None
        },
        _ => None,
    }
}

proof fn lemma_short_bytes(fs: Seq<FieldView>)
    requires
        fs.len() == 1,
    ensures
        fields_bytes(fs) == field_bytes(fs[0]),
{
    assert(fields_bytes(fs.skip(1)) =~= Seq::<u8>::empty());
    assert(fields_bytes(fs) =~= field_bytes(fs[0]));
}

pub(crate) fn put_number_field(out: &mut Vec<u8>, tag: u32, v: u64)
    requires
        1 <= tag <= MAX_TAG,
    ensures
        final(out)@ == old(out)@ + fields_bytes(number_field(tag, v)),
{
    if v != 0 {
        put_number(out, tag, v);
        proof {
            lemma_short_bytes(number_field(tag, v));
        }
    }
    assert(out@ =~= old(out)@ + fields_bytes(number_field(tag, v)));
}

pub(crate) fn put_flag_field(out: &mut Vec<u8>, tag: u32, b: bool)
    requires
        1 <= tag <= MAX_TAG,
    ensures
        final(out)@ == old(out)@ + fields_bytes(flag_field(tag, b)),
{
    put_number_field(
        out,
        tag,
        if b {
            1
        } else {
            0
        },
    );
}

pub(crate) fn put_bytes_entry(out: &mut Vec<u8>, tag: u32, b: &[u8])
    requires
        1 <= tag <= MAX_TAG,
    ensures
        final(out)@ == old(out)@ + fields_bytes(seq![bytes_entry(tag, b@)]),
{
    put_bytes(out, tag, b);
    proof {
        lemma_short_bytes(seq![bytes_entry(tag, b@)]);
    }
}

pub(crate) fn put_bytes_field(out: &mut Vec<u8>, tag: u32, b: &[u8])
    requires
        1 <= tag <= MAX_TAG,
    ensures
        final(out)@ == old(out)@ + fields_bytes(bytes_field(tag, b@)),
{
    if b.len() > 0 {
        put_bytes_entry(out, tag, b);
    }
    assert(out@ =~= old(out)@ + fields_bytes(bytes_field(tag, b@)));
}

pub(crate) fn put_text_field(out: &mut Vec<u8>, tag: u32, t: &str)
    requires
        1 <= tag <= MAX_TAG,
    ensures
        final(out)@ == old(out)@ + fields_bytes(text_field(tag, t@)),
{
    if !t.is_empty() {
        put_bytes_entry(out, tag, t.as_bytes());
    }
    assert(out@ =~= old(out)@ + fields_bytes(text_field(tag, t@)));
}

/// What an optional text says.
pub open spec fn opt_text_view(t: Option<String>) -> Option<Seq<char>> {
    match t {
        None => None,
        Some(t) => Some(t@),
    }
}

pub(crate) fn put_opt_text_field(out: &mut Vec<u8>, tag: u32, t: &Option<String>)
    requires
        1 <= tag <= MAX_TAG,
    ensures
        final(out)@ == old(out)@ + fields_bytes(opt_text_field(tag, opt_text_view(*t))),
{
    match t {
        Some(t) => {
            put_bytes_entry(out, tag, t.as_str().as_bytes());
        },
        None => {},
    }
    assert(out@ =~= old(out)@ + fields_bytes(opt_text_field(tag, opt_text_view(*t))));
}

/// Append a message as a field.
pub(crate) fn put_message<M: Message>(out: &mut Vec<u8>, tag: u32, m: &M)
    requires
        1 <= tag <= MAX_TAG,
    ensures
        final(out)@ == old(out)@ + fields_bytes(seq![bytes_entry(tag, encoded::<M>(m@))]),
{
    let inner = encode_message(m);
    put_bytes_entry(out, tag, inner.as_slice());
}

pub(crate) fn field_number(f: &Field) -> (v: Option<u64>)
    ensures
        v == number_of(f@),
{
    match &f.value {
        Value::Number(v) => Some(*v),
        _ => None,
    }
}

pub(crate) fn field_bytes_value(f: Field) -> (b: Option<Vec<u8>>)
    ensures
        match b {
            Some(b) => bytes_of(f@) == Some(b@),
            None => bytes_of(f@) is None,
        },
{
    match f.value {
        Value::Bytes(b) => Some(b),
        _ => None,
    }
}

pub(crate) fn field_text(f: Field) -> (t: Option<String>)
    ensures
        match t {
            Some(t) => text_of(f@) == Some(t@),
            None => text_of(f@) is None,
        },
{
    match f.value {
        Value::Bytes(b) => text_from_utf8(b),
        _ => None,
    }
}

// ---------------------------------------------------------------------
// Whole messages
// ---------------------------------------------------------------------

pub(crate) fn encode_message<M: Message>(m: &M) -> (out: Vec<u8>)
    ensures
        out@ == encoded::<M>(m@),
{
    let mut out: Vec<u8> = Vec::new();
    m.put_fields(&mut out);
    assert(out@ =~= encoded::<M>(m@));
    out
}

/// Reads fields into a message, inside `depth` others, until the bytes are used
/// up; `None` where a field does not read or is of the wrong kind.
pub(crate) fn merge_message<M: Message>(from: M, bytes: &[u8], depth: u32) -> (r: Option<M>)
    ensures
        match r {
            Some(done) => merged_from::<M>(from@, bytes@, depth as nat) == Some(done@),
            None => merged_from::<M>(from@, bytes@, depth as nat) is None,
        },
{
    let ghost start = from@;
    let ghost d = depth as nat;
    let mut m = from;
    let mut rest = bytes;
    while rest.len() > 0
        invariant
            start == from@,
            d == depth,
            merged_from::<M>(start, bytes@, d) == merged_from::<M>(m@, rest@, d),
        decreases rest@.len(),
    {
        match take_field(rest, depth) {
            Some((f, more)) => {
                let ghost view = f@;
                proof {
                    if read_fields(more@, d) is Some {
                        let fs = read_fields(more@, d)->Some_0;
                        assert((seq![view] + fs).skip(1) =~= fs);
                        assert((seq![view] + fs)[0] == view);
                    }
                }
                if !m.merge(f, depth) {
                    return None;
                }
                rest = more;
            },
            None => {
                return None;
            },
        }
    }
    assert(read_fields(rest@, d) == Some(Seq::<FieldView>::empty()));
    Some(m)
}

pub(crate) fn decode_message<M: Message>(bytes: &[u8]) -> (r: Option<M>)
    ensures
        match r {
            Some(m) => decoded::<M>(bytes@) == Some(m@),
            None => decoded::<M>(bytes@) is None,
        },
{
    merge_message(M::new_blank(), bytes, 0)
}

/// A message inside a field of one at some depth, read on top of what stands
/// there already; `None` where the field carries none, or nests too deep.
pub open spec fn part_of<M: Message>(base: M::V, f: FieldView, depth: nat) -> Option<M::V> {
    match bytes_of(f) {
        None => None,
        Some(b) => if depth >= MAX_DEPTH {
            None
        } else {
            merged_from::<M>(base, b, depth + 1)
        },
    }
}

pub(crate) fn merge_part<M: Message>(base: M, f: Field, depth: u32) -> (r: Option<M>)
    ensures
        match r {
            Some(m) => part_of::<M>(base@, f@, depth as nat) == Some(m@),
            None => part_of::<M>(base@, f@, depth as nat) is None,
        },
{
    match f.value {
        Value::Bytes(b) => if depth >= MAX_DEPTH {
            None
        } else {
            merge_message(base, b.as_slice(), depth + 1)
        },
        _ => None,
    }
}

// ---------------------------------------------------------------------
// Towards reading back
// ---------------------------------------------------------------------

/// Two runs of fields are merged one after the other.
pub proof fn lemma_merge_concat<M: Message>(
    v: M::V,
    a: Seq<FieldView>,
    b: Seq<FieldView>,
    depth: nat,
)
    ensures
        merge_all::<M>(v, a + b, depth) == (match merge_all::<M>(v, a, depth) {
            None => None,
            Some(w) => merge_all::<M>(w, b, depth),
        }),
    decreases a.len(),
{
    if a.len() == 0 {
        assert(a + b =~= b);
    } else {
        assert((a + b).skip(1) =~= a.skip(1) + b);
        assert((a + b)[0] == a[0]);
        match M::merged(v, a[0], depth) {
            None => {},
            Some(w) => {
                lemma_merge_concat::<M>(w, a.skip(1), b, depth);
            },
        }
    }
}

/// A run of at most one field.
pub proof fn lemma_merge_short<M: Message>(v: M::V, fs: Seq<FieldView>, depth: nat)
    requires
        fs.len() <= 1,
    ensures
        fs.len() == 0 ==> merge_all::<M>(v, fs, depth) == Some(v),
        fs.len() == 1 ==> merge_all::<M>(v, fs, depth) == M::merged(v, fs[0], depth),
{
    if fs.len() == 1 {
        match M::merged(v, fs[0], depth) {
            None => {},
            Some(w) => {
                assert(merge_all::<M>(w, fs.skip(1), depth) == Some(w));
            },
        }
    }
}

/// A text reads back from its bytes.
pub proof fn lemma_text_reads_back(t: Seq<char>)
    ensures
        valid_utf8(encode_utf8(t)),
        decode_utf8(encode_utf8(t)) == t,
{
    broadcast use {vstd::utf8::encode_utf8_valid_utf8, vstd::utf8::encode_utf8_decode_utf8};

}

/// A field carries no more bytes than the whole message has.
pub proof fn lemma_field_within(fs: Seq<FieldView>, i: int)
    requires
        0 <= i < fs.len(),
    ensures
        fs[i].value matches ValueView::Bytes(b) ==> b.len() <= fields_bytes(fs).len(),
    decreases fs.len(),
{
    if i > 0 {
        lemma_field_within(fs.skip(1), i - 1);
    }
}

/// A message reads back from its bytes, inside `depth` others.
pub proof fn lemma_reads_back_at<M: Readable>(v: M::V, depth: nat)
    requires
        encoded::<M>(v).len() <= u64::MAX,
        depth + M::height() <= MAX_DEPTH,
    ensures
        merged_from::<M>(M::blank(), encoded::<M>(v), depth) == Some(v),
{
    let fs = M::fields(v);
    M::reads_back(v, depth);
    assert forall|i: int| 0 <= i < fs.len() implies sendable(#[trigger] fs[i]) by {
        assert(tagged(fs[i]));
        lemma_field_within(fs, i);
    }
    lemma_fields_read_back(fs, depth);
}

/// Decoding gives back the message that was encoded, however deep its type
/// nests others, up to the limit.
pub proof fn law_decode_undoes_encode<M: Readable>(v: M::V)
    requires
        encoded::<M>(v).len() <= u64::MAX,
        M::height() <= MAX_DEPTH,
    ensures
        decoded::<M>(encoded::<M>(v)) == Some(v),
{
    lemma_reads_back_at::<M>(v, 0);
}

} // verus!
