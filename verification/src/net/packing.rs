//! Plain values as bytes: the fixed-width encoding of the control channel, the
//! compression of boot payloads, and the varints of the data channel.
use vstd::prelude::*;
use vstd::utf8::{decode_utf8, encode_utf8, valid_utf8};
use crate::bytes::{le_bytes, le_value, pow128, varint};

verus! {

/// A byte string behind its length.
pub open spec fn counted(b: Seq<u8>) -> Seq<u8> {
    le_bytes(b.len(), 8) + b
}

/// A byte string that may be absent, behind a byte that says so.
pub open spec fn optional(b: Option<Seq<u8>>) -> Seq<u8> {
    match b {
        None => seq![0u8],
        Some(b) => seq![1u8] + counted(b),
    }
}

/// The word at the start of a byte string.
pub open spec fn read_word(s: Seq<u8>) -> Option<u32> {
    if s.len() < 4 {
        None
    } else {
        Some(le_value(s.take(4)) as u32)
    }
}

/// The long word at the start of a byte string.
pub open spec fn read_long(s: Seq<u8>) -> Option<u64> {
    if s.len() < 8 {
        None
    } else {
        Some(le_value(s.take(8)) as u64)
    }
}

/// The counted byte string at the start of a byte string.
pub open spec fn read_counted(s: Seq<u8>) -> Option<Seq<u8>> {
    if s.len() < 8 || le_value(s.take(8)) > s.len() - 8 {
        None
    } else {
        Some(s.subrange(8, 8 + le_value(s.take(8)) as int))
    }
}

/// The counted text at the start of a byte string.
pub open spec fn read_counted_text(s: Seq<u8>) -> Option<Seq<char>> {
    match read_counted(s) {
        None => None,
        Some(b) => if valid_utf8(b) {
            Some(decode_utf8(b))
        } else {
            None
        },
    }
}

/// The optional byte string at the start of a byte string.
pub open spec fn read_optional(s: Seq<u8>) -> Option<Option<Seq<u8>>> {
    if s.len() == 0 || s[0] > 1 {
        None
    } else if s[0] == 0 {
        Some(None)
    } else {
        match read_counted(s.skip(1)) {
            None => None,
            Some(b) => Some(Some(b)),
        }
    }
}

/// `bincode::serialize` of a `u32`: 4 bytes, least significant first.
#[verifier::external_body]
pub(crate) fn pack_word(v: u32) -> (b: Option<Vec<u8>>)
    ensures
        b matches Some(b) && b@ == le_bytes(v as nat, 4),
{
    bincode::serialize(&v).ok()
}

/// `bincode::serialize` of a `u64`: 8 bytes, least significant first.
#[verifier::external_body]
pub(crate) fn pack_long(v: u64) -> (b: Option<Vec<u8>>)
    ensures
        b matches Some(b) && b@ == le_bytes(v as nat, 8),
{
    bincode::serialize(&v).ok()
}

/// `bincode::serialize` of a list of bytes: its length as a `u64`, and the
/// bytes.
#[verifier::external_body]
pub(crate) fn pack_bytes(v: &[u8]) -> (b: Option<Vec<u8>>)
    ensures
        b matches Some(b) && b@ == counted(v@),
{
    bincode::serialize(v).ok()
}

/// `bincode::serialize` of a text: the length of its UTF-8 form as a `u64`,
/// and that form.
#[verifier::external_body]
pub(crate) fn pack_text(v: &str) -> (b: Option<Vec<u8>>)
    ensures
        b matches Some(b) && b@ == counted(encode_utf8(v@)),
{
    bincode::serialize(v).ok()
}

/// `bincode::serialize` of an optional list of bytes: a zero, or a one and the
/// list.
#[verifier::external_body]
pub(crate) fn pack_optional(v: &Option<Vec<u8>>) -> (b: Option<Vec<u8>>)
    ensures
        b matches Some(b) && b@ == optional(
            match *v {
                Some(v) => Some(v@),
                None => None,
            },
        ),
{
    bincode::serialize(v).ok()
}

/// `bincode::deserialize` of a `u32`. Bytes behind it are let be.
#[verifier::external_body]
pub(crate) fn unpack_word(b: &[u8]) -> (v: Option<u32>)
    ensures
        v == read_word(b@),
{
    bincode::deserialize(b).ok()
}

/// `bincode::deserialize` of a `u64`. Bytes behind it are let be.
#[verifier::external_body]
pub(crate) fn unpack_long(b: &[u8]) -> (v: Option<u64>)
    ensures
        v == read_long(b@),
{
    bincode::deserialize(b).ok()
}

/// `bincode::deserialize` of a list of bytes, which fails where there are
/// fewer than the length says. Bytes behind it are let be.
#[verifier::external_body]
pub(crate) fn unpack_bytes(b: &[u8]) -> (v: Option<Vec<u8>>)
    ensures
        match v {
            Some(v) => read_counted(b@) == Some(v@),
            None => read_counted(b@) is None,
        },
{
    bincode::deserialize(b).ok()
}

/// `bincode::deserialize` of a text, which fails where there are fewer bytes
/// than the length says or they are not UTF-8. Bytes behind it are let be.
#[verifier::external_body]
pub(crate) fn unpack_text(b: &[u8]) -> (v: Option<String>)
    ensures
        match v {
            Some(v) => read_counted_text(b@) == Some(v@),
            None => read_counted_text(b@) is None,
        },
{
    bincode::deserialize(b).ok()
}

/// `bincode::deserialize` of an optional list of bytes, which fails on a first
/// byte other than zero and one. Bytes behind it are let be.
#[verifier::external_body]
pub(crate) fn unpack_optional(b: &[u8]) -> (v: Option<Option<Vec<u8>>>)
    ensures
        match v {
            Some(Some(v)) => read_optional(b@) == Some(Some(v@)),
            Some(None) => read_optional(b@) == Some(None::<Seq<u8>>),
            None => read_optional(b@) is None,
        },
{
    bincode::deserialize(b).ok()
}

/// What zstd makes of a byte string at a compression level.
pub uninterp spec fn zstd_packed(bytes: Seq<u8>, level: i32) -> Seq<u8>;

/// The byte string that zstd frames hold; `None` where they are malformed.
pub uninterp spec fn zstd_unpacked(bytes: Seq<u8>) -> Option<Seq<u8>>;

/// `zstd::encode_all` over a byte string, whose frame unpacks to the bytes that
/// went in. The level is clamped to those there are, and a byte string in
/// memory always reads: short of memory running out, it succeeds.
#[verifier::external_body]
pub(crate) fn compress(bytes: &[u8], level: i32) -> (z: Option<Vec<u8>>)
    ensures
        z matches Some(z) && z@ == zstd_packed(bytes@, level) && zstd_unpacked(z@) == Some(bytes@),
{
    zstd::encode_all(bytes, level).ok()
}

/// `zstd::decode_all` over a byte string: what its frames hold, or nothing
/// where they are malformed.
#[verifier::external_body]
pub(crate) fn decompress(bytes: &[u8]) -> (b: Option<Vec<u8>>)
    ensures
        match b {
            Some(b) => zstd_unpacked(bytes@) == Some(b@),
            None => zstd_unpacked(bytes@) is None,
        },
{
    zstd::decode_all(bytes).ok()
}

/// A word reads back, whatever follows.
pub proof fn lemma_word_reads_back(v: u32, tail: Seq<u8>)
    ensures
        le_bytes(v as nat, 4).len() == 4,
        read_word(le_bytes(v as nat, 4) + tail) == Some(v),
{
    crate::bytes::lemma_pow256_widths();
    crate::bytes::lemma_le_roundtrip(v as nat, 4);
    assert((le_bytes(v as nat, 4) + tail).take(4) =~= le_bytes(v as nat, 4));
}

/// A long word reads back, whatever follows.
pub proof fn lemma_long_reads_back(v: u64, tail: Seq<u8>)
    ensures
        le_bytes(v as nat, 8).len() == 8,
        read_long(le_bytes(v as nat, 8) + tail) == Some(v),
{
    crate::bytes::lemma_pow256_widths();
    crate::bytes::lemma_le_roundtrip(v as nat, 8);
    assert((le_bytes(v as nat, 8) + tail).take(8) =~= le_bytes(v as nat, 8));
}

/// A counted byte string reads back, whatever follows.
pub proof fn lemma_counted_reads_back(b: Seq<u8>, tail: Seq<u8>)
    requires
        b.len() <= u64::MAX,
    ensures
        counted(b).len() == 8 + b.len(),
        read_counted(counted(b) + tail) == Some(b),
{
    crate::bytes::lemma_pow256_widths();
    crate::bytes::lemma_le_roundtrip(b.len(), 8);
    let s = counted(b) + tail;
    assert(s.take(8) =~= le_bytes(b.len(), 8));
    assert(s.subrange(8, 8 + b.len() as int) =~= b);
}

/// An optional byte string reads back, whatever follows.
pub proof fn lemma_optional_reads_back(b: Option<Seq<u8>>, tail: Seq<u8>)
    requires
        b matches Some(v) ==> v.len() <= u64::MAX,
    ensures
        read_optional(optional(b) + tail) == Some(b),
{
    match b {
        None => {},
        Some(v) => {
            lemma_counted_reads_back(v, tail);
            assert((optional(b) + tail).skip(1) =~= counted(v) + tail);
        },
    }
}

// ---------------------------------------------------------------------
// Varints
// ---------------------------------------------------------------------

/// A signed number folded onto the unsigned ones: 0, -1, 1, -2, 2 and so on.
pub open spec fn zigzag(v: int) -> nat {
    if v >= 0 {
        (2 * v) as nat
    } else {
        (-2 * v - 1) as nat
    }
}

/// The signed number behind a folded one.
pub open spec fn unzigzag(v: nat) -> int {
    if v % 2 == 0 {
        v as int / 2
    } else {
        -(v as int / 2) - 1
    }
}

/// Why a number or a value does not read.
#[derive(Debug, Clone, Copy, PartialEq, Eq)]
pub enum CodecError {
    /// The bytes run out.
    UnexpectedEof,
    /// A varint past 64 bits.
    Overlong,
    /// A tick advantage past 16 bits.
    TickAdvantage,
    /// A checkpoint tick past 32 bits.
    CheckpointTick,
}

/// The varint at the start of a byte string that has `n` of its bytes behind
/// it already, and how many bytes it takes.
pub open spec fn read_uvarint(s: Seq<u8>, n: nat) -> Result<(nat, nat), CodecError>
    decreases s.len(),
{
    if n >= 10 {
        Err(CodecError::Overlong)
    } else if s.len() == 0 {
        Err(CodecError::UnexpectedEof)
    } else if n == 9 && s[0] >= 2 {
        Err(CodecError::Overlong)
    } else if s[0] < 128 {
        Ok((s[0] as nat, 1))
    } else {
        match read_uvarint(s.skip(1), n + 1) {
            Err(e) => Err(e),
            Ok((v, used)) => Ok(((s[0] - 128 + 128 * v) as nat, used + 1)),
        }
    }
}

/// Append a number as a varint.
pub fn write_uvarint(out: &mut Vec<u8>, v: u64)
    ensures
        final(out)@ == old(out)@ + varint(v as nat),
{
    let mut v: u64 = v;
    let ghost whole = old(out)@ + varint(v as nat);
    while v >= 128
        invariant
            out@ + varint(v as nat) == whole,
        decreases v,
    {
        let ghost before = out@;
        let low: u8 = (v % 128 + 128) as u8;
        out.push(low);
        proof {
            assert(before + varint(v as nat) =~= before.push(low) + varint(v as nat / 128));
        }
        v = v / 128;
    }
    out.push(v as u8);
    assert(out@ =~= whole);
}

/// Append a signed number, folded, as a varint.
pub fn write_svarint(out: &mut Vec<u8>, v: i64)
    ensures
        final(out)@ == old(out)@ + varint(zigzag(v as int)),
{
    let folded: u64 = if v >= 0 {
        2 * (v as u64)
    } else {
        2 * ((-(v + 1)) as u64) + 1
    };
    write_uvarint(out, folded);
}

/// Take the varint at the front off a byte string.
pub fn take_uvarint(r: &[u8]) -> (v: Result<(u64, usize), CodecError>)
    ensures
        match v {
            Ok((v, used)) => read_uvarint(r@, 0) == Ok::<(nat, nat), CodecError>(
                (v as nat, used as nat),
            ) && 1 <= used <= r@.len(),
            Err(e) => read_uvarint(r@, 0) == Err::<(nat, nat), CodecError>(e),
        },
{
    // Find the last byte, then add the groups up from the top.
    let mut n: usize = 0;
    proof {
        assert(r@.skip(0) =~= r@);
    }
    loop
        invariant_except_break
            n <= 9,
        invariant
            n <= r@.len(),
            n <= 9,
            forall|k: int| 0 <= k < n ==> r@[k] >= 128,
            match read_uvarint(r@.skip(n as int), n as nat) {
                Err(e) => read_uvarint(r@, 0) == Err::<(nat, nat), CodecError>(e),
                Ok((v, used)) => read_uvarint(r@, 0) is Ok,
            },
        ensures
            n < r@.len(),
            r@[n as int] < 128,
            n == 9 ==> r@[9] < 2,
        decreases 10 - n,
    {
        let ghost here = r@.skip(n as int);
        if n >= r.len() {
            return Err(CodecError::UnexpectedEof);
        }
        if n == 9 && r[n] >= 2 {
            return Err(CodecError::Overlong);
        }
        if r[n] < 128 {
            break;
        }
        proof {
            assert(here.skip(1) =~= r@.skip(n + 1));
        }
        n = n + 1;
    }
    let mut v: u64 = r[n] as u64;
    let mut i: usize = n;
    proof {
        reveal_with_fuel(pow128, 10);
        assert(r@.skip(n as int)[0] == r@[n as int]);
    }
    while i > 0
        invariant
            i <= n <= 9,
            n < r@.len(),
            forall|k: int| 0 <= k < n ==> r@[k] >= 128,
            read_uvarint(r@.skip(i as int), i as nat) == Ok::<(nat, nat), CodecError>(
                (v as nat, (n - i + 1) as nat),
            ),
            n < 9 ==> v < pow128((n - i + 1) as nat),
            n == 9 ==> v < 2 * pow128((n - i) as nat),
        decreases i,
    {
        proof {
            reveal_with_fuel(pow128, 11);
            let t = r@.skip(i - 1);
            assert(t.skip(1) =~= r@.skip(i as int));
            assert(t[0] == r@[i - 1]);
        }
        i = i - 1;
        v = (r[i] as u64 - 128) + 128 * v;
    }
    proof {
        assert(r@.skip(0) =~= r@);
    }
    Ok((v, n + 1))
}

proof fn lemma_uvarint_tail(v: nat, n: nat, tail: Seq<u8>)
    requires
        n <= 9,
        v * pow128(n) < 0x1_0000_0000_0000_0000,
    ensures
        varint(v).len() >= 1,
        read_uvarint(varint(v) + tail, n) == Ok::<(nat, nat), CodecError>((v, varint(v).len())),
    decreases v,
{
    reveal_with_fuel(pow128, 10);
    let s = varint(v) + tail;
    if n == 9 {
        assert(v < 2) by (nonlinear_arith)
            requires
                v * pow128(n) < 0x1_0000_0000_0000_0000,
                pow128(n) == 0x8000_0000_0000_0000,
        ;
    }
    if v >= 128 {
        let q = v / 128;
        assert(q * pow128(n + 1) < 0x1_0000_0000_0000_0000) by (nonlinear_arith)
            requires
                pow128(n + 1) == 128 * pow128(n),
                128 * q <= v,
                v * pow128(n) < 0x1_0000_0000_0000_0000,
        ;
        lemma_uvarint_tail(q, n + 1, tail);
        assert(s.skip(1) =~= varint(q) + tail);
    }
}

/// A number up to 64 bits reads back from its varint, whatever follows.
pub proof fn lemma_uvarint_reads_back(v: nat, tail: Seq<u8>)
    requires
        v <= u64::MAX,
    ensures
        varint(v).len() >= 1,
        read_uvarint(varint(v) + tail, 0) == Ok::<(nat, nat), CodecError>((v, varint(v).len())),
{
    assert(v * pow128(0) == v) by (nonlinear_arith)
        requires
            pow128(0) == 1,
    ;
    lemma_uvarint_tail(v, 0, tail);
}

/// Unfolding gives back the signed number that was folded.
pub proof fn lemma_zigzag(v: int)
    ensures
        unzigzag(zigzag(v)) == v,
{
}

} // verus!
