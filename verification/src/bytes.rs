//! Little-endian integers and bounded reads over byte strings.
use vstd::prelude::*;

pub mod laws;

verus! {

/// `256^n`: one more than the largest value `n` bytes can hold.
pub open spec fn pow256(n: nat) -> nat
    decreases n,
{
    if n == 0 {
        1
    } else {
        256 * pow256((n - 1) as nat)
    }
}

/// The `n` low bytes of `x`, least significant first.
pub open spec fn le_bytes(x: nat, n: nat) -> Seq<u8>
    decreases n,
{
    if n == 0 {
        Seq::<u8>::empty()
    } else {
        seq![(x % 256) as u8] + le_bytes(x / 256, (n - 1) as nat)
    }
}

/// The number a byte string spells, least significant byte first.
pub open spec fn le_value(s: Seq<u8>) -> nat
    decreases s.len(),
{
    if s.len() == 0 {
        0
    } else {
        s[0] as nat + 256 * le_value(s.skip(1))
    }
}

/// `le_bytes` always yields exactly `n` bytes.
pub proof fn lemma_le_bytes_len(x: nat, n: nat)
    ensures
        le_bytes(x, n).len() == n,
    decreases n,
{
    if n > 0 {
        lemma_le_bytes_len(x / 256, (n - 1) as nat);
    }
}

/// Reading back what was written gives the number, as long as it fits.
pub proof fn lemma_le_roundtrip(x: nat, n: nat)
    requires
        x < pow256(n),
    ensures
        le_bytes(x, n).len() == n,
        le_value(le_bytes(x, n)) == x,
    decreases n,
{
    if n > 0 {
        lemma_le_roundtrip(x / 256, (n - 1) as nat);
        assert(le_bytes(x, n).skip(1) =~= le_bytes(x / 256, (n - 1) as nat));
    }
}

/// Writing back what was read gives the bytes.
pub proof fn lemma_le_value_bytes(s: Seq<u8>)
    ensures
        le_value(s) < pow256(s.len()),
        le_bytes(le_value(s), s.len()) == s,
    decreases s.len(),
{
    if s.len() > 0 {
        let tail = s.skip(1);
        lemma_le_value_bytes(tail);
        let v = le_value(s);
        assert(v % 256 == s[0] as nat && v / 256 == le_value(tail));
        assert(seq![s[0]] + tail =~= s);
    } else {
        assert(le_bytes(le_value(s), 0) =~= s);
    }
}

/// The widths in use: 2, 4 and 8 bytes.
pub proof fn lemma_pow256_widths()
    ensures
        pow256(1) == 0x100,
        pow256(2) == 0x1_0000,
        pow256(4) == 0x1_0000_0000,
        pow256(8) == 0x1_0000_0000_0000_0000,
{
    reveal_with_fuel(pow256, 9);
}

/// Append the `n` low bytes of `x`.
pub fn push_le(out: &mut Vec<u8>, x: u64, n: usize)
    ensures
        final(out)@ == old(out)@ + le_bytes(x as nat, n as nat),
{
    let mut v: u64 = x;
    let mut i: usize = 0;
    while i < n
        invariant
            i <= n,
            out@ + le_bytes(v as nat, (n - i) as nat) == old(out)@ + le_bytes(x as nat, n as nat),
        decreases n - i,
    {
        let ghost before = out@;
        let low: u8 = (v % 256) as u8;
        out.push(low);
        proof {
            assert(before.push(low) + le_bytes(v as nat / 256, (n - i - 1) as nat) =~= before
                + le_bytes(v as nat, (n - i) as nat));
        }
        v = v / 256;
        i = i + 1;
    }
    assert(out@ + le_bytes(v as nat, 0) =~= out@);
}

/// Append a byte string.
pub fn push_all(out: &mut Vec<u8>, more: &[u8])
    ensures
        final(out)@ == old(out)@ + more@,
{
    let ghost before = out@;
    out.extend_from_slice(more);
    assert(out@ =~= before + more@);
}

/// The number a byte string spells.
pub fn read_le(s: &[u8]) -> (v: u64)
    requires
        s@.len() <= 8,
    ensures
        v == le_value(s@),
        v < pow256(s@.len()),
{
    let n: usize = s.len();
    let mut v: u64 = 0;
    let mut i: usize = n;
    proof {
        assert(s@.skip(n as int) =~= Seq::<u8>::empty());
    }
    while i > 0
        invariant
            n == s@.len(),
            n <= 8,
            i <= n,
            v == le_value(s@.skip(i as int)),
            v < pow256((n - i) as nat),
        decreases i,
    {
        proof {
            let t = s@.skip(i - 1);
            assert(t.skip(1) =~= s@.skip(i as int));
            assert(t[0] == s@[i - 1]);
            reveal_with_fuel(pow256, 9);
        }
        i = i - 1;
        v = s[i] as u64 + 256 * v;
    }
    proof {
        assert(s@.skip(0) =~= s@);
    }
    v
}

/// An owned copy of a byte string.
pub fn to_vec(s: &[u8]) -> (v: Vec<u8>)
    ensures
        v@ == s@,
{
    let mut v: Vec<u8> = Vec::new();
    push_all(&mut v, s);
    assert(v@ =~= s@);
    v
}

/// Whether two byte strings are the same.
pub fn same_bytes(a: &[u8], b: &[u8]) -> (same: bool)
    ensures
        same == (a@ == b@),
{
    if a.len() != b.len() {
        return false;
    }
    let mut i: usize = 0;
    while i < a.len()
        invariant
            i <= a@.len(),
            a@.len() == b@.len(),
            forall|k: int| 0 <= k < i ==> a@[k] == b@[k],
        decreases a@.len() - i,
    {
        if a[i] != b[i] {
            return false;
        }
        i = i + 1;
    }
    assert(a@ =~= b@);
    true
}

/// A number in groups of 7 bits, least significant first, every byte but the
/// last marked.
pub open spec fn varint(v: nat) -> Seq<u8>
    decreases v,
{
    if v < 128 {
        seq![v as u8]
    } else {
        seq![(v % 128 + 128) as u8] + varint(v / 128)
    }
}

/// `128^n`.
pub open spec fn pow128(n: nat) -> nat
    decreases n,
{
    if n == 0 {
        1
    } else {
        128 * pow128((n - 1) as nat)
    }
}

} // verus!
