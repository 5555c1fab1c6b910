//! What holds of what peers send one another, said of the bytes and the
//! messages themselves.
use vstd::prelude::*;
use vstd::utf8::encode_utf8;
use crate::bytes::laws::{groups_value, law_the_lowest_byte_comes_first};
use crate::bytes::{le_bytes, varint};
use crate::net::boots::{
    boot_controls, boot_error_text, chunks_from, heard, on_boot_message, said, BootErrorView,
    BootStep,
};
use crate::net::packing::{
    counted, optional, read_uvarint, unzigzag, zigzag, CodecError,
};
use crate::net::protocol::{
    blob_bytes, control_bytes, described, meta_bytes, read_control, read_input, read_meta,
    signal_bytes, BootBlobView, Input, Meta, PeerControl, PeerControlView,
    PeerSignalView,
};
use crate::text::{decimal, listed};

verus! {

// ---------------------------------------------------------------------
// The data channel
// ---------------------------------------------------------------------

/// Numbers close to zero fold onto small ones, whatever their sign: the
/// negative ones in between, none twice.
pub proof fn law_signed_numbers_are_folded(v: int, w: int)
    ensures
        v >= 0 ==> zigzag(v) == 2 * v,
        v < 0 ==> zigzag(v) == 2 * (-v) - 1,
        unzigzag(zigzag(v)) == v,
        zigzag(v) == zigzag(w) ==> v == w,
{
    crate::net::packing::lemma_zigzag(v);
    crate::net::packing::lemma_zigzag(w);
}

/// A varint is read up to its first byte without the top bit, as the number
/// its groups of seven bits make up. It runs out where there is no such byte.
pub proof fn law_varints_are_read_to_their_end(s: Seq<u8>, n: nat, k: int)
    requires
        n + k <= 9,
        0 <= k <= s.len(),
        forall|i: int| 0 <= i < k ==> #[trigger] s[i] >= 128,
    ensures
        k == s.len() ==> read_uvarint(s, n) == Err::<(nat, nat), CodecError>(
            CodecError::UnexpectedEof,
        ),
        k < s.len() && s[k] < 128 && n + k < 9 ==> read_uvarint(s, n) == Ok::<
            (nat, nat),
            CodecError,
        >((groups_value(s.take(k + 1)), (k + 1) as nat)),
        k < s.len() && n + k == 9 && s[k] >= 2 ==> read_uvarint(s, n) == Err::<
            (nat, nat),
            CodecError,
        >(CodecError::Overlong),
    decreases k,
{
    let t = s.take(k + 1);
    if k > 0 {
        let rest = s.skip(1);
        assert(s[0] >= 128);
        assert forall|i: int| 0 <= i < k - 1 implies #[trigger] rest[i] >= 128 by {
            assert(s[i + 1] >= 128);
        }
        law_varints_are_read_to_their_end(rest, n + 1, k - 1);
        if k < s.len() {
            assert(rest[k - 1] == s[k]);
            assert(t.skip(1) =~= rest.take(k));
            assert(s[0] as nat % 128 == s[0] - 128);
        }
    } else if s.len() > 0 {
        assert(t.skip(1) =~= Seq::<u8>::empty());
        assert(groups_value(t.skip(1)) == 0);
        if s[0] < 128 {
            assert(t[0] as nat % 128 == t[0] as nat);
        }
    }
}

/// An input is two bytes, the lower first, with all sixteen bits; nothing is a
/// clean end, and half an input is an error.
pub proof fn law_inputs_are_two_bytes(a: u8, b: u8, tail: Seq<u8>)
    ensures
        read_input(seq![a, b] + tail) matches Ok(Some((i, used))) && i.0 == a + 256 * b && used
            == 2,
        read_input(Seq::empty()) == Ok::<Option<(Input, nat)>, CodecError>(None),
        read_input(seq![a]) == Err::<Option<(Input, nat)>, CodecError>(CodecError::UnexpectedEof),
{
    let s = seq![a, b] + tail;
    assert(s.take(2) =~= seq![a, b]);
    crate::bytes::laws::law_later_bytes_weigh_more(a, b, 0, 0);
}

/// A frame's side channel: the advantage folded, the checkpoint's tick, both as
/// varints, and its digest in four bytes, the lowest first.
pub proof fn law_what_a_meta_is_sent_as(m: Meta)
    ensures
        ({
            let b = meta_bytes(m);
            let advantage = varint(zigzag(m.tick_advantage as int));
            let tick = varint(m.checkpoint_tick as nat);
            let d = m.checkpoint_digest;
            b == advantage + tick + seq![
                (d % 256) as u8,
                (d / 0x100 % 256) as u8,
                (d / 0x1_0000 % 256) as u8,
                (d / 0x100_0000) as u8,
            ]
        }),
{
    law_the_lowest_byte_comes_first(m.checkpoint_digest as nat);
}

/// A side channel whose numbers are too large is no meta: what reads has an
/// advantage of sixteen bits and a tick of thirty-two.
pub proof fn law_metas_are_in_range(s: Seq<u8>, a: nat, n: nat)
    requires
        read_uvarint(s, 0) == Ok::<(nat, nat), CodecError>((a, n)),
    ensures
        unzigzag(a) > 32767 || unzigzag(a) < -32768 ==> read_meta(s) == Err::<
            (Meta, nat),
            CodecError,
        >(CodecError::TickAdvantage),
        read_meta(s) matches Ok((m, _)) ==> m.tick_advantage == unzigzag(a),
{
}

// ---------------------------------------------------------------------
// The control channel
// ---------------------------------------------------------------------

/// Which of the control messages is sent is said by four bytes in front: zero
/// for a greeting, one for a quit, two for an announcement, three for a chunk.
/// A greeting carries the version, an announcement the length, in four bytes,
/// and a chunk its bytes behind their number in eight.
pub proof fn law_what_a_control_is_sent_as(c: PeerControl, i: int)
    requires
        c matches PeerControl::BootChunk(b) ==> b@.len() < 0x100,
    ensures
        ({
            let b = control_bytes(c@);
            &&& c matches PeerControl::Hello { net_version } ==> b == seq![0u8, 0, 0, 0] + seq![
                (net_version % 256) as u8,
                (net_version / 0x100 % 256) as u8,
                (net_version / 0x1_0000 % 256) as u8,
                (net_version / 0x100_0000) as u8,
            ]
            &&& c is Quit ==> b == seq![1u8, 0, 0, 0]
            &&& c matches PeerControl::Boot { len } ==> b == seq![2u8, 0, 0, 0] + seq![
                (len % 256) as u8,
                (len / 0x100 % 256) as u8,
                (len / 0x1_0000 % 256) as u8,
                (len / 0x100_0000) as u8,
            ]
            &&& c matches PeerControl::BootChunk(x) ==> b == seq![3u8, 0, 0, 0] + seq![
                x@.len() as u8,
                0,
                0,
                0,
                0,
                0,
                0,
                0,
            ] + x@
        }),
{
    law_the_lowest_byte_comes_first(0);
    law_the_lowest_byte_comes_first(1);
    law_the_lowest_byte_comes_first(2);
    law_the_lowest_byte_comes_first(3);
    let b = control_bytes(c@);
    match c {
        PeerControl::Hello { net_version } => {
            law_the_lowest_byte_comes_first(net_version as nat);
            assert(le_bytes(0, 4) =~= seq![0u8, 0, 0, 0]);
        },
        PeerControl::Quit => {
            assert(b =~= seq![1u8, 0, 0, 0]);
        },
        PeerControl::Boot { len } => {
            law_the_lowest_byte_comes_first(len as nat);
            assert(le_bytes(2, 4) =~= seq![2u8, 0, 0, 0]);
        },
        PeerControl::BootChunk(x) => {
            let n = x@.len();
            law_the_lowest_byte_comes_first(n);
            law_the_lowest_byte_comes_first(n / 0x1_0000_0000);
            assert(le_bytes(n, 8) =~= seq![n as u8, 0, 0, 0, 0, 0, 0, 0]);
            assert(b =~= seq![3u8, 0, 0, 0] + seq![n as u8, 0, 0, 0, 0, 0, 0, 0] + x@);
        },
    }
}

/// A message that begins with another number, or with none, is no control
/// message.
pub proof fn law_unknown_controls_do_not_read(a: u8, tail: Seq<u8>)
    requires
        a >= 4,
    ensures
        read_control(seq![a, 0u8, 0, 0] + tail) is None,
        tail.len() < 4 ==> read_control(tail) is None,
{
    let s = seq![a, 0u8, 0, 0] + tail;
    assert(s.take(4) =~= seq![a, 0u8, 0, 0]);
    crate::bytes::laws::law_later_bytes_weigh_more(a, 0, 0, 0);
}

/// Control messages are told to a reader by name and content.
pub proof fn law_how_controls_are_described(n: u32, b: Seq<u8>)
    ensures
        described(PeerControlView::Hello { net_version: n }) == "Hello { net_version: "@ + decimal(
            n as nat,
        ) + " }"@,
        described(PeerControlView::Quit) == "Quit"@,
        described(PeerControlView::Boot { len: n }) == "Boot { len: "@ + decimal(n as nat) + " }"@,
        described(PeerControlView::BootChunk(b)) == "BootChunk(["@ + listed(b, 0) + "])"@,
{
}

/// What is relayed while the mesh is built: zero and the two texts of a
/// description, or one and the text of a candidate, each text in UTF-8 behind
/// the number of its bytes.
pub proof fn law_what_a_signal_is_sent_as(a: Seq<char>, b: Seq<char>)
    requires
        encode_utf8(a).len() < 0x100,
        encode_utf8(b).len() < 0x100,
    ensures
        ({
            let head = |t: Seq<char>|
                seq![encode_utf8(t).len() as u8, 0u8, 0, 0, 0, 0, 0, 0] + encode_utf8(t);
            &&& signal_bytes(PeerSignalView::Description { sdp_type: a, sdp: b }) == seq![
                0u8,
                0,
                0,
                0,
            ] + head(a) + head(b)
            &&& signal_bytes(PeerSignalView::Candidate { candidate: a }) == seq![1u8, 0, 0, 0]
                + head(a)
        }),
{
    law_the_lowest_byte_comes_first(0);
    law_the_lowest_byte_comes_first(1);
    assert(le_bytes(0, 4) =~= seq![0u8, 0, 0, 0]);
    assert(le_bytes(1, 4) =~= seq![1u8, 0, 0, 0]);
    lemma_short_count(encode_utf8(a));
    lemma_short_count(encode_utf8(b));
}

proof fn lemma_short_count(b: Seq<u8>)
    requires
        b.len() < 0x100,
    ensures
        counted(b) == seq![b.len() as u8, 0u8, 0, 0, 0, 0, 0, 0] + b,
{
    let n = b.len();
    law_the_lowest_byte_comes_first(n);
    law_the_lowest_byte_comes_first(n / 0x1_0000_0000);
    assert(le_bytes(n, 8) =~= seq![n as u8, 0, 0, 0, 0, 0, 0, 0]);
}

/// A boot payload before it is packed: the state behind its length, a zero or a
/// one and the save behind its length, and the clock in eight bytes.
pub proof fn law_what_a_boot_payload_holds(b: BootBlobView)
    ensures
        blob_bytes(b) == counted(b.state) + (match b.save {
            None => seq![0u8],
            Some(s) => seq![1u8] + counted(s),
        }) + le_bytes(b.clock_unix_micros as nat, 8),
        optional(None) == seq![0u8],
{
}

// ---------------------------------------------------------------------
// Boot payloads on their way
// ---------------------------------------------------------------------

/// What is sent of a payload: its length first, then all of its bytes in order
/// in chunks, the chunks put together being the payload.
pub proof fn law_a_payload_is_announced_and_cut(blob: Seq<u8>, i: int)
    requires
        blob.len() <= u32::MAX,
    ensures
        boot_controls(blob)[0] == (PeerControlView::Boot { len: blob.len() as u32 }),
        0 < i < boot_controls(blob).len() ==> boot_controls(blob)[i] == PeerControlView::BootChunk(
            chunks_from(blob, 0)[i - 1],
        ),
        boot_controls(blob).len() == chunks_from(blob, 0).len() + 1,
        chunks_from(blob, 0).flatten() == blob,
{
    lemma_chunks_make_up(blob, 0);
    assert(blob.skip(0) =~= blob);
}

proof fn lemma_chunks_make_up(blob: Seq<u8>, at: int)
    requires
        0 <= at <= blob.len(),
    ensures
        chunks_from(blob, at).flatten() == blob.skip(at),
    decreases blob.len() - at,
{
    let c = chunks_from(blob, at);
    let size = crate::net::protocol::BOOT_CHUNK as int;
    if at >= blob.len() {
        assert(c.flatten() =~= blob.skip(at));
    } else if at + size >= blob.len() {
        assert(c =~= seq![blob.skip(at)]);
        assert(c.drop_first() =~= Seq::<Seq<u8>>::empty());
        assert(c.flatten() =~= blob.skip(at) + Seq::<Seq<u8>>::empty().flatten());
        assert(Seq::<Seq<u8>>::empty().flatten() =~= Seq::<u8>::empty());
        assert(c.flatten() =~= blob.skip(at));
    } else {
        lemma_chunks_make_up(blob, at + size);
        assert(c.drop_first() =~= chunks_from(blob, at + size));
        assert(c.first() == blob.subrange(at, at + size));
        assert(c.flatten() =~= blob.subrange(at, at + size) + blob.skip(at + size));
        assert(c.flatten() =~= blob.skip(at));
    }
}

/// What comes of a message while a payload is on its way. The length is awaited
/// first, and may be up to 4 MiB; then chunks are, each put behind the others;
/// the payload is there when it has the length announced. A quit before the
/// announcement is a player leaving, and anything else that is not awaited
/// fails the exchange.
pub proof fn law_what_comes_of_a_boot_message(
    len: Option<u32>,
    buf: Seq<u8>,
    msg: Seq<u8>,
    m: PeerControlView,
)
    ensures
        heard(msg) == Some(m) ==> {
            let o = on_boot_message(len, buf, msg);
            &&& len is None ==> (m matches PeerControlView::Boot { len: n } ==> {
                &&& n > 4 * 1024 * 1024 ==> o == BootStep::Failed(BootErrorView::TooLarge(n))
                &&& 0 < n <= 4 * 1024 * 1024 ==> o == (BootStep::More {
                    len: n,
                    buf: Seq::empty(),
                })
                &&& n == 0 ==> o == BootStep::Done(Seq::empty())
            })
            &&& len is None && m is Quit ==> o == BootStep::Failed(BootErrorView::PeerQuit)
            &&& len is None && (m is Hello || m is BootChunk) ==> o == BootStep::Failed(
                BootErrorView::NotAnnounced(m),
            )
            &&& len matches Some(n) ==> (m matches PeerControlView::BootChunk(b) ==> {
                &&& buf.len() + b.len() < n ==> o == (BootStep::More { len: n, buf: buf + b })
                &&& buf.len() + b.len() == n ==> o == BootStep::Done(buf + b)
                &&& buf.len() + b.len() > n ==> o == BootStep::Failed(BootErrorView::Overran)
            })
            &&& len is Some && !(m is BootChunk) ==> o == BootStep::Failed(
                BootErrorView::NotAChunk(m),
            )
        },
        heard(msg) is None ==> on_boot_message(len, buf, msg) == BootStep::Failed(
            if len is None {
                BootErrorView::BadAnnouncement
            } else {
                BootErrorView::BadChunk
            },
        ),
{
    assert(crate::net::protocol::MAX_BOOT_SIZE == 4 * 1024 * 1024);
    if len is None && heard(msg) == Some(PeerControlView::Boot { len: 0 }) {
        assert(on_boot_message(len, buf, msg) == BootStep::Done(Seq::empty()));
    }
}

/// What is heard is what the bytes read as, and what is said reads as it was
/// meant.
pub proof fn law_controls_are_heard_as_said(c: PeerControlView)
    requires
        c matches PeerControlView::BootChunk(b) ==> b.len() <= u64::MAX,
    ensures
        heard(said(c)) == Some(c),
        said(c) == control_bytes(c),
        heard(said(c)) == read_control(control_bytes(c)),
{
    reveal(heard);
    reveal(said);
    crate::net::protocol::law_controls_read_back(c, Seq::empty());
    assert(control_bytes(c) + Seq::<u8>::empty() =~= control_bytes(c));
}

/// What is said of an exchange that fails; players are counted from one.
pub proof fn law_what_is_said_of_a_failed_exchange(player: nat, n: u32, c: PeerControlView)
    ensures
        boot_error_text(BootErrorView::PeerQuit, player) == "player "@ + decimal(player + 1)
            + " left before the session"@,
        boot_error_text(BootErrorView::BadAnnouncement, player) == "bad boot announcement"@,
        boot_error_text(BootErrorView::NotAnnounced(c), player)
            == "expected a boot payload, got "@ + described(c),
        boot_error_text(BootErrorView::TooLarge(n), player)
            == "boot payload implausibly large ("@ + decimal(n as nat) + " bytes)"@,
        boot_error_text(BootErrorView::BadChunk, player) == "bad boot chunk"@,
        boot_error_text(BootErrorView::NotAChunk(c), player) == "expected a boot chunk, got "@
            + described(c),
        boot_error_text(BootErrorView::Overran, player)
            == "boot payload overran its announced length"@,
        boot_error_text(BootErrorView::ClosedBefore, player)
            == "control channel closed before boot payload"@,
        boot_error_text(BootErrorView::ClosedMidway, player)
            == "control channel closed mid boot payload"@,
        boot_error_text(BootErrorView::TimedOut, player) == "timed out exchanging boot payloads"@,
{
}

} // verus!
