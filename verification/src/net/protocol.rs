//! The peer-to-peer wire protocol. Each mesh edge carries two channels:
//!
//! * `gbaroll-ctl` (reliable, ordered): [`PeerControl`] messages, the version
//!   handshake, the boot-payload exchange that plugs the cable in, and the
//!   deliberate quit.
//! * `gbaroll-data` (unreliable, unordered): frames of [`Input`] elements, one
//!   per local tick, with a per-frame [`Meta`] carrying clock sync and the
//!   newest settled-state checkpoint for cross-peer desync detection.
use vstd::prelude::*;
use vstd::utf8::encode_utf8;
use crate::bytes::{le_bytes, le_value, push_le, read_le, varint};
use crate::net::packing::{
    compress, counted, decompress, optional, pack_bytes, pack_long, pack_optional, pack_text,
    pack_word, read_counted, read_counted_text, read_long, read_optional, read_uvarint, read_word,
    take_uvarint, unpack_bytes, unpack_long, unpack_optional, unpack_text, unpack_word, unzigzag,
    write_svarint, write_uvarint, zigzag, zstd_packed, zstd_unpacked, CodecError,
};
use crate::text::{decimal, listed, push_decimal, push_listed};

verus! {

/// Bumped on any incompatible change to the peer protocol.
pub const NET_VERSION: u32 = 3;

/// Rollback horizon: how far ahead of a missing input the streams will buffer
/// before declaring the peer unrecoverable (about 10 s at 60 fps).
pub const HORIZON: u32 = 600;

/// Chunk size for the boot exchange, comfortably under the negotiated
/// datachannel message cap (256 KiB).
pub const BOOT_CHUNK: usize = 65_536;

/// Sanity cap on an encoded boot payload (a core state is about 400 KiB and
/// saves top out at 128 KiB, both before compression).
pub const MAX_BOOT_SIZE: usize = 4_194_304;

/// The compression level of boot payloads: zstd's own default.
pub const BOOT_LEVEL: i32 = 0;

/// One player's joypad for one tick (10 bits used).
#[derive(Clone, Copy, Debug, PartialEq, Eq, Structural)]
pub struct Input(pub u16);

/// An input at the start of a byte string, and how many bytes it takes. No
/// bytes at all is a clean end of the run; one byte is a truncated element.
pub open spec fn read_input(s: Seq<u8>) -> Result<Option<(Input, nat)>, CodecError> {
    if s.len() == 0 {
        Ok(None)
    } else if s.len() == 1 {
        Err(CodecError::UnexpectedEof)
    } else {
        Ok(Some((Input(le_value(s.take(2)) as u16), 2)))
    }
}

impl Input {
    pub fn encode(&self, w: &mut Vec<u8>)
        ensures
            final(w)@ == old(w)@ + le_bytes(self.0 as nat, 2),
    {
        push_le(w, self.0 as u64, 2);
    }

    /// The input at the front, and how many bytes it takes; `None` at a clean
    /// end.
    pub fn decode(r: &[u8]) -> (d: Result<Option<(Input, usize)>, CodecError>)
        ensures
            match d {
                Ok(Some((i, used))) => read_input(r@) == Ok::<_, CodecError>(
                    Some((i, used as nat)),
                ),
                Ok(None) => read_input(r@) == Ok::<_, CodecError>(None::<(Input, nat)>),
                Err(e) => read_input(r@) == Err::<Option<(Input, nat)>, CodecError>(e),
            },
    {
        if r.len() == 0 {
            return Ok(None);
        }
        if r.len() == 1 {
            return Err(CodecError::UnexpectedEof);
        }
        let b = vstd::slice::slice_subrange(r, 0, 2);
        proof {
            crate::bytes::lemma_pow256_widths();
            assert(b@ =~= r@.take(2));
        }
        Ok(Some((Input(read_le(b) as u16), 2)))
    }
}

/// Per-frame side channel: the sender's clock-sync half plus its newest
/// settled checkpoint (tick 0 = none yet; real checkpoints are 1-based).
/// Receivers compare the digest against their own settled state at that tick;
/// a mismatch is a desync and ends the session loudly.
#[derive(Clone, Copy, Debug, PartialEq, Eq, Structural)]
pub struct Meta {
    pub tick_advantage: i16,
    pub checkpoint_tick: u32,
    pub checkpoint_digest: u32,
}

impl Default for Meta {
    fn default() -> (m: Meta)
        ensures
            m == (Meta { tick_advantage: 0, checkpoint_tick: 0, checkpoint_digest: 0 }),
    {
        Meta { tick_advantage: 0, checkpoint_tick: 0, checkpoint_digest: 0 }
    }
}

/// A meta on the wire: the advantage as a signed varint, the tick as a varint,
/// the digest in 4 bytes.
pub open spec fn meta_bytes(m: Meta) -> Seq<u8> {
    varint(zigzag(m.tick_advantage as int)) + varint(m.checkpoint_tick as nat) + le_bytes(
        m.checkpoint_digest as nat,
        4,
    )
}

/// The meta at the start of a byte string, and how many bytes it takes. It is
/// required: running out of bytes is an error, never a clean end.
pub open spec fn read_meta(s: Seq<u8>) -> Result<(Meta, nat), CodecError> {
    match read_uvarint(s, 0) {
        Err(e) => Err(e),
        Ok((a, n)) => if !(i16::MIN <= unzigzag(a) <= i16::MAX) {
            Err(CodecError::TickAdvantage)
        } else {
            match read_uvarint(s.skip(n as int), 0) {
                Err(e) => Err(e),
                Ok((t, m)) => if t > u32::MAX {
                    Err(CodecError::CheckpointTick)
                } else if n + m + 4 > s.len() {
                    Err(CodecError::UnexpectedEof)
                } else {
                    Ok(
                        (
                            Meta {
                                tick_advantage: unzigzag(a) as i16,
                                checkpoint_tick: t as u32,
                                checkpoint_digest: le_value(
                                    s.subrange((n + m) as int, (n + m + 4) as int),
                                ) as u32,
                            },
                            n + m + 4,
                        ),
                    )
                },
            }
        },
    }
}

impl Meta {
    pub fn encode(&self, w: &mut Vec<u8>)
        ensures
            final(w)@ == old(w)@ + meta_bytes(*self),
    {
        write_svarint(w, self.tick_advantage as i64);
        write_uvarint(w, self.checkpoint_tick as u64);
        push_le(w, self.checkpoint_digest as u64, 4);
        assert(w@ =~= old(w)@ + meta_bytes(*self));
    }

    /// The meta at the front, and how many bytes it takes.
    pub fn decode(r: &[u8]) -> (d: Result<(Meta, usize), CodecError>)
        ensures
            match d {
                Ok((m, used)) => read_meta(r@) == Ok::<_, CodecError>((m, used as nat)),
                Err(e) => read_meta(r@) == Err::<(Meta, nat), CodecError>(e),
            },
    {
        let (a, n) = take_uvarint(r)?;
        let half: i64 = (a / 2) as i64;
        let advantage: i64 = if a % 2 == 0 {
            half
        } else {
            -half - 1
        };
        assert(advantage == unzigzag(a as nat));
        if advantage < i16::MIN as i64 || advantage > i16::MAX as i64 {
            return Err(CodecError::TickAdvantage);
        }
        let rest = vstd::slice::slice_subrange(r, n, r.len());
        assert(rest@ =~= r@.skip(n as int));
        let (t, m) = take_uvarint(rest)?;
        if t > u32::MAX as u64 {
            return Err(CodecError::CheckpointTick);
        }
        if rest.len() - m < 4 {
            return Err(CodecError::UnexpectedEof);
        }
        let digest = vstd::slice::slice_subrange(rest, m, m + 4);
        proof {
            crate::bytes::lemma_pow256_widths();
            assert(digest@ =~= r@.subrange((n + m) as int, (n + m + 4) as int));
        }
        let checkpoint_digest: u32 = read_le(digest) as u32;
        assert(r@.len() == r.len());
        Ok(
            (
                Meta {
                    tick_advantage: advantage as i16,
                    checkpoint_tick: t as u32,
                    checkpoint_digest,
                },
                n + m + 4,
            ),
        )
    }
}

/// The marker of the data channel's protocol.
#[derive(Clone, Copy, Debug, PartialEq, Eq, Structural)]
pub struct Proto;

impl Proto {
    /// The longest run of inputs a frame may carry.
    pub fn max_run() -> (n: usize)
        ensures
            n == HORIZON,
    {
        HORIZON as usize
    }
}

/// Every input reads back from its bytes, whatever follows.
pub proof fn law_inputs_read_back(i: Input, tail: Seq<u8>)
    ensures
        read_input(le_bytes(i.0 as nat, 2) + tail) == Ok::<_, CodecError>(Some((i, 2nat))),
{
    crate::bytes::lemma_pow256_widths();
    crate::bytes::lemma_le_roundtrip(i.0 as nat, 2);
    assert((le_bytes(i.0 as nat, 2) + tail).take(2) =~= le_bytes(i.0 as nat, 2));
}

/// Every meta reads back from its bytes, whatever follows.
pub proof fn law_metas_read_back(m: Meta, tail: Seq<u8>)
    ensures
        read_meta(meta_bytes(m) + tail) == Ok::<_, CodecError>((m, meta_bytes(m).len())),
{
    let a = varint(zigzag(m.tick_advantage as int));
    let t = varint(m.checkpoint_tick as nat);
    let d = le_bytes(m.checkpoint_digest as nat, 4);
    let s = meta_bytes(m) + tail;
    crate::net::packing::lemma_zigzag(m.tick_advantage as int);
    crate::net::packing::lemma_uvarint_reads_back(
        zigzag(m.tick_advantage as int),
        t + d + tail,
    );
    assert(s =~= a + (t + d + tail));
    crate::net::packing::lemma_uvarint_reads_back(m.checkpoint_tick as nat, d + tail);
    assert(s.skip(a.len() as int) =~= t + (d + tail));
    crate::bytes::lemma_pow256_widths();
    crate::bytes::lemma_le_roundtrip(m.checkpoint_digest as nat, 4);
    assert(s.subrange((a.len() + t.len()) as int, (a.len() + t.len() + 4) as int) =~= d);
}

// ---------------------------------------------------------------------
// The control channel
// ---------------------------------------------------------------------

/// Control-plane messages (reliable, ordered channel).
#[derive(Debug, Clone, PartialEq, Eq)]
pub enum PeerControl {
    Hello { net_version: u32 },
    Quit,
    /// Announces this side's encoded [`BootBlob`]; exactly `len` bytes of
    /// [`BootChunk`](PeerControl::BootChunk)s follow on the same channel.
    Boot { len: u32 },
    BootChunk(Vec<u8>),
}

/// What a [`PeerControl`] says.
pub enum PeerControlView {
    Hello { net_version: u32 },
    Quit,
    Boot { len: u32 },
    BootChunk(Seq<u8>),
}

impl View for PeerControl {
    type V = PeerControlView;

    open spec fn view(&self) -> PeerControlView {
        match *self {
            PeerControl::Hello { net_version } => PeerControlView::Hello { net_version },
            PeerControl::Quit => PeerControlView::Quit,
            PeerControl::Boot { len } => PeerControlView::Boot { len },
            PeerControl::BootChunk(b) => PeerControlView::BootChunk(b@),
        }
    }
}

/// A control message on the wire: which one it is, and what it carries.
pub open spec fn control_bytes(c: PeerControlView) -> Seq<u8> {
    match c {
        PeerControlView::Hello { net_version } => le_bytes(0, 4) + le_bytes(net_version as nat, 4),
        PeerControlView::Quit => le_bytes(1, 4),
        PeerControlView::Boot { len } => le_bytes(2, 4) + le_bytes(len as nat, 4),
        PeerControlView::BootChunk(b) => le_bytes(3, 4) + counted(b),
    }
}

/// The control message a byte string holds; `None` where it holds none.
pub open spec fn read_control(s: Seq<u8>) -> Option<PeerControlView> {
    let rest = s.skip(4);
    match read_word(s) {
        None => None,
        Some(which) => if which == 0 {
            match read_word(rest) {
                Some(net_version) => Some(PeerControlView::Hello { net_version }),
                None => None,
            }
        } else if which == 1 {
            Some(PeerControlView::Quit)
        } else if which == 2 {
            match read_word(rest) {
                Some(len) => Some(PeerControlView::Boot { len }),
                None => None,
            }
        } else if which == 3 {
            match read_counted(rest) {
                Some(b) => Some(PeerControlView::BootChunk(b)),
                None => None,
            }
        } else {
            None
        },
    }
}

fn join(a: Option<Vec<u8>>, b: Option<Vec<u8>>) -> (c: Option<Vec<u8>>)
    ensures
        match (a, b) {
            (Some(a), Some(b)) => c matches Some(c) && c@ == a@ + b@,
            _ => c is None,
        },
{
    match a {
        None => None,
        Some(a) => match b {
            None => None,
            Some(b) => {
                let mut c = a;
                crate::bytes::push_all(&mut c, b.as_slice());
                Some(c)
            },
        },
    }
}

/// A control message as a reader of an error sees it.
pub open spec fn described(c: PeerControlView) -> Seq<char> {
    match c {
        PeerControlView::Hello { net_version } => "Hello { net_version: "@ + decimal(
            net_version as nat,
        ) + " }"@,
        PeerControlView::Quit => "Quit"@,
        PeerControlView::Boot { len } => "Boot { len: "@ + decimal(len as nat) + " }"@,
        PeerControlView::BootChunk(b) => "BootChunk(["@ + listed(b, 0) + "])"@,
    }
}

impl PeerControl {
    /// This message, for an error.
    pub fn describe(&self) -> (t: String)
        ensures
            t@ == described(self@),
    {
        match self {
            PeerControl::Hello { net_version } => {
                let mut t = "Hello { net_version: ".to_owned();
                push_decimal(&mut t, *net_version as u64);
                t.append(" }");
                t
            },
            PeerControl::Quit => "Quit".to_owned(),
            PeerControl::Boot { len } => {
                let mut t = "Boot { len: ".to_owned();
                push_decimal(&mut t, *len as u64);
                t.append(" }");
                t
            },
            PeerControl::BootChunk(b) => {
                let mut t = "BootChunk([".to_owned();
                push_listed(&mut t, b.as_slice());
                t.append("])");
                t
            },
        }
    }

    pub fn encode(&self) -> (b: Option<Vec<u8>>)
        ensures
            b matches Some(b) && b@ == control_bytes(self@),
    {
        match self {
            PeerControl::Hello { net_version } => join(pack_word(0), pack_word(*net_version)),
            PeerControl::Quit => pack_word(1),
            PeerControl::Boot { len } => join(pack_word(2), pack_word(*len)),
            PeerControl::BootChunk(b) => join(pack_word(3), pack_bytes(b.as_slice())),
        }
    }

    pub fn decode(bytes: &[u8]) -> (c: Option<PeerControl>)
        ensures
            match c {
                Some(c) => read_control(bytes@) == Some(c@),
                None => read_control(bytes@) is None,
            },
    {
        let which: u32 = unpack_word(bytes)?;
        let rest = vstd::slice::slice_subrange(bytes, 4, bytes.len());
        assert(rest@ =~= bytes@.skip(4));
        match which {
            0 => match unpack_word(rest) {
                Some(net_version) => Some(PeerControl::Hello { net_version }),
                None => None,
            },
            1 => Some(PeerControl::Quit),
            2 => match unpack_word(rest) {
                Some(len) => Some(PeerControl::Boot { len }),
                None => None,
            },
            3 => match unpack_bytes(rest) {
                Some(b) => Some(PeerControl::BootChunk(b)),
                None => None,
            },
            _ => None,
        }
    }
}

/// Every control message reads back from its bytes, whatever follows.
pub proof fn law_controls_read_back(c: PeerControlView, tail: Seq<u8>)
    requires
        c matches PeerControlView::BootChunk(b) ==> b.len() <= u64::MAX,
    ensures
        read_control(control_bytes(c) + tail) == Some(c),
{
    let s = control_bytes(c) + tail;
    let which: u32 = match c {
        PeerControlView::Hello { .. } => 0,
        PeerControlView::Quit => 1,
        PeerControlView::Boot { .. } => 2,
        PeerControlView::BootChunk(_) => 3,
    };
    let head = le_bytes(which as nat, 4);
    crate::net::packing::lemma_word_reads_back(which, s.skip(4));
    assert(s =~= head + s.skip(4)) by {
        crate::net::packing::lemma_word_reads_back(which, tail);
        assert(s.take(4) =~= head);
    }
    match c {
        PeerControlView::Hello { net_version } => {
            crate::net::packing::lemma_word_reads_back(net_version, tail);
            assert(s.skip(4) =~= le_bytes(net_version as nat, 4) + tail);
        },
        PeerControlView::Quit => {},
        PeerControlView::Boot { len } => {
            crate::net::packing::lemma_word_reads_back(len, tail);
            assert(s.skip(4) =~= le_bytes(len as nat, 4) + tail);
        },
        PeerControlView::BootChunk(b) => {
            crate::net::packing::lemma_counted_reads_back(b, tail);
            assert(s.skip(4) =~= counted(b) + tail);
        },
    }
}

// ---------------------------------------------------------------------
// Boot payloads
// ---------------------------------------------------------------------

/// One side's boot payload: everything a peer needs to reconstruct that side's
/// live machine when the cable plugs in. Travels peer-to-peer as
/// [`PeerControl::Boot`] and chunks, and rides in replays so playback can boot
/// the same link.
#[derive(Debug, Clone, PartialEq, Eq)]
pub struct BootBlob {
    /// Serialized core state.
    pub state: Vec<u8>,
    /// SRAM/flash image at capture time (core states don't carry savedata).
    pub save: Option<Vec<u8>>,
    /// The capturing side's wall clock. Every side ships one, but only the
    /// host's (player 0) seeds the link's shared clock.
    pub clock_unix_micros: u64,
}

/// What a [`BootBlob`] says.
#[verifier::ext_equal]
pub struct BootBlobView {
    pub state: Seq<u8>,
    pub save: Option<Seq<u8>>,
    pub clock_unix_micros: u64,
}

impl View for BootBlob {
    type V = BootBlobView;

    open spec fn view(&self) -> BootBlobView {
        BootBlobView {
            state: self.state@,
            save: match self.save {
                Some(s) => Some(s@),
                None => None,
            },
            clock_unix_micros: self.clock_unix_micros,
        }
    }
}

/// A boot payload before compression.
pub open spec fn blob_bytes(b: BootBlobView) -> Seq<u8> {
    counted(b.state) + optional(b.save) + le_bytes(b.clock_unix_micros as nat, 8)
}

/// The boot payload a byte string holds; `None` where it holds none.
pub open spec fn read_blob(s: Seq<u8>) -> Option<BootBlobView> {
    match read_counted(s) {
        None => None,
        Some(state) => {
            let rest = s.skip(8 + state.len() as int);
            match read_optional(rest) {
                None => None,
                Some(save) => {
                    let used = match save {
                        None => 1int,
                        Some(b) => 9 + b.len() as int,
                    };
                    match read_long(rest.skip(used)) {
                        None => None,
                        Some(clock_unix_micros) => Some(
                            BootBlobView { state, save, clock_unix_micros },
                        ),
                    }
                },
            }
        },
    }
}

/// A boot payload packed and compressed.
pub open spec fn packed_blob(b: BootBlobView) -> Seq<u8> {
    zstd_packed(blob_bytes(b), BOOT_LEVEL)
}

/// The boot payload in a compressed byte string; `None` where there is none.
pub open spec fn unpacked_blob(s: Seq<u8>) -> Option<BootBlobView> {
    match zstd_unpacked(s) {
        None => None,
        Some(plain) => read_blob(plain),
    }
}

/// A payload before compression reads back.
pub proof fn law_plain_blobs_read_back(b: BootBlobView)
    requires
        blob_bytes(b).len() <= u64::MAX,
    ensures
        read_blob(blob_bytes(b)) == Some(b),
{
    let s = blob_bytes(b);
    let o = optional(b.save);
    let c = le_bytes(b.clock_unix_micros as nat, 8);
    crate::net::packing::lemma_counted_reads_back(b.state, o + c);
    assert(s =~= counted(b.state) + (o + c));
    assert(s.skip(8 + b.state.len() as int) =~= o + c);
    crate::net::packing::lemma_optional_reads_back(b.save, c);
    match b.save {
        None => {},
        Some(v) => {
            crate::net::packing::lemma_counted_reads_back(v, c);
        },
    }
    crate::net::packing::lemma_long_reads_back(b.clock_unix_micros, Seq::<u8>::empty());
    assert((o + c).skip(o.len() as int) =~= c + Seq::<u8>::empty());
}

impl BootBlob {
    /// The payload before compression.
    pub fn to_plain(&self) -> (b: Option<Vec<u8>>)
        ensures
            b matches Some(b) && b@ == blob_bytes(self@),
    {
        join(
            join(pack_bytes(self.state.as_slice()), pack_optional(&self.save)),
            pack_long(self.clock_unix_micros),
        )
    }

    /// The payload that a plain byte string holds.
    pub fn from_plain(bytes: &[u8]) -> (b: Option<BootBlob>)
        ensures
            match b {
                Some(b) => read_blob(bytes@) == Some(b@),
                None => read_blob(bytes@) is None,
            },
    {
        let state = unpack_bytes(bytes)?;
        assert(bytes@.len() == bytes.len());
        let rest = vstd::slice::slice_subrange(bytes, 8 + state.len(), bytes.len());
        assert(rest@ =~= bytes@.skip(8 + state@.len() as int));
        let save = unpack_optional(rest)?;
        let used: usize = match &save {
            None => 1,
            Some(b) => {
                proof {
                    assert(rest@.skip(1).len() >= 8 + b@.len());
                }
                9 + b.len()
            },
        };
        let tail = vstd::slice::slice_subrange(rest, used, rest.len());
        assert(tail@ =~= rest@.skip(used as int));
        let clock_unix_micros: u64 = unpack_long(tail)?;
        Some(BootBlob { state, save, clock_unix_micros })
    }

    /// Packed and compressed: machine images compress hard, and these cross
    /// the wire once per peer at plug-in time. What comes out unpacks to this
    /// payload.
    pub fn encode(&self) -> (b: Option<Vec<u8>>)
        ensures
            b matches Some(b) && b@ == packed_blob(self@) && unpacked_blob(b@) == Some(self@),
    {
        let plain = self.to_plain()?;
        proof {
            assert(plain@.len() == plain.len());
            law_plain_blobs_read_back(self@);
        }
        compress(plain.as_slice(), BOOT_LEVEL)
    }

    pub fn decode(bytes: &[u8]) -> (b: Option<BootBlob>)
        ensures
            match b {
                Some(b) => unpacked_blob(bytes@) == Some(b@),
                None => unpacked_blob(bytes@) is None,
            },
    {
        let plain = decompress(bytes)?;
        BootBlob::from_plain(plain.as_slice())
    }
}

// ---------------------------------------------------------------------
// Signals relayed while the mesh is built
// ---------------------------------------------------------------------

/// Opaque signal relayed through the signaling server while building the mesh:
/// session descriptions and trickled candidates.
#[derive(Debug, Clone, PartialEq, Eq)]
pub enum PeerSignal {
    Description { sdp_type: String, sdp: String },
    Candidate { candidate: String },
}

/// What a [`PeerSignal`] says.
pub enum PeerSignalView {
    Description { sdp_type: Seq<char>, sdp: Seq<char> },
    Candidate { candidate: Seq<char> },
}

impl View for PeerSignal {
    type V = PeerSignalView;

    open spec fn view(&self) -> PeerSignalView {
        match *self {
            PeerSignal::Description { sdp_type, sdp } => PeerSignalView::Description {
                sdp_type: sdp_type@,
                sdp: sdp@,
            },
            PeerSignal::Candidate { candidate } => PeerSignalView::Candidate {
                candidate: candidate@,
            },
        }
    }
}

/// A signal's payload: which one it is, and its texts.
pub open spec fn signal_bytes(s: PeerSignalView) -> Seq<u8> {
    match s {
        PeerSignalView::Description { sdp_type, sdp } => le_bytes(0, 4) + counted(
            encode_utf8(sdp_type),
        ) + counted(encode_utf8(sdp)),
        PeerSignalView::Candidate { candidate } => le_bytes(1, 4) + counted(
            encode_utf8(candidate),
        ),
    }
}

/// The signal a payload holds; `None` where it holds none.
pub open spec fn read_signal(s: Seq<u8>) -> Option<PeerSignalView> {
    let rest = s.skip(4);
    match read_word(s) {
        None => None,
        Some(which) => if which == 0 {
            match read_counted(rest) {
                None => None,
                Some(first) => match read_counted_text(rest) {
                    None => None,
                    Some(sdp_type) => match read_counted_text(rest.skip(8 + first.len() as int)) {
                        None => None,
                        Some(sdp) => Some(PeerSignalView::Description { sdp_type, sdp }),
                    },
                },
            }
        } else if which == 1 {
            match read_counted_text(rest) {
                None => None,
                Some(candidate) => Some(PeerSignalView::Candidate { candidate }),
            }
        } else {
            None
        },
    }
}

impl PeerSignal {
    pub fn encode(&self) -> (b: Option<Vec<u8>>)
        ensures
            b matches Some(b) && b@ == signal_bytes(self@),
    {
        match self {
            PeerSignal::Description { sdp_type, sdp } => join(
                join(pack_word(0), pack_text(sdp_type.as_str())),
                pack_text(sdp.as_str()),
            ),
            PeerSignal::Candidate { candidate } => join(
                pack_word(1),
                pack_text(candidate.as_str()),
            ),
        }
    }

    pub fn decode(bytes: &[u8]) -> (s: Option<PeerSignal>)
        ensures
            match s {
                Some(s) => read_signal(bytes@) == Some(s@),
                None => read_signal(bytes@) is None,
            },
    {
        let which: u32 = unpack_word(bytes)?;
        let rest = vstd::slice::slice_subrange(bytes, 4, bytes.len());
        assert(rest@ =~= bytes@.skip(4));
        match which {
            0 => {
                let first = unpack_bytes(rest)?;
                let sdp_type = unpack_text(rest)?;
                let more = vstd::slice::slice_subrange(rest, 8 + first.len(), rest.len());
                assert(more@ =~= rest@.skip(8 + first@.len() as int));
                let sdp = unpack_text(more)?;
                Some(PeerSignal::Description { sdp_type, sdp })
            },
            1 => {
                let candidate = unpack_text(rest)?;
                Some(PeerSignal::Candidate { candidate })
            },
            _ => None,
        }
    }
}

/// Every signal reads back from its payload.
pub proof fn law_signals_read_back(s: PeerSignalView)
    requires
        signal_bytes(s).len() <= u64::MAX,
    ensures
        read_signal(signal_bytes(s)) == Some(s),
{
    broadcast use {vstd::utf8::encode_utf8_valid_utf8, vstd::utf8::encode_utf8_decode_utf8};

    let b = signal_bytes(s);
    let none = Seq::<u8>::empty();
    match s {
        PeerSignalView::Description { sdp_type, sdp } => {
            let t = counted(encode_utf8(sdp_type));
            let d = counted(encode_utf8(sdp));
            crate::net::packing::lemma_word_reads_back(0, t + d);
            assert(b =~= le_bytes(0, 4) + (t + d));
            assert(b.skip(4) =~= t + d);
            crate::net::packing::lemma_counted_reads_back(encode_utf8(sdp_type), d);
            crate::net::packing::lemma_counted_reads_back(encode_utf8(sdp), none);
            assert((t + d).skip(t.len() as int) =~= d + none);
        },
        PeerSignalView::Candidate { candidate } => {
            let t = counted(encode_utf8(candidate));
            crate::net::packing::lemma_word_reads_back(1, t);
            assert(b =~= le_bytes(1, 4) + t);
            assert(b.skip(4) =~= t + none);
            crate::net::packing::lemma_counted_reads_back(encode_utf8(candidate), none);
        },
    }
}

} // verus!
