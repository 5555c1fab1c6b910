//! The plug-in exchange: every side's encoded boot payload crosses the mesh
//! over the reliable control channels, announced by its length and cut into
//! chunks.
use vstd::prelude::*;
use crate::net::protocol::{
    control_bytes, described, read_control, PeerControl, PeerControlView, BOOT_CHUNK, MAX_BOOT_SIZE,
};
use crate::text::{decimal, push_decimal};

verus! {

/// How long the exchange has after the mesh is up. Nothing here waits on a
/// human, so this only catches dead peers.
pub const EXCHANGE_TIMEOUT_MS: u32 = 60_000;

// ---------------------------------------------------------------------
// Sending
// ---------------------------------------------------------------------

/// What a message says, or nothing where it cannot be read.
#[verifier::opaque]
pub open spec fn heard(msg: Seq<u8>) -> Option<PeerControlView> {
    read_control(msg)
}

/// A message as it goes over the channel.
#[verifier::opaque]
pub open spec fn said(c: PeerControlView) -> Seq<u8> {
    control_bytes(c)
}

/// The chunks of a payload from a position on: each [`BOOT_CHUNK`] bytes but
/// for the last.
pub open spec fn chunks_from(blob: Seq<u8>, at: int) -> Seq<Seq<u8>>
    decreases blob.len() - at,
{
    if at >= blob.len() {
        Seq::<Seq<u8>>::empty()
    } else if at + BOOT_CHUNK >= blob.len() {
        seq![blob.skip(at)]
    } else {
        seq![blob.subrange(at, at + BOOT_CHUNK)] + chunks_from(blob, at + BOOT_CHUNK)
    }
}

/// What is sent of a payload: its length, and its chunks in order.
pub open spec fn boot_controls(blob: Seq<u8>) -> Seq<PeerControlView> {
    seq![PeerControlView::Boot { len: blob.len() as u32 }] + chunks_from(blob, 0).map_values(
        |c: Seq<u8>| PeerControlView::BootChunk(c),
    )
}

/// Messages as they go over the channel.
pub open spec fn wire(cs: Seq<PeerControlView>) -> Seq<Seq<u8>> {
    cs.map_values(|c: PeerControlView| said(c))
}

/// What a list of messages says.
pub open spec fn messages_view(m: Seq<Vec<u8>>) -> Seq<Seq<u8>> {
    m.map_values(|v: Vec<u8>| v@)
}

/// The messages that carry a payload to a peer.
pub fn boot_messages(blob: &[u8]) -> (msgs: Vec<Vec<u8>>)
    ensures
        messages_view(msgs@) == wire(boot_controls(blob@)),
{
    let mut msgs: Vec<Vec<u8>> = Vec::new();
    match (PeerControl::Boot { len: blob.len() as u32 }).encode() {
        Some(m) => {
            msgs.push(m);
        },
        None => {},
    }
    let ghost wrap = |c: Seq<u8>| PeerControlView::BootChunk(c);
    let ghost head = seq![PeerControlView::Boot { len: blob@.len() as u32 }];
    let ghost all = boot_controls(blob@);
    proof {
        reveal(said);
        assert(messages_view(msgs@) =~= wire(head));
        assert(head + chunks_from(blob@, 0).map_values(wrap) =~= all);
    }
    let mut at: usize = 0;
    let ghost mut done = head;
    while at < blob.len()
        invariant
            at <= blob@.len(),
            wrap == (|c: Seq<u8>| PeerControlView::BootChunk(c)),
            done + chunks_from(blob@, at as int).map_values(wrap) == all,
            messages_view(msgs@) == wire(done),
        decreases blob@.len() - at,
    {
        let stop: usize = if blob.len() - at <= BOOT_CHUNK {
            blob.len()
        } else {
            at + BOOT_CHUNK
        };
        let piece = vstd::slice::slice_subrange(blob, at, stop);
        let ghost pv = piece@;
        let chunk = PeerControl::BootChunk(crate::bytes::to_vec(piece));
        let ghost before = msgs@;
        match chunk.encode() {
            Some(m) => {
                msgs.push(m);
            },
            None => {},
        }
        proof {
            reveal(said);
            assert(chunk@ == wrap(pv));
            assert(messages_view(msgs@) =~= wire(done).push(said(wrap(pv))));
            assert(wire(done.push(wrap(pv))) =~= wire(done).push(said(wrap(pv))));
            let rest = chunks_from(blob@, stop as int);
            if stop == blob@.len() {
                assert(pv =~= blob@.skip(at as int));
                assert(chunks_from(blob@, at as int) =~= seq![pv] + rest);
            } else {
                assert(chunks_from(blob@, at as int) =~= seq![pv] + rest);
            }
            assert(done + chunks_from(blob@, at as int).map_values(wrap) =~= done.push(wrap(pv))
                + rest.map_values(wrap));
            done = done.push(wrap(pv));
        }
        at = stop;
    }
    proof {
        assert(chunks_from(blob@, at as int).map_values(wrap) =~= Seq::<PeerControlView>::empty());
        assert(done =~= all);
    }
    msgs
}

// ---------------------------------------------------------------------
// Receiving
// ---------------------------------------------------------------------

/// Why an exchange fails.
#[derive(Debug)]
pub enum BootError {
    /// The announcement cannot be read.
    BadAnnouncement,
    /// The peer left instead.
    PeerQuit,
    /// Something else came instead of an announcement.
    NotAnnounced(PeerControl),
    /// The announced length, past [`MAX_BOOT_SIZE`].
    TooLarge(u32),
    /// A chunk cannot be read.
    BadChunk,
    /// Something else came instead of a chunk.
    NotAChunk(PeerControl),
    /// More came than was announced.
    Overran,
    /// The channel closed before the announcement.
    ClosedBefore,
    /// The channel closed before the whole payload was here.
    ClosedMidway,
    /// The exchange took longer than [`EXCHANGE_TIMEOUT_MS`].
    TimedOut,
}

/// What a [`BootError`] says.
#[verifier::ext_equal]
pub enum BootErrorView {
    BadAnnouncement,
    PeerQuit,
    NotAnnounced(PeerControlView),
    TooLarge(u32),
    BadChunk,
    NotAChunk(PeerControlView),
    Overran,
    ClosedBefore,
    ClosedMidway,
    TimedOut,
}

impl View for BootError {
    type V = BootErrorView;

    open spec fn view(&self) -> BootErrorView {
        match *self {
            BootError::BadAnnouncement => BootErrorView::BadAnnouncement,
            BootError::PeerQuit => BootErrorView::PeerQuit,
            BootError::NotAnnounced(c) => BootErrorView::NotAnnounced(c@),
            BootError::TooLarge(n) => BootErrorView::TooLarge(n),
            BootError::BadChunk => BootErrorView::BadChunk,
            BootError::NotAChunk(c) => BootErrorView::NotAChunk(c@),
            BootError::Overran => BootErrorView::Overran,
            BootError::ClosedBefore => BootErrorView::ClosedBefore,
            BootError::ClosedMidway => BootErrorView::ClosedMidway,
            BootError::TimedOut => BootErrorView::TimedOut,
        }
    }
}

/// What is said of an exchange that fails.
pub open spec fn boot_error_text(e: BootErrorView, player: nat) -> Seq<char> {
    match e {
        BootErrorView::BadAnnouncement => "bad boot announcement"@,
        BootErrorView::PeerQuit => "player "@ + decimal(player + 1) + " left before the session"@,
        BootErrorView::NotAnnounced(c) => "expected a boot payload, got "@ + described(c),
        BootErrorView::TooLarge(n) => "boot payload implausibly large ("@ + decimal(n as nat)
            + " bytes)"@,
        BootErrorView::BadChunk => "bad boot chunk"@,
        BootErrorView::NotAChunk(c) => "expected a boot chunk, got "@ + described(c),
        BootErrorView::Overran => "boot payload overran its announced length"@,
        BootErrorView::ClosedBefore => "control channel closed before boot payload"@,
        BootErrorView::ClosedMidway => "control channel closed mid boot payload"@,
        BootErrorView::TimedOut => "timed out exchanging boot payloads"@,
    }
}

impl BootError {
    /// What to say of it, the peer being `player`.
    pub fn message(&self, player: u32) -> (t: String)
        ensures
            t@ == boot_error_text(self@, player as nat),
    {
        match self {
            BootError::BadAnnouncement => "bad boot announcement".to_owned(),
            BootError::PeerQuit => {
                let mut t = "player ".to_owned();
                push_decimal(&mut t, player as u64 + 1);
                t.append(" left before the session");
                t
            },
            BootError::NotAnnounced(c) => {
                let mut t = "expected a boot payload, got ".to_owned();
                t.append(c.describe().as_str());
                t
            },
            BootError::TooLarge(n) => {
                let mut t = "boot payload implausibly large (".to_owned();
                push_decimal(&mut t, *n as u64);
                t.append(" bytes)");
                t
            },
            BootError::BadChunk => "bad boot chunk".to_owned(),
            BootError::NotAChunk(c) => {
                let mut t = "expected a boot chunk, got ".to_owned();
                t.append(c.describe().as_str());
                t
            },
            BootError::Overran => "boot payload overran its announced length".to_owned(),
            BootError::ClosedBefore => "control channel closed before boot payload".to_owned(),
            BootError::ClosedMidway => "control channel closed mid boot payload".to_owned(),
            BootError::TimedOut => "timed out exchanging boot payloads".to_owned(),
        }
    }
}

/// A payload on its way in: how long it is, once announced, and what has
/// arrived.
#[derive(Debug)]
pub struct BootReceiver {
    pub len: Option<u32>,
    pub buf: Vec<u8>,
}

/// What a message leaves of a payload on its way in.
pub enum BootStep {
    /// More is to come.
    More { len: u32, buf: Seq<u8> },
    /// This is it.
    Done(Seq<u8>),
    Failed(BootErrorView),
}

/// Whether a payload is complete, and whether it is too much.
pub open spec fn filled(len: u32, buf: Seq<u8>) -> BootStep {
    if buf.len() < len {
        BootStep::More { len, buf }
    } else if buf.len() == len {
        BootStep::Done(buf)
    } else {
        BootStep::Failed(BootErrorView::Overran)
    }
}

/// What comes of a message.
pub open spec fn on_boot_message(len: Option<u32>, buf: Seq<u8>, msg: Seq<u8>) -> BootStep {
    match (len, heard(msg)) {
        (None, None) => BootStep::Failed(BootErrorView::BadAnnouncement),
        (None, Some(PeerControlView::Boot { len })) => if len > MAX_BOOT_SIZE {
            BootStep::Failed(BootErrorView::TooLarge(len))
        } else {
            filled(len, Seq::empty())
        },
        (None, Some(PeerControlView::Quit)) => BootStep::Failed(BootErrorView::PeerQuit),
        (None, Some(other)) => BootStep::Failed(BootErrorView::NotAnnounced(other)),
        (Some(_), None) => BootStep::Failed(BootErrorView::BadChunk),
        (Some(len), Some(PeerControlView::BootChunk(b))) => filled(len, buf + b),
        (Some(_), Some(other)) => BootStep::Failed(BootErrorView::NotAChunk(other)),
    }
}

impl BootReceiver {
    pub fn new() -> (r: BootReceiver)
        ensures
            r.len is None,
            r.buf@ == Seq::<u8>::empty(),
    {
        BootReceiver { len: None, buf: Vec::new() }
    }

    fn settle(&mut self, len: u32) -> (done: Result<Option<Vec<u8>>, BootError>)
        requires
            old(self).len == Some(len),
        ensures
            final(self).len == Some(len),
            match filled(len, old(self).buf@) {
                BootStep::More { .. } => done matches Ok(None) && final(self).buf@ == old(
                    self,
                ).buf@,
                BootStep::Done(b) => done matches Ok(Some(v)) && v@ == b,
                BootStep::Failed(e) => done matches Err(x) && x@ == e,
            },
    {
        if self.buf.len() < len as usize {
            Ok(None)
        } else if self.buf.len() == len as usize {
            let mut v: Vec<u8> = Vec::new();
            std::mem::swap(&mut v, &mut self.buf);
            Ok(Some(v))
        } else {
            Err(BootError::Overran)
        }
    }

    /// One message from the peer: the whole payload once it is complete.
    pub fn on_message(&mut self, msg: &[u8]) -> (done: Result<Option<Vec<u8>>, BootError>)
        ensures
            match on_boot_message(old(self).len, old(self).buf@, msg@) {
                BootStep::More { len, buf } => done matches Ok(None) && final(self).len == Some(len)
                    && final(self).buf@ == buf,
                BootStep::Done(b) => done matches Ok(Some(v)) && v@ == b,
                BootStep::Failed(e) => done matches Err(x) && x@ == e,
            },
    {
        proof {
            reveal(heard);
        }
        match self.len {
            None => match PeerControl::decode(msg) {
                None => Err(BootError::BadAnnouncement),
                Some(PeerControl::Boot { len }) => {
                    if len as usize > MAX_BOOT_SIZE {
                        return Err(BootError::TooLarge(len));
                    }
                    self.len = Some(len);
                    self.buf = Vec::new();
                    self.settle(len)
                },
                Some(PeerControl::Quit) => Err(BootError::PeerQuit),
                Some(other) => Err(BootError::NotAnnounced(other)),
            },
            Some(len) => match PeerControl::decode(msg) {
                None => Err(BootError::BadChunk),
                Some(PeerControl::BootChunk(b)) => {
                    crate::bytes::push_all(&mut self.buf, b.as_slice());
                    self.settle(len)
                },
                Some(other) => Err(BootError::NotAChunk(other)),
            },
        }
    }
}

impl BootReceiver {
    /// What it means that the channel closed now.
    pub fn on_close(&self) -> (e: BootError)
        ensures
            e == (if self.len is None {
                BootError::ClosedBefore
            } else {
                BootError::ClosedMidway
            }),
    {
        if self.len.is_none() {
            BootError::ClosedBefore
        } else {
            BootError::ClosedMidway
        }
    }
}

/// What a run of messages leaves of a payload on its way in: the first message
/// that completes or fails it is the last one read.
pub open spec fn receive_all(len: Option<u32>, buf: Seq<u8>, msgs: Seq<Seq<u8>>) -> Option<
    BootStep,
>
    decreases msgs.len(),
{
    if msgs.len() == 0 {
        None
    } else {
        match on_boot_message(len, buf, msgs[0]) {
            BootStep::More { len, buf } => receive_all(Some(len), buf, msgs.skip(1)),
            other => Some(other),
        }
    }
}

proof fn lemma_on_control(c: PeerControlView)
    requires
        c matches PeerControlView::BootChunk(b) ==> b.len() <= u64::MAX,
    ensures
        heard(said(c)) == Some(c),
{
    reveal(heard);
    reveal(said);
    crate::net::protocol::law_controls_read_back(c, Seq::<u8>::empty());
    assert(control_bytes(c) + Seq::<u8>::empty() =~= control_bytes(c));
}

/// The messages that carry the chunks of a payload from a position on.
pub open spec fn chunk_messages(blob: Seq<u8>, at: int) -> Seq<Seq<u8>> {
    wire(chunks_from(blob, at).map_values(|c: Seq<u8>| PeerControlView::BootChunk(c)))
}

proof fn lemma_chunk_messages(blob: Seq<u8>, at: int)
    requires
        0 <= at < blob.len(),
    ensures
        at + BOOT_CHUNK >= blob.len() ==> chunk_messages(blob, at) == seq![
            said(PeerControlView::BootChunk(blob.skip(at))),
        ],
        at + BOOT_CHUNK < blob.len() ==> chunk_messages(blob, at) == seq![
            said(PeerControlView::BootChunk(blob.subrange(at, at + BOOT_CHUNK))),
        ] + chunk_messages(blob, at + BOOT_CHUNK),
{
    if at + BOOT_CHUNK >= blob.len() {
        assert(chunk_messages(blob, at) =~= seq![
            said(PeerControlView::BootChunk(blob.skip(at))),
        ]);
    } else {
        assert(chunk_messages(blob, at) =~= seq![
            said(PeerControlView::BootChunk(blob.subrange(at, at + BOOT_CHUNK))),
        ] + chunk_messages(blob, at + BOOT_CHUNK));
    }
}

proof fn lemma_receive_first(len: Option<u32>, buf: Seq<u8>, msg: Seq<u8>, rest: Seq<Seq<u8>>)
    ensures
        receive_all(len, buf, seq![msg] + rest) == match on_boot_message(len, buf, msg) {
            BootStep::More { len, buf } => receive_all(Some(len), buf, rest),
            other => Some(other),
        },
{
    assert((seq![msg] + rest).skip(1) =~= rest);
}

proof fn lemma_receive_chunks(blob: Seq<u8>, at: int)
    requires
        0 <= at < blob.len(),
        blob.len() <= MAX_BOOT_SIZE,
    ensures
        receive_all(Some(blob.len() as u32), blob.take(at), chunk_messages(blob, at)) == Some(
            BootStep::Done(blob),
        ),
    decreases blob.len() - at,
{
    let len = Some(blob.len() as u32);
    let next = at + BOOT_CHUNK;
    lemma_chunk_messages(blob, at);
    if next >= blob.len() {
        let last = PeerControlView::BootChunk(blob.skip(at));
        lemma_on_control(last);
        lemma_receive_first(len, blob.take(at), said(last), Seq::empty());
        assert(seq![said(last)] + Seq::<Seq<u8>>::empty() =~= seq![said(last)]);
        assert(blob.take(at) + blob.skip(at) =~= blob);
    } else {
        let first = PeerControlView::BootChunk(blob.subrange(at, next));
        lemma_on_control(first);
        lemma_receive_first(len, blob.take(at), said(first), chunk_messages(blob, next));
        assert(blob.take(at) + blob.subrange(at, next) =~= blob.take(next));
        lemma_receive_chunks(blob, next);
    }
}

/// A payload arrives as it was sent: reading a sender's messages gives it back.
pub proof fn law_boots_arrive_as_sent(blob: Seq<u8>)
    requires
        blob.len() <= MAX_BOOT_SIZE,
    ensures
        receive_all(None, Seq::empty(), wire(boot_controls(blob))) == Some(BootStep::Done(blob)),
{
    let announce = PeerControlView::Boot { len: blob.len() as u32 };
    lemma_on_control(announce);
    lemma_receive_first(None, Seq::empty(), said(announce), chunk_messages(blob, 0));
    assert(wire(boot_controls(blob)) =~= seq![said(announce)] + chunk_messages(blob, 0));
    if blob.len() == 0 {
        assert(blob =~= Seq::<u8>::empty());
    } else {
        lemma_receive_chunks(blob, 0);
        assert(blob.take(0) =~= Seq::<u8>::empty());
    }
}

/// No chunk is longer than the channel takes, and none is empty.
pub proof fn law_chunks_fit_the_channel(blob: Seq<u8>, at: int, i: int)
    requires
        0 <= at,
        0 <= i < chunks_from(blob, at).len(),
    ensures
        1 <= chunks_from(blob, at)[i].len() <= BOOT_CHUNK,
    decreases blob.len() - at,
{
    if at < blob.len() && at + BOOT_CHUNK < blob.len() && i > 0 {
        law_chunks_fit_the_channel(blob, at + BOOT_CHUNK, i - 1);
    }
}

// ---------------------------------------------------------------------
// All sides
// ---------------------------------------------------------------------

/// Every side's payload, in player order: the local slot holds our own, and a
/// slot nobody filled is empty.
pub fn collect_boots(
    local_player: usize,
    num_players: usize,
    blob: Vec<u8>,
    received: Vec<(usize, Vec<u8>)>,
) -> (boots: Vec<Vec<u8>>)
    requires
        local_player < num_players,
        forall|i: int| 0 <= i < received@.len() ==> (#[trigger] received@[i]).0 < num_players,
        forall|i: int| 0 <= i < received@.len() ==> (#[trigger] received@[i]).0 != local_player,
        forall|i: int, j: int|
            0 <= i < j < received@.len() ==> (#[trigger] received@[i]).0 != (
            #[trigger] received@[j]).0,
    ensures
        boots@.len() == num_players,
        boots@[local_player as int]@ == blob@,
        forall|i: int|
            0 <= i < received@.len() ==> boots@[(#[trigger] received@[i]).0 as int]@
                == received@[i].1@,
        forall|p: int|
            0 <= p < num_players && p != local_player && (forall|i: int|
                0 <= i < received@.len() ==> (#[trigger] received@[i]).0 != p) ==> (
            #[trigger] boots@[p])@.len() == 0,
{
    let ghost want = blob@;
    let mut boots: Vec<Vec<u8>> = Vec::new();
    let mut i: usize = 0;
    while i < num_players
        invariant
            i <= num_players,
            boots@.len() == i,
            forall|p: int| 0 <= p < i ==> (#[trigger] boots@[p])@.len() == 0,
        decreases num_players - i,
    {
        boots.push(Vec::new());
        i = i + 1;
    }
    boots.set(local_player, blob);
    let mut k: usize = 0;
    while k < received.len()
        invariant
            k <= received@.len(),
            boots@.len() == num_players,
            local_player < num_players,
            forall|i: int| 0 <= i < received@.len() ==> (#[trigger] received@[i]).0 < num_players,
            forall|i: int|
                0 <= i < received@.len() ==> (#[trigger] received@[i]).0 != local_player,
            forall|i: int, j: int|
                0 <= i < j < received@.len() ==> (#[trigger] received@[i]).0 != (
                #[trigger] received@[j]).0,
            boots@[local_player as int]@ == want,
            forall|i: int|
                0 <= i < k ==> boots@[(#[trigger] received@[i]).0 as int]@ == received@[i].1@,
            forall|p: int|
                0 <= p < num_players && p != local_player && (forall|i: int|
                    0 <= i < received@.len() ==> (#[trigger] received@[i]).0 != p) ==> (
                #[trigger] boots@[p])@.len() == 0,
        decreases received@.len() - k,
    {
        let p: usize = received[k].0;
        assert(received@[k as int].0 == p);
        boots.set(p, crate::bytes::to_vec(received[k].1.as_slice()));
        k = k + 1;
    }
    boots
}

} // verus!
