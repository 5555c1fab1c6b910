//! Replay container for link sessions. Because the link is a deterministic
//! function of the joypad streams, a replay is just the boot configuration
//! plus the confirmed inputs per tick: one roundless format for every link
//! game and every player count (2 to 4).
//!
//! The input stream uses a compact per-tick encoding: a joypad is only 10
//! bits and most ticks are idle or repeat the previous tick, so one tag byte
//! usually stands in for the whole row, with an explicit little-endian `u16`
//! appended only for each player whose keys need spelling out.
use vstd::prelude::*;
use vstd::utf8::encode_utf8;
use crate::bytes::{
    le_bytes, le_value, push_all, push_le, read_le, same_bytes, to_vec,
};
use crate::text::{decimal, from_utf8_lossy, lossy_text, push_decimal};

pub mod laws;
pub mod layout;

verus! {

/// Bumped on any incompatible layout change: `GBAROLLRPLY` and a version.
pub const MAGIC: [u8; 12] = [71, 66, 65, 82, 79, 76, 76, 82, 80, 76, 89, 1];

/// Preferred file extension for replays on disk.
pub const FILE_EXTENSION: &'static str = "gbrr";

/// Most players a link supports.
pub const MAX_PLAYERS: usize = 4;

/// Tag bit 7: clear = the default keys are zero, set = the default is that
/// player's previous tick. Bits 0 to 3: player `i` takes the default, and no
/// explicit `u16` follows for them. Explicit players follow the tag in player
/// order, 2 bytes each, least significant first.
pub const OP_PREV: u8 = 0x80;

/// The end-of-stream sentinel. An all-explicit tick with a clear bit 7 would
/// encode the same way, so the writer sets bit 7 whenever every player is
/// explicit (the defaults are unused then, so the bit is free).
pub const END_OF_REPLAY: u8 = 0;

/// Width of the stored ROM title.
pub const TITLE_LEN: usize = 12;

/// Width of the stored game code.
pub const CODE_LEN: usize = 4;

#[derive(Debug, Clone, Copy, PartialEq, Eq)]
pub enum Error {
    /// Not a replay.
    BadMagic,
    /// The header ends early.
    Truncated,
    /// A player count outside 2 to [`MAX_PLAYERS`].
    BadPlayerCount(u8),
    /// A header field out of its range.
    BadMetadata(&'static str),
}

/// What is said of a recording that cannot be read.
pub open spec fn error_text(e: Error) -> Seq<char> {
    match e {
        Error::BadMagic => "not a gbaroll replay"@,
        Error::Truncated => "truncated replay"@,
        Error::BadPlayerCount(n) => "invalid player count "@ + decimal(n as nat),
        Error::BadMetadata(what) => "invalid metadata: "@ + what@,
    }
}

impl Error {
    /// What to say of it.
    pub fn message(&self) -> (t: String)
        ensures
            t@ == error_text(*self),
    {
        match self {
            Error::BadMagic => "not a gbaroll replay".to_owned(),
            Error::Truncated => "truncated replay".to_owned(),
            Error::BadPlayerCount(n) => {
                let mut t = "invalid player count ".to_owned();
                push_decimal(&mut t, *n as u64);
                t
            },
            Error::BadMetadata(what) => {
                let mut t = "invalid metadata: ".to_owned();
                t.append(what);
                t
            },
        }
    }
}

#[derive(Debug, Clone, PartialEq, Eq)]
pub struct PlayerMeta {
    pub nick: String,
    /// CRC32 of the ROM this player's side runs. Sides may run different
    /// ROMs; whoever plays the replay back needs a copy of each.
    pub rom_crc32: u32,
    /// That ROM's header-internal title (up to 12 bytes of ASCII).
    pub rom_title: String,
    /// That ROM's header game code (up to 4 bytes of ASCII).
    pub rom_code: String,
    /// Opaque boot capture the player's side loaded before the first tick.
    pub boot: Option<Vec<u8>>,
}

#[derive(Debug, Clone, PartialEq, Eq)]
pub struct Metadata {
    /// Which side's perspective recorded this (the default view on
    /// playback).
    pub local_player: u8,
    /// Micros since the unix epoch the recording started; `None` if unknown.
    pub started_at_unix_micros: Option<u64>,
    /// Micros since the unix epoch the carts' RTC was pinned to; `None` if
    /// the session ran without a pinned clock.
    pub rtc_unix_micros: Option<u64>,
    /// One entry per player, 2 to [`MAX_PLAYERS`], in player order.
    pub players: Vec<PlayerMeta>,
}

/// What a [`PlayerMeta`] says.
#[verifier::ext_equal]
pub struct PlayerMetaView {
    pub nick: Seq<char>,
    pub rom_crc32: u32,
    pub rom_title: Seq<char>,
    pub rom_code: Seq<char>,
    pub boot: Option<Seq<u8>>,
}

/// What a [`Metadata`] says.
#[verifier::ext_equal]
pub struct MetadataView {
    pub local_player: u8,
    pub started_at_unix_micros: Option<u64>,
    pub rtc_unix_micros: Option<u64>,
    pub players: Seq<PlayerMetaView>,
}

/// What an optional blob holds.
pub open spec fn blob_view(b: Option<Vec<u8>>) -> Option<Seq<u8>> {
    match b {
        Some(v) => Some(v@),
        None => None,
    }
}

impl View for PlayerMeta {
    type V = PlayerMetaView;

    open spec fn view(&self) -> PlayerMetaView {
        PlayerMetaView {
            nick: self.nick@,
            rom_crc32: self.rom_crc32,
            rom_title: self.rom_title@,
            rom_code: self.rom_code@,
            boot: blob_view(self.boot),
        }
    }
}

/// What a list of players says, in order.
pub open spec fn players_view(players: Seq<PlayerMeta>) -> Seq<PlayerMetaView> {
    players.map_values(|p: PlayerMeta| p@)
}

impl View for Metadata {
    type V = MetadataView;

    open spec fn view(&self) -> MetadataView {
        MetadataView {
            local_player: self.local_player,
            started_at_unix_micros: self.started_at_unix_micros,
            rtc_unix_micros: self.rtc_unix_micros,
            players: players_view(self.players@),
        }
    }
}

/// The player an unnamed side starts as.
pub open spec fn blank_player() -> PlayerMetaView {
    PlayerMetaView {
        nick: Seq::empty(),
        rom_crc32: 0,
        rom_title: Seq::empty(),
        rom_code: Seq::empty(),
        boot: None,
    }
}

impl Default for PlayerMeta {
    fn default() -> (p: PlayerMeta)
        ensures
            p@ == blank_player(),
    {
        PlayerMeta {
            nick: String::new(),
            rom_crc32: 0,
            rom_title: String::new(),
            rom_code: String::new(),
            boot: None,
        }
    }
}

impl Default for Metadata {
    fn default() -> (m: Metadata)
        ensures
            m@ == (MetadataView {
                local_player: 0,
                started_at_unix_micros: None,
                rtc_unix_micros: None,
                players: seq![blank_player(), blank_player()],
            }),
    {
        let mut players: Vec<PlayerMeta> = Vec::new();
        players.push(PlayerMeta::default());
        players.push(PlayerMeta::default());
        let m = Metadata {
            local_player: 0,
            started_at_unix_micros: None,
            rtc_unix_micros: None,
            players,
        };
        assert(players_view(m.players@) =~= seq![blank_player(), blank_player()]);
        m
    }
}

// ---------------------------------------------------------------------
// The header
// ---------------------------------------------------------------------

/// A length-prefixed optional blob: the length `u32::MAX` stands for `None`.
pub open spec fn blob_bytes(blob: Option<Seq<u8>>) -> Seq<u8> {
    match blob {
        Some(b) => le_bytes((b.len() as u32) as nat, 4) + b,
        None => le_bytes(u32::MAX as nat, 4),
    }
}

/// The first `len` bytes of a text, filled up with zeros.
pub open spec fn padded(text: Seq<u8>, len: nat) -> Seq<u8> {
    Seq::new(
        len,
        |i: int|
            if i < text.len() {
                text[i]
            } else {
                0u8
            },
    )
}

/// How many bytes of a nick are stored.
pub open spec fn stored_nick_len(nick: Seq<u8>) -> nat {
    if nick.len() < 255 {
        nick.len()
    } else {
        255
    }
}

/// A one-byte length and at most 255 bytes of the nick.
pub open spec fn nick_bytes(nick: Seq<u8>) -> Seq<u8> {
    seq![stored_nick_len(nick) as u8] + nick.take(stored_nick_len(nick) as int)
}

/// One player's part of the header.
pub open spec fn player_bytes(p: PlayerMetaView) -> Seq<u8> {
    nick_bytes(encode_utf8(p.nick)) + le_bytes(p.rom_crc32 as nat, 4) + padded(
        encode_utf8(p.rom_title),
        TITLE_LEN as nat,
    ) + padded(encode_utf8(p.rom_code), CODE_LEN as nat) + blob_bytes(p.boot)
}

/// The players' parts, in order.
pub open spec fn players_bytes(players: Seq<PlayerMetaView>) -> Seq<u8>
    decreases players.len(),
{
    if players.len() == 0 {
        Seq::<u8>::empty()
    } else {
        players_bytes(players.drop_last()) + player_bytes(players.last())
    }
}

/// A time, or `u64::MAX` for none.
pub open spec fn time_word(t: Option<u64>) -> u64 {
    match t {
        Some(t) => t,
        None => u64::MAX,
    }
}

/// Everything before the first tick.
pub open spec fn header_bytes(m: MetadataView) -> Seq<u8> {
    MAGIC@ + seq![m.players.len() as u8, m.local_player] + le_bytes(
        time_word(m.started_at_unix_micros) as nat,
        8,
    ) + le_bytes(time_word(m.rtc_unix_micros) as nat, 8) + players_bytes(m.players)
}

/// A metadata a writer takes: 2 to [`MAX_PLAYERS`] players, one of them
/// local.
pub open spec fn recordable(m: MetadataView) -> bool {
    2 <= m.players.len() <= MAX_PLAYERS && m.local_player < m.players.len()
}

/// The bytes of a stored text up to its first zero.
pub open spec fn before_nul(s: Seq<u8>) -> Seq<u8>
    decreases s.len(),
{
    if s.len() == 0 || s[0] == 0 {
        Seq::<u8>::empty()
    } else {
        seq![s[0]] + before_nul(s.skip(1))
    }
}

/// An optional blob at `at`, with the position after it; `None` where the
/// bytes run out.
pub open spec fn read_blob_at(d: Seq<u8>, at: int) -> Option<(Option<Seq<u8>>, int)> {
    if at + 4 > d.len() {
        None
    } else {
        let len = le_value(d.subrange(at, at + 4));
        if len == u32::MAX {
            Some((None, at + 4))
        } else if at + 4 + len > d.len() {
            None
        } else {
            Some((Some(d.subrange(at + 4, at + 4 + len)), at + 4 + len))
        }
    }
}

/// The player whose part of the header starts at `at`, with the position
/// after it; `None` where the bytes run out.
pub open spec fn read_player_at(d: Seq<u8>, at: int) -> Option<(PlayerMetaView, int)> {
    if at + 1 > d.len() {
        None
    } else {
        let crc = at + 1 + d[at];
        let title = crc + 4;
        let code = title + TITLE_LEN;
        let boot = code + CODE_LEN;
        if boot > d.len() {
            None
        } else {
            match read_blob_at(d, boot) {
                None => None,
                Some((blob, end)) => Some(
                    (
                        PlayerMetaView {
                            nick: lossy_text(d.subrange(at + 1, crc)),
                            rom_crc32: le_value(d.subrange(crc, title)) as u32,
                            rom_title: lossy_text(before_nul(d.subrange(title, code))),
                            rom_code: lossy_text(before_nul(d.subrange(code, boot))),
                            boot: blob,
                        },
                        end,
                    ),
                ),
            }
        }
    }
}

/// `n` players in a row from `at` on.
pub open spec fn read_players_at(d: Seq<u8>, at: int, n: nat) -> Option<
    (Seq<PlayerMetaView>, int),
>
    decreases n,
{
    if n == 0 {
        Some((Seq::<PlayerMetaView>::empty(), at))
    } else {
        match read_players_at(d, at, (n - 1) as nat) {
            None => None,
            Some((players, mid)) => match read_player_at(d, mid) {
                None => None,
                Some((p, end)) => Some((players.push(p), end)),
            },
        }
    }
}

/// The time a word stands for.
pub open spec fn word_time(w: nat) -> Option<u64> {
    if w == u64::MAX {
        None
    } else {
        Some(w as u64)
    }
}

/// Where the players' parts begin: behind the magic, the two counts and the
/// two times.
pub const PLAYERS_AT: usize = 30;

/// The metadata a header holds and the position behind it, or the first
/// thing wrong with it.
pub open spec fn read_header(d: Seq<u8>) -> Result<(MetadataView, int), Error> {
    if d.len() < 12 {
        Err(Error::Truncated)
    } else if d.take(12) != MAGIC@ {
        Err(Error::BadMagic)
    } else if d.len() < 13 {
        Err(Error::Truncated)
    } else if !(2 <= d[12] <= MAX_PLAYERS) {
        Err(Error::BadPlayerCount(d[12]))
    } else if d.len() < 14 {
        Err(Error::Truncated)
    } else if d[13] >= d[12] {
        Err(Error::BadMetadata("local player out of range"))
    } else if d.len() < PLAYERS_AT {
        Err(Error::Truncated)
    } else {
        match read_players_at(d, PLAYERS_AT as int, d[12] as nat) {
            None => Err(Error::Truncated),
            Some((players, end)) => Ok(
                (
                    MetadataView {
                        local_player: d[13],
                        started_at_unix_micros: word_time(le_value(d.subrange(14, 22))),
                        rtc_unix_micros: word_time(le_value(d.subrange(22, 30))),
                        players,
                    },
                    end,
                ),
            ),
        }
    }
}

fn write_blob(w: &mut Vec<u8>, blob: Option<&Vec<u8>>)
    ensures
        final(w)@ == old(w)@ + blob_bytes(
            match blob {
                Some(b) => Some(b@),
                None => None,
            },
        ),
{
    match blob {
        Some(b) => {
            push_le(w, (b.len() as u32) as u64, 4);
            push_all(w, b.as_slice());
            assert(w@ =~= old(w)@ + blob_bytes(Some(b@)));
        },
        None => {
            push_le(w, u32::MAX as u64, 4);
        },
    }
}

fn write_ascii_padded(w: &mut Vec<u8>, s: &str, len: usize)
    ensures
        final(w)@ == old(w)@ + padded(encode_utf8(s@), len as nat),
{
    let bytes = s.as_bytes();
    let mut i: usize = 0;
    while i < len
        invariant
            i <= len,
            bytes@ == encode_utf8(s@),
            w@ == old(w)@ + padded(encode_utf8(s@), i as nat),
        decreases len - i,
    {
        let ghost before = w@;
        let b: u8 = if i < bytes.len() {
            bytes[i]
        } else {
            0
        };
        w.push(b);
        i = i + 1;
        assert(w@ =~= old(w)@ + padded(encode_utf8(s@), i as nat));
    }
}

fn write_player(w: &mut Vec<u8>, player: &PlayerMeta)
    ensures
        final(w)@ == old(w)@ + player_bytes(player@),
{
    let nick = player.nick.as_str().as_bytes();
    let n: usize = if nick.len() < 255 {
        nick.len()
    } else {
        255
    };
    w.push(n as u8);
    push_all(w, vstd::slice::slice_subrange(nick, 0, n));
    proof {
        assert(nick@.subrange(0, n as int) =~= nick@.take(n as int));
        assert(w@ =~= old(w)@ + nick_bytes(encode_utf8(player.nick@)));
    }
    push_le(w, player.rom_crc32 as u64, 4);
    write_ascii_padded(w, player.rom_title.as_str(), TITLE_LEN);
    write_ascii_padded(w, player.rom_code.as_str(), CODE_LEN);
    write_blob(w, player.boot.as_ref());
    assert(w@ =~= old(w)@ + player_bytes(player@));
}

// ---------------------------------------------------------------------
// The input stream
// ---------------------------------------------------------------------

/// Whether player `i` takes the default under this tag.
pub open spec fn takes_default(tag: u8, i: int) -> bool {
    tag & (1u8 << (i as u8)) != 0
}

/// Whether the default is the previous tick's keys.
pub open spec fn default_is_prev(tag: u8) -> bool {
    tag & OP_PREV != 0
}

/// Which players a choice of default covers: `true` where the keys equal the
/// default.
pub open spec fn covered(keys: Seq<u16>, prev: Seq<u16>, from_prev: bool) -> Seq<bool> {
    Seq::new(
        keys.len(),
        |i: int|
            if from_prev {
                keys[i] == prev[i]
            } else {
                keys[i] == 0
            },
    )
}

/// How many players are left explicit.
pub open spec fn explicit_count(covered: Seq<bool>) -> nat
    decreases covered.len(),
{
    if covered.len() == 0 {
        0
    } else {
        explicit_count(covered.drop_last()) + if covered.last() {
            0nat
        } else {
            1nat
        }
    }
}

/// The previous tick is the default only where that leaves strictly fewer
/// players explicit than zero does.
pub open spec fn chooses_prev(keys: Seq<u16>, prev: Seq<u16>) -> bool {
    explicit_count(covered(keys, prev, true)) < explicit_count(covered(keys, prev, false))
}

/// The tag of a default choice: bit 7, and one bit per covered player.
pub open spec fn tag_bits(op_prev: bool, covered: Seq<bool>) -> u8
    decreases covered.len(),
{
    if covered.len() == 0 {
        if op_prev {
            OP_PREV
        } else {
            0
        }
    } else if covered.last() {
        tag_bits(op_prev, covered.drop_last()) | (1u8 << ((covered.len() - 1) as u8))
    } else {
        tag_bits(op_prev, covered.drop_last())
    }
}

/// The tag of one tick's row. An all-explicit row sets bit 7 whatever the
/// choice, which keeps it off the sentinel.
pub open spec fn row_tag(keys: Seq<u16>, prev: Seq<u16>) -> u8 {
    let c = covered(keys, prev, chooses_prev(keys, prev));
    tag_bits(chooses_prev(keys, prev) || explicit_count(c) == keys.len(), c)
}

/// The explicit keys among the first `n` players, in player order.
pub open spec fn explicit_bytes(keys: Seq<u16>, tag: u8, n: nat) -> Seq<u8>
    decreases n,
{
    if n == 0 {
        Seq::<u8>::empty()
    } else if takes_default(tag, n - 1) {
        explicit_bytes(keys, tag, (n - 1) as nat)
    } else {
        explicit_bytes(keys, tag, (n - 1) as nat) + le_bytes(keys[n - 1] as nat, 2)
    }
}

/// One tick's record.
pub open spec fn row_bytes(keys: Seq<u16>, prev: Seq<u16>) -> Seq<u8> {
    seq![row_tag(keys, prev)] + explicit_bytes(keys, row_tag(keys, prev), keys.len())
}

/// The records of a run of ticks, each against the tick before it.
pub open spec fn rows_bytes(rows: Seq<Seq<u16>>, prev: Seq<u16>) -> Seq<u8>
    decreases rows.len(),
{
    if rows.len() == 0 {
        Seq::<u8>::empty()
    } else {
        row_bytes(rows[0], prev) + rows_bytes(rows.skip(1), rows[0])
    }
}

/// The keys before the first tick: nobody holds anything.
pub open spec fn no_keys(n: nat) -> Seq<u16> {
    Seq::new(n, |i: int| 0u16)
}

/// The first `n` players' keys that a tag and the bytes after it spell, with
/// the number of bytes used; `None` where the bytes run out.
pub open spec fn read_row(tag: u8, s: Seq<u8>, n: nat, prev: Seq<u16>) -> Option<
    (Seq<u16>, nat),
>
    decreases n,
{
    if n == 0 {
        Some((Seq::<u16>::empty(), 0))
    } else {
        match read_row(tag, s, (n - 1) as nat, prev) {
            None => None,
            Some((row, used)) => if takes_default(tag, n - 1) {
                Some(
                    (
                        row.push(
                            if default_is_prev(tag) {
                                prev[n - 1]
                            } else {
                                0
                            },
                        ),
                        used,
                    ),
                )
            } else if used + 2 <= s.len() {
                Some((row.push(le_value(s.subrange(used as int, used + 2int)) as u16), used + 2))
            } else {
                None
            },
        }
    }
}

/// The rows of a stream, and whether it ended on the sentinel. A tail that
/// runs out mid-record drops the partial tick.
pub open spec fn read_rows(s: Seq<u8>, n: nat, prev: Seq<u16>) -> (Seq<Seq<u16>>, bool)
    decreases s.len(),
{
    if s.len() == 0 {
        (Seq::<Seq<u16>>::empty(), false)
    } else if s[0] == END_OF_REPLAY {
        (Seq::<Seq<u16>>::empty(), true)
    } else {
        match read_row(s[0], s.skip(1), n, prev) {
            None => (Seq::<Seq<u16>>::empty(), false),
            Some((row, used)) => {
                proof {
                    lemma_read_row_used(s[0], s.skip(1), n, prev);
                }
                let rest = read_rows(s.skip(1 + used as int), n, row);
                (seq![row] + rest.0, rest.1)
            },
        }
    }
}

/// A row read uses no more than there is, and has one entry per player.
pub proof fn lemma_read_row_used(tag: u8, s: Seq<u8>, n: nat, prev: Seq<u16>)
    ensures
        read_row(tag, s, n, prev) matches Some((row, used)) ==> used <= s.len() && row.len() == n,
    decreases n,
{
    if n > 0 {
        lemma_read_row_used(tag, s, (n - 1) as nat, prev);
    }
}

/// The keys a tick stores: the low 16 bits of each set.
pub open spec fn stored_keys(keys: Seq<u32>) -> Seq<u16> {
    keys.map_values(|k: u32| k as u16)
}

/// Stored keys as playback hands them out.
pub open spec fn wide_keys(keys: Seq<u16>) -> Seq<u32> {
    keys.map_values(|k: u16| k as u32)
}

/// Builds a recording as it goes: the header is written by
/// [`new`](Writer::new), each tick's record by [`push`](Writer::push).
/// Nothing is held back for the end but the one-byte sentinel, so a recording
/// that dies mid-session still parses up to its last stored tick (see
/// [`Replay::is_complete`]).
pub struct Writer {
    /// The bytes so far.
    pub w: Vec<u8>,
    /// Last keys emitted per player, for the "default = previous" form.
    pub prev: Vec<u16>,
}

impl Writer {
    /// A writer is for 2 to [`MAX_PLAYERS`] players.
    pub open spec fn wf(&self) -> bool {
        2 <= self.prev@.len() <= MAX_PLAYERS
    }

    /// Append the header (magic and metadata) to `w` and wrap it.
    pub fn new(w: Vec<u8>, metadata: &Metadata) -> (writer: Writer)
        requires
            recordable(metadata@),
        ensures
            writer.wf(),
            writer.w@ == w@ + header_bytes(metadata@),
            writer.prev@ == no_keys(metadata@.players.len()),
    {
        let mut w = w;
        let ghost start = w@;
        let n: usize = metadata.players.len();
        push_all(&mut w, MAGIC.as_slice());
        w.push(n as u8);
        w.push(metadata.local_player);
        let started: u64 = match metadata.started_at_unix_micros {
            Some(t) => t,
            None => u64::MAX,
        };
        let rtc: u64 = match metadata.rtc_unix_micros {
            Some(t) => t,
            None => u64::MAX,
        };
        push_le(&mut w, started, 8);
        push_le(&mut w, rtc, 8);
        let ghost fixed = w@;
        let ghost views = players_view(metadata.players@);
        let mut prev: Vec<u16> = Vec::new();
        let mut i: usize = 0;
        while i < n
            invariant
                i <= n,
                n == metadata.players@.len(),
                views == players_view(metadata.players@),
                w@ == fixed + players_bytes(views.take(i as int)),
                prev@ == no_keys(i as nat),
            decreases n - i,
        {
            let ghost before = w@;
            write_player(&mut w, &metadata.players[i]);
            prev.push(0);
            proof {
                let upto = views.take(i + 1);
                assert(upto.drop_last() =~= views.take(i as int));
                assert(upto.last() == metadata.players@[i as int]@);
                assert(before + player_bytes(upto.last()) =~= fixed + players_bytes(upto));
                assert(prev@ =~= no_keys((i + 1) as nat));
            }
            i = i + 1;
        }
        proof {
            assert(views.take(n as int) =~= views);
            assert(w@ =~= start + header_bytes(metadata@));
        }
        Writer { w, prev }
    }

    /// Append one confirmed tick's input row (player-indexed keys; joypads
    /// are 10 bits).
    pub fn push(&mut self, keys: &[u32])
        requires
            old(self).wf(),
            keys@.len() == old(self).prev@.len(),
        ensures
            final(self).wf(),
            final(self).w@ == old(self).w@ + row_bytes(stored_keys(keys@), old(self).prev@),
            final(self).prev@ == stored_keys(keys@),
    {
        let n: usize = keys.len();
        let ghost row = stored_keys(keys@);
        let ghost prev = self.prev@;

        // Prefer whichever default (zero or previous) leaves fewer players
        // explicit; a tie goes to zero, so the canonical idle tick stays a
        // single all-defaults byte.
        let mut now: Vec<u16> = Vec::new();
        let mut zero_explicit: usize = 0;
        let mut prev_explicit: usize = 0;
        let mut i: usize = 0;
        proof {
            assert(covered(row, prev, false).take(0) =~= Seq::<bool>::empty());
            assert(covered(row, prev, true).take(0) =~= Seq::<bool>::empty());
        }
        while i < n
            invariant
                i <= n <= 4,
                n == keys@.len() == prev.len(),
                row == stored_keys(keys@),
                prev == self.prev@,
                *self == *old(self),
                now@ == row.take(i as int),
                zero_explicit <= i,
                prev_explicit <= i,
                zero_explicit == explicit_count(covered(row, prev, false).take(i as int)),
                prev_explicit == explicit_count(covered(row, prev, true).take(i as int)),
            decreases n - i,
        {
            let k: u16 = keys[i] as u16;
            now.push(k);
            proof {
                let z = covered(row, prev, false);
                let p = covered(row, prev, true);
                assert(z.take(i + 1).drop_last() =~= z.take(i as int));
                assert(p.take(i + 1).drop_last() =~= p.take(i as int));
                assert(row.take(i + 1) =~= row.take(i as int).push(k));
            }
            if k != 0 {
                zero_explicit = zero_explicit + 1;
            }
            if k != self.prev[i] {
                prev_explicit = prev_explicit + 1;
            }
            i = i + 1;
        }
        proof {
            assert(covered(row, prev, false).take(n as int) =~= covered(row, prev, false));
            assert(covered(row, prev, true).take(n as int) =~= covered(row, prev, true));
            assert(row.take(n as int) =~= row);
        }
        let from_prev = prev_explicit < zero_explicit;
        let explicit: usize = if from_prev {
            prev_explicit
        } else {
            zero_explicit
        };
        // Keep an all-explicit tick's tag off the sentinel.
        let op_prev = from_prev || explicit == n;
        let ghost c = covered(row, prev, from_prev);

        let mut tag: u8 = if op_prev {
            OP_PREV
        } else {
            0
        };
        let mut i: usize = 0;
        proof {
            assert(c.take(0) =~= Seq::<bool>::empty());
        }
        while i < n
            invariant
                i <= n <= 4,
                n == row.len() == prev.len(),
                now@ == row,
                prev == self.prev@,
                *self == *old(self),
                c == covered(row, prev, from_prev),
                tag == tag_bits(op_prev, c.take(i as int)),
            decreases n - i,
        {
            let default: u16 = if from_prev {
                self.prev[i]
            } else {
                0
            };
            proof {
                assert(c.take(i + 1).drop_last() =~= c.take(i as int));
                assert(c.take(i + 1).last() == (row[i as int] == default));
            }
            if now[i] == default {
                tag = tag | (1u8 << (i as u8));
            }
            i = i + 1;
        }
        proof {
            assert(c.take(n as int) =~= c);
            assert(tag == row_tag(row, prev));
        }

        self.w.push(tag);
        let ghost tagged = self.w@;
        let mut i: usize = 0;
        while i < n
            invariant
                i <= n <= 4,
                n == row.len(),
                now@ == row,
                self.prev@ == prev,
                self.w@ == tagged + explicit_bytes(row, tag, i as nat),
            decreases n - i,
        {
            let ghost before = self.w@;
            if tag & (1u8 << (i as u8)) == 0 {
                push_le(&mut self.w, now[i] as u64, 2);
            }
            i = i + 1;
            assert(self.w@ =~= tagged + explicit_bytes(row, tag, i as nat));
        }
        self.prev = now;
        assert(self.w@ =~= old(self).w@ + row_bytes(row, prev));
    }

    /// Append the end-of-stream sentinel and hand back the bytes.
    pub fn finish(self) -> (w: Vec<u8>)
        ensures
            w@ == self.w@.push(END_OF_REPLAY),
    {
        let mut w = self.w;
        w.push(END_OF_REPLAY);
        w
    }
}

/// A replay, read back.
#[derive(Debug)]
pub struct Replay {
    pub metadata: Metadata,
    /// Player-indexed key rows, one per tick.
    pub inputs: Vec<Vec<u32>>,
    /// Whether the stream ended on the sentinel (vs. a truncated tail).
    pub is_complete: bool,
}

/// What a list of rows says.
pub open spec fn rows_view(rows: Seq<Vec<u32>>) -> Seq<Seq<u32>> {
    rows.map_values(|r: Vec<u32>| r@)
}

/// Stored rows as playback hands them out.
pub open spec fn wide_rows(rows: Seq<Seq<u16>>) -> Seq<Seq<u32>> {
    rows.map_values(|r: Seq<u16>| wide_keys(r))
}

/// The rows behind a header that ends at `end`, for `n` players.
pub open spec fn rows_at(d: Seq<u8>, end: int, n: nat) -> (Seq<Seq<u16>>, bool) {
    read_rows(d.skip(end), n, no_keys(n))
}

struct Cursor<'a> {
    data: &'a [u8],
    at: usize,
}

impl<'a> Cursor<'a> {
    spec fn wf(&self) -> bool {
        self.at <= self.data@.len()
    }

    fn take(&mut self, n: usize) -> (r: Result<&'a [u8], Error>)
        requires
            old(self).wf(),
        ensures
            final(self).wf(),
            final(self).data == old(self).data,
            match r {
                Ok(s) => {
                    &&& old(self).at + n <= old(self).data@.len()
                    &&& s@ == old(self).data@.subrange(old(self).at as int, old(self).at + n)
                    &&& final(self).at == old(self).at + n
                },
                Err(e) => {
                    &&& e == Error::Truncated
                    &&& old(self).at + n > old(self).data@.len()
                    &&& final(self).at == old(self).at
                },
            },
    {
        if self.data.len() - self.at < n {
            return Err(Error::Truncated);
        }
        let s = vstd::slice::slice_subrange(self.data, self.at, self.at + n);
        self.at = self.at + n;
        Ok(s)
    }

    fn peek(&self) -> (r: Option<u8>)
        requires
            self.wf(),
        ensures
            r == (if self.at < self.data@.len() {
                Some(self.data@[self.at as int])
            } else {
                None
            }),
    {
        if self.at < self.data.len() {
            Some(self.data[self.at])
        } else {
            None
        }
    }
}

fn read_ascii_padded(bytes: &[u8]) -> (text: String)
    ensures
        text@ == lossy_text(before_nul(bytes@)),
{
    let mut end: usize = 0;
    proof {
        assert(bytes@.skip(0) =~= bytes@);
        assert(bytes@.take(0) + before_nul(bytes@) =~= before_nul(bytes@));
    }
    while end < bytes.len() && bytes[end] != 0
        invariant
            end <= bytes@.len(),
            bytes@.take(end as int) + before_nul(bytes@.skip(end as int)) == before_nul(bytes@),
        decreases bytes@.len() - end,
    {
        proof {
            let here = bytes@.skip(end as int);
            assert(here.skip(1) =~= bytes@.skip(end + 1));
            assert(bytes@.take(end + 1) =~= bytes@.take(end as int) + seq![here[0]]);
            assert(bytes@.take(end as int) + before_nul(here) =~= bytes@.take(end + 1)
                + before_nul(bytes@.skip(end + 1)));
        }
        end = end + 1;
    }
    proof {
        assert(before_nul(bytes@.skip(end as int)) =~= Seq::<u8>::empty());
        assert(bytes@.subrange(0, end as int) =~= before_nul(bytes@));
    }
    from_utf8_lossy(vstd::slice::slice_subrange(bytes, 0, end))
}

fn read_blob(r: &mut Cursor<'_>) -> (blob: Result<Option<Vec<u8>>, Error>)
    requires
        old(r).wf(),
    ensures
        final(r).wf(),
        final(r).data == old(r).data,
        match blob {
            Ok(b) => read_blob_at(old(r).data@, old(r).at as int) == Some(
                (blob_view(b), final(r).at as int),
            ),
            Err(e) => e == Error::Truncated && read_blob_at(old(r).data@, old(r).at as int) is None,
        },
{
    proof {
        crate::bytes::lemma_pow256_widths();
    }
    let len: u64 = read_le(r.take(4)?);
    if len == u32::MAX as u64 {
        return Ok(None);
    }
    let bytes = r.take(len as usize)?;
    Ok(Some(to_vec(bytes)))
}

fn read_player(r: &mut Cursor<'_>) -> (player: Result<PlayerMeta, Error>)
    requires
        old(r).wf(),
    ensures
        final(r).wf(),
        final(r).data == old(r).data,
        match player {
            Ok(p) => read_player_at(old(r).data@, old(r).at as int) == Some(
                (p@, final(r).at as int),
            ),
            Err(e) => e == Error::Truncated && read_player_at(
                old(r).data@,
                old(r).at as int,
            ) is None,
        },
{
    proof {
        crate::bytes::lemma_pow256_widths();
    }
    let nick_len: usize = r.take(1)?[0] as usize;
    let nick = from_utf8_lossy(r.take(nick_len)?);
    let rom_crc32: u32 = read_le(r.take(4)?) as u32;
    let rom_title = read_ascii_padded(r.take(TITLE_LEN)?);
    let rom_code = read_ascii_padded(r.take(CODE_LEN)?);
    let boot = read_blob(r)?;
    Ok(PlayerMeta { nick, rom_crc32, rom_title, rom_code, boot })
}

/// Once a run of players runs out of bytes, so does every longer run.
proof fn lemma_players_run_out(d: Seq<u8>, at: int, m: nat, n: nat)
    requires
        m <= n,
        read_players_at(d, at, m) is None,
    ensures
        read_players_at(d, at, n) is None,
    decreases n,
{
    if m < n {
        lemma_players_run_out(d, at, m, (n - 1) as nat);
    }
}

fn parse_header(data: &[u8]) -> (parsed: Result<(Metadata, usize), Error>)
    ensures
        match parsed {
            Ok((m, end)) => read_header(data@) == Ok::<(MetadataView, int), Error>((m@, end as int))
                && end <= data@.len(),
            Err(e) => read_header(data@) == Err::<(MetadataView, int), Error>(e),
        },
{
    let mut r = Cursor { data, at: 0 };
    let magic = r.take(12)?;
    if !same_bytes(magic, MAGIC.as_slice()) {
        return Err(Error::BadMagic);
    }
    let num_players: u8 = r.take(1)?[0];
    if !(2 <= num_players && num_players <= 4) {
        return Err(Error::BadPlayerCount(num_players));
    }
    let local_player: u8 = r.take(1)?[0];
    if local_player >= num_players {
        return Err(Error::BadMetadata("local player out of range"));
    }
    let started: u64 = read_le(r.take(8)?);
    let rtc: u64 = read_le(r.take(8)?);
    let mut players: Vec<PlayerMeta> = Vec::new();
    let mut i: u8 = 0;
    proof {
        assert(players_view(players@) =~= Seq::<PlayerMetaView>::empty());
    }
    while i < num_players
        invariant
            i <= num_players,
            r.wf(),
            r.data == data,
            2 <= num_players <= 4,
            data@.len() >= PLAYERS_AT,
            data@.take(12) == MAGIC@,
            data@[12] == num_players,
            data@[13] == local_player,
            local_player < num_players,
            players@.len() == i,
            read_players_at(data@, PLAYERS_AT as int, i as nat) == Some(
                (players_view(players@), r.at as int),
            ),
        decreases num_players - i,
    {
        let ghost before = players@;
        match read_player(&mut r) {
            Ok(p) => {
                players.push(p);
                proof {
                    assert(players_view(players@) =~= players_view(before).push(p@));
                }
            },
            Err(e) => {
                proof {
                    lemma_players_run_out(
                        data@,
                        PLAYERS_AT as int,
                        (i + 1) as nat,
                        num_players as nat,
                    );
                }
                return Err(e);
            },
        }
        i = i + 1;
    }
    let started_at_unix_micros: Option<u64> = if started != u64::MAX {
        Some(started)
    } else {
        None
    };
    let rtc_unix_micros: Option<u64> = if rtc != u64::MAX {
        Some(rtc)
    } else {
        None
    };
    Ok((Metadata { local_player, started_at_unix_micros, rtc_unix_micros, players }, r.at))
}

impl Replay {
    pub fn num_players(&self) -> (n: usize)
        ensures
            n == self.metadata.players@.len(),
    {
        self.metadata.players.len()
    }

    /// Read a whole replay. `0x00` ends the stream cleanly; a truncated tail
    /// (missing an explicit key, or no sentinel) drops the partial tick and
    /// leaves `is_complete` false, so a crashed recording still plays back
    /// everything that was stored.
    pub fn parse(data: &[u8]) -> (parsed: Result<Replay, Error>)
        ensures
            match parsed {
                Ok(replay) => {
                    &&& read_header(data@) matches Ok((m, end)) && {
                        &&& replay.metadata@ == m
                        &&& rows_view(replay.inputs@) == wide_rows(
                            rows_at(data@, end, m.players.len()).0,
                        )
                        &&& replay.is_complete == rows_at(data@, end, m.players.len()).1
                    }
                },
                Err(e) => read_header(data@) == Err::<(MetadataView, int), Error>(e),
            },
    {
        let (metadata, end) = parse_header(data)?;
        let n: usize = metadata.players.len();
        let mut r = Cursor { data, at: end };
        proof {
            lemma_header_players(data@);
        }
        let ghost whole = rows_at(data@, end as int, n as nat);
        let ghost mut done = Seq::<Seq<u16>>::empty();

        let mut inputs: Vec<Vec<u32>> = Vec::new();
        let mut prev: Vec<u16> = vec![0u16; n];
        let mut is_complete = false;
        proof {
            assert(prev@ =~= no_keys(n as nat));
            assert(done + whole.0 =~= whole.0);
            assert(rows_view(inputs@) =~= wide_rows(done));
        }
        loop
            invariant_except_break
                whole == (
                    done + read_rows(data@.skip(r.at as int), n as nat, prev@).0,
                    read_rows(data@.skip(r.at as int), n as nat, prev@).1,
                ),
                !is_complete,
            invariant
                r.wf(),
                r.data == data,
                2 <= n <= 4,
                prev@.len() == n,
                rows_view(inputs@) == wide_rows(done),
            ensures
                whole == (done, is_complete),
            decreases data@.len() - r.at,
        {
            let ghost rest = data@.skip(r.at as int);
            let ghost start = r.at as int;
            let tag: u8 = match r.peek() {
                Some(tag) => tag,
                None => {
                    assert(done + Seq::<Seq<u16>>::empty() =~= done);
                    break;
                },
            };
            assert(r.at < data.len());
            r.at = r.at + 1;
            if tag == END_OF_REPLAY {
                is_complete = true;
                assert(done + Seq::<Seq<u16>>::empty() =~= done);
                break;
            }
            let ghost body = rest.skip(1);
            let ghost last = prev@;
            assert(body =~= data@.skip(start + 1));
            let op_prev = tag & OP_PREV != 0;
            let mut now: Vec<u16> = Vec::new();
            let mut row: Vec<u32> = Vec::new();
            let mut short = false;
            let mut i: usize = 0;
            while i < n && !short
                invariant
                    r.wf(),
                    r.data == data,
                    2 <= n <= 4,
                    i <= n,
                    prev@ == last,
                    last.len() == n,
                    0 <= start < r.at,
                    body == data@.skip(start + 1),
                    op_prev == default_is_prev(tag),
                    row@ == wide_keys(now@),
                    short ==> read_row(tag, body, n as nat, last) is None,
                    !short ==> read_row(tag, body, i as nat, last) == Some(
                        (now@, (r.at - start - 1) as nat),
                    ),
                decreases n - i + (if short { 0int } else { 1int }),
            {
                let ghost so_far = now@;
                let v: u16 = if tag & (1u8 << (i as u8)) != 0 {
                    if op_prev {
                        prev[i]
                    } else {
                        0
                    }
                } else {
                    let ghost at = r.at as int;
                    match r.take(2) {
                        Ok(b) => {
                            proof {
                                crate::bytes::lemma_pow256_widths();
                                assert(b@ =~= body.subrange(at - start - 1, at - start - 1 + 2));
                            }
                            read_le(b) as u16
                        },
                        Err(_) => {
                            short = true;
                            0
                        },
                    }
                };
                if short {
                    proof {
                        lemma_row_runs_out(tag, body, (i + 1) as nat, n as nat, last);
                    }
                } else {
                    now.push(v);
                    row.push(v as u32);
                    proof {
                        assert(row@ =~= wide_keys(now@));
                    }
                    i = i + 1;
                }
            }
            if short {
                assert(done + Seq::<Seq<u16>>::empty() =~= done);
                break;
            }
            proof {
                lemma_read_row_used(tag, body, n as nat, last);
                let after = read_rows(data@.skip(r.at as int), n as nat, now@);
                assert(rest.skip(1 + (r.at - start - 1)) =~= data@.skip(r.at as int));
                assert(done + (seq![now@] + after.0) =~= done.push(now@) + after.0);
            }
            let ghost before = inputs@;
            inputs.push(row);
            proof {
                assert(rows_view(inputs@) =~= rows_view(before).push(wide_keys(now@)));
                assert(wide_rows(done.push(now@)) =~= wide_rows(done).push(wide_keys(now@)));
                done = done.push(now@);
            }
            prev = now;
        }
        Ok(Replay { metadata, inputs, is_complete })
    }
}

/// Once a row runs out of bytes, so does the rest of it.
proof fn lemma_row_runs_out(tag: u8, s: Seq<u8>, m: nat, n: nat, prev: Seq<u16>)
    requires
        m <= n,
        read_row(tag, s, m, prev) is None,
    ensures
        read_row(tag, s, n, prev) is None,
    decreases n,
{
    if m < n {
        lemma_row_runs_out(tag, s, m, (n - 1) as nat, prev);
    }
}

/// A header that reads holds as many players as it counts.
proof fn lemma_header_players(d: Seq<u8>)
    ensures
        read_header(d) matches Ok((m, end)) ==> recordable(m),
{
    if d.len() > 13 {
        lemma_players_count(d, PLAYERS_AT as int, d[12] as nat);
    }
}

proof fn lemma_players_count(d: Seq<u8>, at: int, n: nat)
    ensures
        read_players_at(d, at, n) matches Some((players, end)) ==> players.len() == n,
    decreases n,
{
    if n > 0 {
        lemma_players_count(d, at, (n - 1) as nat);
    }
}

/// Read just the header, cheaply: for replay browsers that only need the
/// metadata.
pub fn parse_metadata(data: &[u8]) -> (parsed: Result<Metadata, Error>)
    ensures
        match parsed {
            Ok(m) => read_header(data@) matches Ok((view, _)) && m@ == view,
            Err(e) => read_header(data@) == Err::<(MetadataView, int), Error>(e),
        },
{
    let (metadata, _) = parse_header(data)?;
    Ok(metadata)
}

} // verus!
