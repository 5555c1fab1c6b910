//! What stands where in a recording.
use vstd::prelude::*;
use vstd::utf8::encode_utf8;
use crate::bytes::laws::law_the_lowest_byte_comes_first;
use crate::bytes::{le_bytes, lemma_le_bytes_len};
use crate::replay::laws::{boot_fits, law_header_reads_back};
use crate::replay::{
    blob_bytes, chooses_prev, covered, error_text, explicit_bytes, explicit_count, header_bytes,
    no_keys, player_bytes, players_bytes, read_blob_at, read_header, read_player_at,
    read_players_at, read_row, read_rows, recordable, row_bytes, row_tag, takes_default, Error,
    MetadataView, PlayerMetaView,
};
use crate::text::decimal;

verus! {

/// The first thirty bytes of a recording: eleven letters and a version, how
/// many play, who recorded, and the two times as eight bytes each, the lowest
/// first, all ones where there is none. The players follow in order.
pub proof fn law_what_a_header_begins_with(m: MetadataView, i: int)
    requires
        recordable(m),
        0 <= i < 4,
    ensures
        ({
            let h = header_bytes(m);
            let started: nat = match m.started_at_unix_micros {
                Some(t) => t as nat,
                None => 0xffff_ffff_ffff_ffff,
            };
            let rtc: nat = match m.rtc_unix_micros {
                Some(t) => t as nat,
                None => 0xffff_ffff_ffff_ffff,
            };
            &&& h.len() >= 30
            &&& h.take(12) == seq![71u8, 66, 65, 82, 79, 76, 76, 82, 80, 76, 89, 1]
            &&& h[12] == m.players.len()
            &&& h[13] == m.local_player
            &&& h.subrange(14, 18) == seq![
                (started % 256) as u8,
                (started / 0x100 % 256) as u8,
                (started / 0x1_0000 % 256) as u8,
                (started / 0x100_0000 % 256) as u8,
            ]
            &&& h[18] == (started / 0x1_0000_0000 % 256) as u8
            &&& h[21] == (started / 0x1_0000_0000 / 0x100_0000 % 256) as u8
            &&& h.subrange(22, 26) == seq![
                (rtc % 256) as u8,
                (rtc / 0x100 % 256) as u8,
                (rtc / 0x1_0000 % 256) as u8,
                (rtc / 0x100_0000 % 256) as u8,
            ]
            &&& h[26] == (rtc / 0x1_0000_0000 % 256) as u8
            &&& h.skip(30) == players_bytes(m.players)
        }),
{
    let started = crate::replay::time_word(m.started_at_unix_micros) as nat;
    let rtc = crate::replay::time_word(m.rtc_unix_micros) as nat;
    law_the_lowest_byte_comes_first(started);
    law_the_lowest_byte_comes_first(rtc);
    law_the_lowest_byte_comes_first(started / 0x1_0000_0000);
    law_the_lowest_byte_comes_first(rtc / 0x1_0000_0000);
    let h = header_bytes(m);
    assert(h.take(12) =~= seq![71u8, 66, 65, 82, 79, 76, 76, 82, 80, 76, 89, 1]);
    assert(h.subrange(14, 18) =~= le_bytes(started, 4));
    assert(h.subrange(22, 26) =~= le_bytes(rtc, 4));
    assert(h[18] == le_bytes(started / 0x1_0000_0000, 4)[0]);
    assert(h[21] == le_bytes(started / 0x1_0000_0000, 4)[3]);
    assert(h[26] == le_bytes(rtc / 0x1_0000_0000, 4)[0]);
    assert(h.skip(30) =~= players_bytes(m.players));
}

/// A player's part of a header: the nick's length and bytes, the checksum, the
/// title and the code in their widths, filled up with zeros, and the capture
/// with its length in front. Players stand one behind the other.
pub proof fn law_what_a_player_is_stored_as(p: PlayerMetaView, more: Seq<PlayerMetaView>, i: int)
    requires
        encode_utf8(p.nick).len() <= 255,
    ensures
        ({
            let b = player_bytes(p);
            let nick = encode_utf8(p.nick);
            let title = encode_utf8(p.rom_title);
            let code = encode_utf8(p.rom_code);
            let at = 1 + nick.len() as int;
            &&& b.len() >= at + 24
            &&& b[0] == nick.len()
            &&& b.subrange(1, at) == nick
            &&& b[at] == (p.rom_crc32 % 256) as u8
            &&& b[at + 1] == (p.rom_crc32 / 0x100 % 256) as u8
            &&& b[at + 2] == (p.rom_crc32 / 0x1_0000 % 256) as u8
            &&& b[at + 3] == (p.rom_crc32 / 0x100_0000) as u8
            &&& 0 <= i < 12 ==> b[at + 4 + i] == (if i < title.len() {
                title[i]
            } else {
                0
            })
            &&& 0 <= i < 4 ==> b[at + 16 + i] == (if i < code.len() {
                code[i]
            } else {
                0
            })
            &&& p.boot is None ==> b.skip(at + 20) == seq![0xffu8, 0xff, 0xff, 0xff]
            &&& p.boot matches Some(boot) ==> boot.len() < u32::MAX ==> {
                &&& b[at + 20] == (boot.len() % 256) as u8
                &&& b[at + 23] == (boot.len() / 0x100_0000) as u8
                &&& b.skip(at + 24) == boot
            }
        }),
        players_bytes(more.push(p)) == players_bytes(more) + player_bytes(p),
{
    let b = player_bytes(p);
    let nick = encode_utf8(p.nick);
    let at = 1 + nick.len() as int;
    law_the_lowest_byte_comes_first(p.rom_crc32 as nat);
    assert(nick.take(nick.len() as int) =~= nick);
    assert(b.subrange(1, at) =~= nick);
    assert(more.push(p).drop_last() =~= more);
    match p.boot {
        None => {
            law_the_lowest_byte_comes_first(u32::MAX as nat);
            assert(b.skip(at + 20) =~= blob_bytes(p.boot));
            assert(blob_bytes(p.boot) =~= seq![0xffu8, 0xff, 0xff, 0xff]);
        },
        Some(boot) => {
            lemma_le_bytes_len((boot.len() as u32) as nat, 4);
            if boot.len() < u32::MAX {
                law_the_lowest_byte_comes_first(boot.len());
                assert(b.skip(at + 24) =~= boot);
                assert(b[at + 20] == le_bytes(boot.len(), 4)[0]);
                assert(b[at + 23] == le_bytes(boot.len(), 4)[3]);
            }
        },
    }
}

// ---------------------------------------------------------------------
// Ticks
// ---------------------------------------------------------------------

/// How many of the first `n` players a tag leaves explicit.
pub open spec fn explicit_before(tag: u8, n: nat) -> nat
    decreases n,
{
    if n == 0 {
        0
    } else if tag & (1u8 << ((n - 1) as u8)) != 0 {
        explicit_before(tag, (n - 1) as nat)
    } else {
        explicit_before(tag, (n - 1) as nat) + 1
    }
}

proof fn lemma_explicit_bytes(keys: Seq<u16>, tag: u8, n: nat, i: int)
    requires
        n <= keys.len(),
        0 <= i < n,
        !takes_default(tag, i),
    ensures
        ({
            let e = explicit_bytes(keys, tag, n);
            let at = 2 * explicit_before(tag, i as nat) as int;
            &&& e.len() == 2 * explicit_before(tag, n)
            &&& at + 2 <= e.len()
            &&& e[at] == (keys[i] % 256) as u8
            &&& e[at + 1] == (keys[i] / 256) as u8
        }),
    decreases n,
{
    let m = (n - 1) as nat;
    lemma_explicit_len(keys, tag, m);
    law_the_lowest_byte_comes_first(keys[n - 1] as nat);
    if i < m {
        lemma_explicit_bytes(keys, tag, m, i);
    }
}

proof fn lemma_explicit_len(keys: Seq<u16>, tag: u8, n: nat)
    requires
        n <= keys.len(),
    ensures
        explicit_bytes(keys, tag, n).len() == 2 * explicit_before(tag, n),
    decreases n,
{
    if n > 0 {
        lemma_explicit_len(keys, tag, (n - 1) as nat);
        lemma_le_bytes_len(keys[n - 1] as nat, 2);
    }
}

/// A tick's record says, player by player, what they hold. Where the tag's bit
/// for a player is set they hold what they held before, if the tag's top bit is
/// set, and nothing if it is clear. Where it is clear their keys follow the
/// tag in two bytes, the lower first, in the order of the players. Nothing
/// else is in the record.
pub proof fn law_what_a_tick_is_stored_as(keys: Seq<u16>, prev: Seq<u16>, i: int)
    requires
        2 <= keys.len() <= 4,
        prev.len() == keys.len(),
        0 <= i < keys.len(),
    ensures
        ({
            let b = row_bytes(keys, prev);
            let tag = b[0];
            let at = 1 + 2 * explicit_before(tag, i as nat) as int;
            &&& b.len() == 1 + 2 * explicit_before(tag, keys.len())
            &&& tag & (1u8 << (i as u8)) != 0 && tag & 0x80 != 0 ==> keys[i] == prev[i]
            &&& tag & (1u8 << (i as u8)) != 0 && tag & 0x80 == 0 ==> keys[i] == 0
            &&& tag & (1u8 << (i as u8)) == 0 ==> {
                &&& at + 2 <= b.len()
                &&& b[at] == (keys[i] % 256) as u8
                &&& b[at + 1] == (keys[i] / 256) as u8
            }
        }),
{
    let b = row_bytes(keys, prev);
    let tag = row_tag(keys, prev);
    lemma_explicit_len(keys, tag, keys.len());
    if !takes_default(tag, i) {
        lemma_explicit_bytes(keys, tag, keys.len(), i);
    } else {
        let c = covered(keys, prev, chooses_prev(keys, prev));
        crate::replay::laws::lemma_tag_bits(
            chooses_prev(keys, prev) || explicit_count(c) == keys.len(),
            c,
        );
        assert(c[i]);
        if explicit_count(c) == keys.len() {
            crate::replay::laws::lemma_all_explicit(c);
        }
    }
}

/// A stream begins with nobody holding anything, and each tick's record stands
/// behind the one before it.
pub proof fn law_ticks_stand_one_behind_the_other(
    first: Seq<u16>,
    rest: Seq<Seq<u16>>,
    prev: Seq<u16>,
    n: nat,
    i: int,
)
    requires
        0 <= i < n,
    ensures
        crate::replay::rows_bytes(seq![first] + rest, prev) == row_bytes(first, prev)
            + crate::replay::rows_bytes(rest, first),
        no_keys(n).len() == n,
        no_keys(n)[i] == 0,
{
    let all = seq![first] + rest;
    assert(all[0] == first);
    assert(all.skip(1) =~= rest);
}

/// What a record's tag and keys are read as, whoever wrote them: a set bit is
/// the default the top bit chooses, a clear one the next two bytes, the lower
/// first. A record whose keys run out is no tick.
pub proof fn law_how_a_tick_is_read(tag: u8, s: Seq<u8>, n: nat, prev: Seq<u16>, i: int)
    requires
        n <= 4,
        0 <= i < n,
    ensures
        s.len() < 2 * explicit_before(tag, n) ==> read_row(tag, s, n, prev) is None,
        s.len() >= 2 * explicit_before(tag, n) ==> {
            let at = 2 * explicit_before(tag, i as nat) as int;
            &&& read_row(tag, s, n, prev) matches Some((row, used))
            &&& used == 2 * explicit_before(tag, n)
            &&& row.len() == n
            &&& tag & (1u8 << (i as u8)) != 0 && tag & 0x80 != 0 ==> row[i] == prev[i]
            &&& tag & (1u8 << (i as u8)) != 0 && tag & 0x80 == 0 ==> row[i] == 0
            &&& tag & (1u8 << (i as u8)) == 0 ==> row[i] == s[at] + 256 * s[at + 1]
        },
    decreases n,
{
    let m = (n - 1) as nat;
    if m > 0 {
        let k = if i < m {
            i
        } else {
            0
        };
        law_how_a_tick_is_read(tag, s, m, prev, k);
    } else {
        reveal_with_fuel(read_row, 2);
    }
    let used = 2 * explicit_before(tag, m) as int;
    if s.len() >= used + 2 {
        let two = s.subrange(used, used + 2);
        crate::bytes::laws::law_later_bytes_weigh_more(two[0], two[1], 0, 0);
        assert(two =~= seq![two[0], two[1]]);
    }
    lemma_explicit_grows(tag, i as nat, n);
}

proof fn lemma_explicit_grows(tag: u8, a: nat, b: nat)
    requires
        a <= b,
    ensures
        explicit_before(tag, a) <= explicit_before(tag, b),
    decreases b - a,
{
    if a < b {
        lemma_explicit_grows(tag, a, (b - 1) as nat);
    }
}

/// A stream is complete exactly where it ends on the sentinel; what stands
/// behind it is not read.
pub proof fn law_the_sentinel_ends_a_stream(tail: Seq<u8>, n: nat, prev: Seq<u16>)
    ensures
        read_rows(seq![0u8] + tail, n, prev) == (Seq::<Seq<u16>>::empty(), true),
        read_rows(Seq::empty(), n, prev) == (Seq::<Seq<u16>>::empty(), false),
{
}

// ---------------------------------------------------------------------
// What cannot be read
// ---------------------------------------------------------------------

/// What makes a file no recording, in the order it is noticed: too short for
/// the mark in front, another mark, fewer than two players or more than four,
/// and a recorder who is none of them.
pub proof fn law_what_is_no_recording(d: Seq<u8>)
    ensures
        ({
            let r = read_header(d);
            let marked = d.len() >= 12 && d.take(12) == seq![
                71u8,
                66,
                65,
                82,
                79,
                76,
                76,
                82,
                80,
                76,
                89,
                1,
            ];
            &&& d.len() < 12 ==> r == Err::<(MetadataView, int), Error>(Error::Truncated)
            &&& d.len() >= 12 && !marked ==> r == Err::<(MetadataView, int), Error>(Error::BadMagic)
            &&& marked && d.len() == 12 ==> r == Err::<(MetadataView, int), Error>(Error::Truncated)
            &&& marked && d.len() > 12 && (d[12] < 2 || d[12] > 4) ==> r == Err::<
                (MetadataView, int),
                Error,
            >(Error::BadPlayerCount(d[12]))
            &&& marked && d.len() == 13 && 2 <= d[12] <= 4 ==> r == Err::<
                (MetadataView, int),
                Error,
            >(Error::Truncated)
            &&& marked && d.len() > 13 && 2 <= d[12] <= 4 && d[13] >= d[12] ==> (r matches Err(
                Error::BadMetadata(what),
            ) && what@ == "local player out of range"@)
            &&& r matches Ok((m, _)) ==> marked && m.players.len() == d[12] && m.local_player
                == d[13] && m.local_player < m.players.len() && 2 <= m.players.len() <= 4
        }),
{
    let magic = seq![71u8, 66, 65, 82, 79, 76, 76, 82, 80, 76, 89, 1];
    assert(crate::replay::MAGIC@ =~= magic);
    if d.len() >= 30 {
        lemma_players_read(d, 30, d[12] as nat);
    }
}

proof fn lemma_players_read(d: Seq<u8>, at: int, n: nat)
    ensures
        read_players_at(d, at, n) matches Some((players, _)) ==> players.len() == n,
    decreases n,
{
    if n > 0 {
        lemma_players_read(d, at, (n - 1) as nat);
    }
}

proof fn lemma_cut_blob(d: Seq<u8>, at: int, k: int)
    requires
        0 <= at,
        0 <= k <= d.len(),
    ensures
        read_blob_at(d.take(k), at) matches Some((b, end)) ==> end <= k && read_blob_at(d, at)
            == Some((b, end)),
{
    if at + 4 <= k {
        assert(d.take(k).subrange(at, at + 4) =~= d.subrange(at, at + 4));
        let len = crate::bytes::le_value(d.subrange(at, at + 4));
        if at + 4 + len <= k {
            assert(d.take(k).subrange(at + 4, at + 4 + len) =~= d.subrange(at + 4, at + 4 + len));
        }
    }
}

proof fn lemma_cut_player(d: Seq<u8>, at: int, k: int)
    requires
        0 <= at,
        0 <= k <= d.len(),
    ensures
        read_player_at(d.take(k), at) matches Some((p, end)) ==> at <= end <= k && read_player_at(
            d,
            at,
        ) == Some((p, end)),
{
    let t = d.take(k);
    if at + 1 <= k {
        assert(t[at] == d[at]);
        let crc = at + 1 + d[at];
        let title = crc + 4;
        let code = title + 12;
        let boot = code + 4;
        if boot <= k {
            lemma_cut_blob(d, boot, k);
            assert(t.subrange(at + 1, crc) =~= d.subrange(at + 1, crc));
            assert(t.subrange(crc, title) =~= d.subrange(crc, title));
            assert(t.subrange(title, code) =~= d.subrange(title, code));
            assert(t.subrange(code, boot) =~= d.subrange(code, boot));
        }
    }
}

proof fn lemma_cut_players(d: Seq<u8>, at: int, n: nat, k: int)
    requires
        0 <= at <= k <= d.len(),
    ensures
        read_players_at(d.take(k), at, n) matches Some((ps, end)) ==> at <= end <= k
            && read_players_at(d, at, n) == Some((ps, end)),
    decreases n,
{
    if n > 0 {
        lemma_cut_players(d, at, (n - 1) as nat, k);
        if let Some((ps, mid)) = read_players_at(d.take(k), at, (n - 1) as nat) {
            lemma_cut_player(d, mid, k);
        }
    }
}

/// A recording that ends anywhere within its header is truncated, and nothing
/// of it is taken for a recording.
pub proof fn law_cut_headers_do_not_read(m: MetadataView, k: int)
    requires
        recordable(m),
        forall|i: int| 0 <= i < m.players.len() ==> boot_fits(#[trigger] m.players[i]),
        0 <= k < header_bytes(m).len(),
    ensures
        read_header(header_bytes(m).take(k)) == Err::<(MetadataView, int), Error>(
            Error::Truncated,
        ),
{
    let h = header_bytes(m);
    let none = Seq::<u8>::empty();
    law_header_reads_back(m, none);
    assert(h + none =~= h);
    law_what_a_header_begins_with(m, 0);
    let t = h.take(k);
    if k >= 12 {
        assert(t.take(12) =~= h.take(12));
        assert(h.take(12) =~= crate::replay::MAGIC@);
    }
    if k > 12 {
        assert(t[12] == h[12]);
    }
    if k > 13 {
        assert(t[13] == h[13]);
    }
    if k >= 30 {
        lemma_cut_players(h, 30, h[12] as nat, k);
    }
}

/// What is said of a recording that cannot be read.
pub proof fn law_what_is_said_of_bad_recordings(n: u8)
    ensures
        error_text(Error::BadMagic) == "not a gbaroll replay"@,
        error_text(Error::Truncated) == "truncated replay"@,
        error_text(Error::BadPlayerCount(n)) == "invalid player count "@ + decimal(n as nat),
{
}

} // verus!
