//! What holds of recordings as a whole.
use vstd::prelude::*;
use vstd::utf8::encode_utf8;
use crate::bytes::{le_bytes, lemma_le_bytes_len, lemma_le_roundtrip, lemma_pow256_widths};
use crate::replay::{
    before_nul, blob_bytes, chooses_prev, covered, default_is_prev, explicit_bytes, explicit_count,
    header_bytes, nick_bytes, no_keys, padded, player_bytes, players_bytes, read_blob_at,
    read_header, read_player_at, read_players_at, read_row, read_rows, recordable, row_bytes,
    row_tag, rows_at, rows_bytes, stored_nick_len, tag_bits, takes_default, time_word, word_time,
    MetadataView, PlayerMetaView, CODE_LEN, END_OF_REPLAY, MAGIC, MAX_PLAYERS, PLAYERS_AT,
    TITLE_LEN,
};
use crate::text::{lemma_lossy_text_of_encoded, lossy_text};

verus! {

proof fn lemma_bit_set(tag: u8, i: u8, j: u8)
    by (bit_vector)
    requires
        i < 7,
        j < 7,
    ensures
        ((tag | (1u8 << i)) & (1u8 << j) != 0) <==> (i == j || tag & (1u8 << j) != 0),
        ((tag | (1u8 << i)) & 0x80u8 != 0) <==> (tag & 0x80u8 != 0),
        tag | (1u8 << i) != 0,
{
}

proof fn lemma_bit_none(j: u8)
    by (bit_vector)
    requires
        j < 7,
    ensures
        0u8 & (1u8 << j) == 0,
        0x80u8 & (1u8 << j) == 0,
        0u8 & 0x80u8 == 0,
        0x80u8 & 0x80u8 != 0,
{
}

/// A tag says exactly what it was built from, and is zero only for an
/// all-explicit row with bit 7 clear.
pub proof fn lemma_tag_bits(op_prev: bool, c: Seq<bool>)
    requires
        c.len() <= 4,
    ensures
        forall|i: int| 0 <= i < 7 ==> #[trigger] takes_default(tag_bits(op_prev, c), i) == (i
            < c.len() && c[i]),
        default_is_prev(tag_bits(op_prev, c)) == op_prev,
        tag_bits(op_prev, c) == 0 ==> !op_prev && explicit_count(c) == c.len(),
        explicit_count(c) <= c.len(),
    decreases c.len(),
{
    let tag = tag_bits(op_prev, c);
    if c.len() == 0 {
        assert forall|i: int| 0 <= i < 7 implies #[trigger] takes_default(tag, i) == (i < c.len()
            && c[i]) by {
            lemma_bit_none(i as u8);
        }
        lemma_bit_none(0);
    } else {
        let d = c.drop_last();
        lemma_tag_bits(op_prev, d);
        let t0 = tag_bits(op_prev, d);
        let last = (c.len() - 1) as u8;
        assert forall|i: int| 0 <= i < 7 implies #[trigger] takes_default(tag, i) == (i < c.len()
            && c[i]) by {
            lemma_bit_set(t0, last, i as u8);
            assert(takes_default(t0, i) == (i < d.len() && d[i]));
        }
        lemma_bit_set(t0, last, 0);
    }
}

/// Reading the keys a tag and its explicit bytes stand for gives the row
/// back.
proof fn lemma_read_row(keys: Seq<u16>, prev: Seq<u16>, tag: u8, n: nat, tail: Seq<u8>)
    requires
        n <= keys.len() <= 4,
        prev.len() >= keys.len(),
        forall|i: int|
            0 <= i < n && #[trigger] takes_default(tag, i) ==> keys[i] == if default_is_prev(tag) {
                prev[i]
            } else {
                0u16
            },
    ensures
        read_row(tag, explicit_bytes(keys, tag, n) + tail, n, prev) == Some(
            (keys.take(n as int), explicit_bytes(keys, tag, n).len()),
        ),
    decreases n,
{
    let s = explicit_bytes(keys, tag, n) + tail;
    if n == 0 {
        assert(keys.take(0) =~= Seq::<u16>::empty());
    } else {
        let m = (n - 1) as nat;
        assert(keys.take(n as int) =~= keys.take(m as int).push(keys[m as int]));
        let head = explicit_bytes(keys, tag, m);
        if takes_default(tag, m as int) {
            lemma_read_row(keys, prev, tag, m, tail);
        } else {
            let word = le_bytes(keys[m as int] as nat, 2);
            lemma_read_row(keys, prev, tag, m, word + tail);
            assert(s =~= head + (word + tail));
            crate::bytes::lemma_pow256_widths();
            crate::bytes::lemma_le_roundtrip(keys[m as int] as nat, 2);
            assert(s.subrange(head.len() as int, head.len() + 2int) =~= word);
        }
    }
}

/// One record, followed by anything, reads back as its row.
proof fn lemma_read_record(keys: Seq<u16>, prev: Seq<u16>, tail: Seq<u8>)
    requires
        2 <= keys.len() <= 4,
        prev.len() == keys.len(),
    ensures
        row_tag(keys, prev) != END_OF_REPLAY,
        read_row(
            row_tag(keys, prev),
            (row_bytes(keys, prev) + tail).skip(1),
            keys.len(),
            prev,
        ) == Some((keys, (row_bytes(keys, prev).len() - 1) as nat)),
{
    let from_prev = chooses_prev(keys, prev);
    let c = covered(keys, prev, from_prev);
    let op = from_prev || explicit_count(c) == keys.len();
    let tag = row_tag(keys, prev);
    lemma_tag_bits(op, c);
    if explicit_count(c) == keys.len() {
        lemma_all_explicit(c);
    }
    assert forall|i: int| 0 <= i < keys.len() && #[trigger] takes_default(tag, i) implies keys[i]
        == if default_is_prev(tag) {
        prev[i]
    } else {
        0u16
    } by {
        assert(takes_default(tag, i) == c[i]);
    }
    lemma_read_row(keys, prev, tag, keys.len(), tail);
    assert((row_bytes(keys, prev) + tail).skip(1) =~= explicit_bytes(keys, tag, keys.len()) + tail);
    assert(keys.take(keys.len() as int) =~= keys);
}

pub proof fn lemma_all_explicit(c: Seq<bool>)
    requires
        explicit_count(c) == c.len(),
    ensures
        forall|i: int| 0 <= i < c.len() ==> !#[trigger] c[i],
    decreases c.len(),
{
    if c.len() > 0 {
        lemma_explicit_bound(c.drop_last());
        lemma_all_explicit(c.drop_last());
        assert forall|i: int| 0 <= i < c.len() implies !#[trigger] c[i] by {
            if i < c.len() - 1 {
                assert(c.drop_last()[i] == c[i]);
            }
        }
    }
}

proof fn lemma_explicit_bound(c: Seq<bool>)
    ensures
        explicit_count(c) <= c.len(),
    decreases c.len(),
{
    if c.len() > 0 {
        lemma_explicit_bound(c.drop_last());
    }
}

/// The keys of the last of a run of ticks.
pub open spec fn last_keys(rows: Seq<Seq<u16>>, prev: Seq<u16>) -> Seq<u16> {
    if rows.len() == 0 {
        prev
    } else {
        rows.last()
    }
}

/// Rows of `n` players each.
pub open spec fn rows_of(rows: Seq<Seq<u16>>, n: nat) -> bool {
    forall|i: int| 0 <= i < rows.len() ==> (#[trigger] rows[i]).len() == n
}

/// A whole recording: header, one record per tick, sentinel.
pub open spec fn recording(m: MetadataView, rows: Seq<Seq<u16>>) -> Seq<u8> {
    (header_bytes(m) + rows_bytes(rows, no_keys(m.players.len()))).push(END_OF_REPLAY)
}

/// Pushing one more row onto a stream appends that row's record, taken
/// against the row before it.
pub proof fn law_push_extends_the_stream(rows: Seq<Seq<u16>>, row: Seq<u16>, prev: Seq<u16>)
    ensures
        rows_bytes(rows.push(row), prev) == rows_bytes(rows, prev) + row_bytes(
            row,
            last_keys(rows, prev),
        ),
    decreases rows.len(),
{
    let more = rows.push(row);
    if rows.len() == 0 {
        assert(more.skip(1) =~= Seq::<Seq<u16>>::empty());
        assert(rows_bytes(more.skip(1), row) =~= Seq::<u8>::empty());
        assert(rows_bytes(more, prev) =~= rows_bytes(rows, prev) + row_bytes(row, prev));
    } else {
        assert(more.skip(1) =~= rows.skip(1).push(row));
        law_push_extends_the_stream(rows.skip(1), row, rows[0]);
        assert(last_keys(rows.skip(1), rows[0]) == last_keys(rows, prev));
        assert(rows_bytes(more, prev) =~= rows_bytes(rows, prev) + row_bytes(
            row,
            last_keys(rows, prev),
        ));
    }
}

/// Records followed by anything read back as their rows and then whatever the
/// rest spells.
proof fn lemma_read_rows(rows: Seq<Seq<u16>>, n: nat, prev: Seq<u16>, tail: Seq<u8>)
    requires
        2 <= n <= 4,
        rows_of(rows, n),
        prev.len() == n,
    ensures
        ({
            let rest = read_rows(tail, n, last_keys(rows, prev));
            read_rows(rows_bytes(rows, prev) + tail, n, prev) == (rows + rest.0, rest.1)
        }),
    decreases rows.len(),
{
    let rest = read_rows(tail, n, last_keys(rows, prev));
    let s = rows_bytes(rows, prev) + tail;
    if rows.len() == 0 {
        assert(s =~= tail);
        assert(rows + rest.0 =~= rest.0);
    } else {
        let more = rows.skip(1);
        assert forall|i: int| 0 <= i < more.len() implies (#[trigger] more[i]).len() == n by {
            assert(more[i] == rows[i + 1]);
        }
        assert(rows[0].len() == n);
        lemma_read_rows(more, n, rows[0], tail);
        let record = row_bytes(rows[0], prev);
        let after = rows_bytes(more, rows[0]) + tail;
        lemma_read_record(rows[0], prev, after);
        assert(s =~= record + after);
        assert(s[0] == row_tag(rows[0], prev));
        assert(s.skip(record.len() as int) =~= after);
        assert(last_keys(more, rows[0]) == last_keys(rows, prev));
        assert(seq![rows[0]] + (more + rest.0) =~= rows + rest.0);
    }
}

/// A stream reads back as the rows that were pushed, complete.
pub proof fn law_stream_reads_back(rows: Seq<Seq<u16>>, n: nat)
    requires
        2 <= n <= MAX_PLAYERS,
        rows_of(rows, n),
    ensures
        read_rows(rows_bytes(rows, no_keys(n)).push(END_OF_REPLAY), n, no_keys(n)) == (rows, true),
{
    let tail = seq![END_OF_REPLAY];
    lemma_read_rows(rows, n, no_keys(n), tail);
    assert(rows_bytes(rows, no_keys(n)).push(END_OF_REPLAY) =~= rows_bytes(rows, no_keys(n)) + tail);
    assert(rows + Seq::<Seq<u16>>::empty() =~= rows);
}

/// How many leading rows have their whole record within the first `k` bytes
/// of a stream.
pub open spec fn whole_rows(rows: Seq<Seq<u16>>, prev: Seq<u16>, k: nat) -> nat
    decreases rows.len(),
{
    if rows.len() == 0 || row_bytes(rows[0], prev).len() > k {
        0
    } else {
        1 + whole_rows(rows.skip(1), rows[0], (k - row_bytes(rows[0], prev).len()) as nat)
    }
}

/// Explicit keys that were cut short do not read.
proof fn lemma_cut_row(keys: Seq<u16>, prev: Seq<u16>, tag: u8, n: nat, k: nat)
    requires
        n <= keys.len(),
        k < explicit_bytes(keys, tag, n).len(),
    ensures
        read_row(tag, explicit_bytes(keys, tag, n).take(k as int), n, prev) is None,
    decreases n,
{
    let all = explicit_bytes(keys, tag, n);
    let m = (n - 1) as nat;
    let head = explicit_bytes(keys, tag, m);
    let cut = all.take(k as int);
    if !takes_default(tag, m as int) {
        lemma_le_bytes_len(keys[m as int] as nat, 2);
        if k < head.len() {
            assert(cut =~= head.take(k as int));
            lemma_cut_row(keys, prev, tag, m, k);
        } else {
            lemma_row_use(keys, prev, tag, m, cut);
        }
    } else {
        lemma_cut_row(keys, prev, tag, m, k);
    }
}

/// Reading the first `n` players of a record that is cut behind them uses
/// exactly their explicit bytes.
proof fn lemma_row_use(keys: Seq<u16>, prev: Seq<u16>, tag: u8, n: nat, s: Seq<u8>)
    requires
        n <= keys.len(),
        explicit_bytes(keys, tag, n).len() <= s.len(),
    ensures
        read_row(tag, s, n, prev) matches Some((row, used)) && used == explicit_bytes(
            keys,
            tag,
            n,
        ).len(),
    decreases n,
{
    if n > 0 {
        let m = (n - 1) as nat;
        lemma_le_bytes_len(keys[m as int] as nat, 2);
        lemma_row_use(keys, prev, tag, m, s);
    }
}

proof fn lemma_cut_rows(rows: Seq<Seq<u16>>, n: nat, prev: Seq<u16>, k: nat)
    requires
        2 <= n <= 4,
        rows_of(rows, n),
        prev.len() == n,
        k <= rows_bytes(rows, prev).len(),
    ensures
        whole_rows(rows, prev, k) <= rows.len(),
        read_rows(rows_bytes(rows, prev).take(k as int), n, prev) == (
            rows.take(whole_rows(rows, prev, k) as int),
            false,
        ),
    decreases rows.len(),
{
    let s = rows_bytes(rows, prev);
    let cut = s.take(k as int);
    if rows.len() == 0 {
        assert(rows.take(0) =~= Seq::<Seq<u16>>::empty());
    } else {
        let record = row_bytes(rows[0], prev);
        let more = rows.skip(1);
        let after = rows_bytes(more, rows[0]);
        let tag = row_tag(rows[0], prev);
        assert(rows[0].len() == n);
        assert forall|i: int| 0 <= i < more.len() implies (#[trigger] more[i]).len() == n by {
            assert(more[i] == rows[i + 1]);
        }
        assert(s =~= record + after);
        if record.len() <= k {
            let j = (k - record.len()) as nat;
            lemma_cut_rows(more, n, rows[0], j);
            lemma_read_record(rows[0], prev, after.take(j as int));
            assert(cut =~= record + after.take(j as int));
            assert(cut[0] == tag);
            assert(cut.skip(record.len() as int) =~= after.take(j as int));
            assert(seq![rows[0]] + more.take(whole_rows(more, rows[0], j) as int) =~= rows.take(
                whole_rows(rows, prev, k) as int,
            ));
        } else {
            assert(rows.take(0) =~= Seq::<Seq<u16>>::empty());
            if k > 0 {
                lemma_read_record(rows[0], prev, Seq::<u8>::empty());
                assert(cut[0] == tag);
                assert(cut.skip(1) =~= explicit_bytes(rows[0], tag, n).take(k - 1));
                lemma_cut_row(rows[0], prev, tag, n, (k - 1) as nat);
            }
        }
    }
}

/// A recording cut off anywhere in its stream still reads, incomplete, as
/// exactly the rows whose records are whole.
pub proof fn law_cut_stream_keeps_whole_rows(rows: Seq<Seq<u16>>, n: nat, k: nat)
    requires
        2 <= n <= MAX_PLAYERS,
        rows_of(rows, n),
        k <= rows_bytes(rows, no_keys(n)).len(),
    ensures
        whole_rows(rows, no_keys(n), k) <= rows.len(),
        read_rows(rows_bytes(rows, no_keys(n)).take(k as int), n, no_keys(n)) == (
            rows.take(whole_rows(rows, no_keys(n), k) as int),
            false,
        ),
{
    lemma_cut_rows(rows, n, no_keys(n), k);
}

/// No tick's record begins with the end-of-stream sentinel.
pub proof fn law_records_never_start_with_the_sentinel(keys: Seq<u16>, prev: Seq<u16>)
    requires
        2 <= keys.len() <= MAX_PLAYERS,
        prev.len() == keys.len(),
    ensures
        row_bytes(keys, prev)[0] != END_OF_REPLAY,
{
    lemma_read_record(keys, prev, Seq::<u8>::empty());
}

/// A tag says nothing of players the recording does not have: bits from the
/// player count up to the choice of default are clear.
pub proof fn law_unused_tag_bits_are_clear(keys: Seq<u16>, prev: Seq<u16>, i: int)
    requires
        2 <= keys.len() <= MAX_PLAYERS,
        prev.len() == keys.len(),
        keys.len() <= i < 7,
    ensures
        !takes_default(row_bytes(keys, prev)[0], i),
{
    let c = covered(keys, prev, chooses_prev(keys, prev));
    lemma_tag_bits(chooses_prev(keys, prev) || explicit_count(c) == keys.len(), c);
}

proof fn lemma_explicit_len(keys: Seq<u16>, tag: u8, c: Seq<bool>, n: nat)
    requires
        n <= c.len() <= keys.len(),
        forall|i: int| 0 <= i < n ==> #[trigger] takes_default(tag, i) == c[i],
    ensures
        explicit_bytes(keys, tag, n).len() == 2 * explicit_count(c.take(n as int)),
    decreases n,
{
    if n > 0 {
        let m = (n - 1) as nat;
        lemma_explicit_len(keys, tag, c, m);
        assert(c.take(n as int).drop_last() =~= c.take(m as int));
        assert(takes_default(tag, m as int) == c[m as int]);
        lemma_le_bytes_len(keys[m as int] as nat, 2);
    }
}

/// A record spells out as few players as either default allows: one byte, and
/// two for each player that the better one does not cover.
pub proof fn law_records_take_the_shorter_form(keys: Seq<u16>, prev: Seq<u16>)
    requires
        2 <= keys.len() <= MAX_PLAYERS,
        prev.len() == keys.len(),
    ensures
        ({
            let from_zero = explicit_count(covered(keys, prev, false));
            let from_prev = explicit_count(covered(keys, prev, true));
            row_bytes(keys, prev).len() == 1 + 2 * if from_prev < from_zero {
                from_prev
            } else {
                from_zero
            }
        }),
{
    let c = covered(keys, prev, chooses_prev(keys, prev));
    lemma_tag_bits(chooses_prev(keys, prev) || explicit_count(c) == keys.len(), c);
    lemma_explicit_len(keys, row_tag(keys, prev), c, keys.len());
    assert(c.take(keys.len() as int) =~= c);
}

proof fn lemma_none_explicit(c: Seq<bool>)
    requires
        forall|i: int| 0 <= i < c.len() ==> #[trigger] c[i],
    ensures
        explicit_count(c) == 0,
    decreases c.len(),
{
    if c.len() > 0 {
        assert(c[c.len() - 1]);
        lemma_none_explicit(c.drop_last());
    }
}

proof fn lemma_no_explicit_bytes(keys: Seq<u16>, tag: u8, n: nat)
    requires
        forall|i: int| 0 <= i < n ==> #[trigger] takes_default(tag, i),
    ensures
        explicit_bytes(keys, tag, n).len() == 0,
    decreases n,
{
    if n > 0 {
        assert(takes_default(tag, n - 1));
        lemma_no_explicit_bytes(keys, tag, (n - 1) as nat);
    }
}

/// A tick with nobody pressing anything, and a tick that repeats the one
/// before it, cost one byte each.
pub proof fn law_idle_and_repeated_ticks_are_one_byte(keys: Seq<u16>, prev: Seq<u16>)
    requires
        2 <= keys.len() <= MAX_PLAYERS,
        prev.len() == keys.len(),
        keys == no_keys(keys.len()) || keys == prev,
    ensures
        row_bytes(keys, prev).len() == 1,
{
    let zero = covered(keys, prev, false);
    let same = covered(keys, prev, true);
    if keys == prev {
        lemma_none_explicit(same);
    } else {
        lemma_none_explicit(zero);
    }
    lemma_explicit_bound(zero);
    let from_prev = chooses_prev(keys, prev);
    let c = covered(keys, prev, from_prev);
    assert(explicit_count(c) == 0);
    lemma_covered_all(c);
    lemma_tag_bits(from_prev || explicit_count(c) == keys.len(), c);
    let tag = row_tag(keys, prev);
    assert forall|i: int| 0 <= i < keys.len() implies #[trigger] takes_default(tag, i) by {
        assert(c[i]);
    }
    lemma_no_explicit_bytes(keys, tag, keys.len());
}

proof fn lemma_covered_all(c: Seq<bool>)
    requires
        explicit_count(c) == 0,
    ensures
        forall|i: int| 0 <= i < c.len() ==> #[trigger] c[i],
    decreases c.len(),
{
    if c.len() > 0 {
        lemma_covered_all(c.drop_last());
        assert forall|i: int| 0 <= i < c.len() implies #[trigger] c[i] by {
            if i < c.len() - 1 {
                assert(c.drop_last()[i] == c[i]);
            }
        }
    }
}

/// A player as the header keeps them: at most 255 bytes of the nick, 12 of
/// the title and 4 of the code, the latter two up to their first zero.
pub open spec fn kept_player(p: PlayerMetaView) -> PlayerMetaView {
    let nick = encode_utf8(p.nick);
    PlayerMetaView {
        nick: lossy_text(nick.take(stored_nick_len(nick) as int)),
        rom_crc32: p.rom_crc32,
        rom_title: lossy_text(before_nul(padded(encode_utf8(p.rom_title), TITLE_LEN as nat))),
        rom_code: lossy_text(before_nul(padded(encode_utf8(p.rom_code), CODE_LEN as nat))),
        boot: p.boot,
    }
}

/// Metadata as the header keeps it: `u64::MAX` is no time.
pub open spec fn kept(m: MetadataView) -> MetadataView {
    MetadataView {
        local_player: m.local_player,
        started_at_unix_micros: word_time(time_word(m.started_at_unix_micros) as nat),
        rtc_unix_micros: word_time(time_word(m.rtc_unix_micros) as nat),
        players: m.players.map_values(|p: PlayerMetaView| kept_player(p)),
    }
}

/// A boot capture whose length the header can state.
pub open spec fn boot_fits(p: PlayerMetaView) -> bool {
    p.boot matches Some(b) ==> b.len() < u32::MAX
}

/// A text that fits a field of `len` bytes and holds no zero.
pub open spec fn text_fits(text: Seq<char>, len: nat) -> bool {
    encode_utf8(text).len() <= len && !encode_utf8(text).contains(0u8)
}

/// Metadata that the header keeps as it is.
pub open spec fn fits(m: MetadataView) -> bool {
    &&& m.started_at_unix_micros != Some(u64::MAX)
    &&& m.rtc_unix_micros != Some(u64::MAX)
    &&& forall|i: int|
        0 <= i < m.players.len() ==> {
            let p = #[trigger] m.players[i];
            &&& encode_utf8(p.nick).len() <= 255
            &&& text_fits(p.rom_title, TITLE_LEN as nat)
            &&& text_fits(p.rom_code, CODE_LEN as nat)
        }
}

proof fn lemma_read_blob(blob: Option<Seq<u8>>, pre: Seq<u8>, tail: Seq<u8>)
    requires
        blob matches Some(b) ==> b.len() < u32::MAX,
    ensures
        read_blob_at(pre + blob_bytes(blob) + tail, pre.len() as int) == Some(
            (blob, (pre.len() + blob_bytes(blob).len()) as int),
        ),
{
    let d = pre + blob_bytes(blob) + tail;
    let at = pre.len() as int;
    lemma_pow256_widths();
    match blob {
        Some(b) => {
            lemma_le_roundtrip(b.len(), 4);
            let len = le_bytes(b.len(), 4);
            assert(d.subrange(at, at + 4) =~= len);
            assert(d.subrange(at + 4, at + 4 + b.len()) =~= b);
        },
        None => {
            lemma_le_roundtrip(u32::MAX as nat, 4);
            assert(d.subrange(at, at + 4) =~= le_bytes(u32::MAX as nat, 4));
        },
    }
}

proof fn lemma_read_player(p: PlayerMetaView, pre: Seq<u8>, tail: Seq<u8>)
    requires
        boot_fits(p),
    ensures
        read_player_at(pre + player_bytes(p) + tail, pre.len() as int) == Some(
            (kept_player(p), (pre.len() + player_bytes(p).len()) as int),
        ),
{
    let d = pre + player_bytes(p) + tail;
    let at = pre.len() as int;
    let nick = encode_utf8(p.nick);
    let n = stored_nick_len(nick) as int;
    let title = padded(encode_utf8(p.rom_title), TITLE_LEN as nat);
    let code = padded(encode_utf8(p.rom_code), CODE_LEN as nat);
    lemma_pow256_widths();
    lemma_le_roundtrip(p.rom_crc32 as nat, 4);
    let crc = le_bytes(p.rom_crc32 as nat, 4);
    let fixed = nick_bytes(nick) + crc + title + code;
    assert(d[at] == n as u8);
    assert(d.subrange(at + 1, at + 1 + n) =~= nick.take(n));
    assert(d.subrange(at + 1 + n, at + 5 + n) =~= crc);
    assert(d.subrange(at + 5 + n, at + 17 + n) =~= title);
    assert(d.subrange(at + 17 + n, at + 21 + n) =~= code);
    lemma_read_blob(p.boot, pre + fixed, tail);
    assert(d =~= pre + fixed + blob_bytes(p.boot) + tail);
}

proof fn lemma_read_players(players: Seq<PlayerMetaView>, pre: Seq<u8>, tail: Seq<u8>)
    requires
        forall|i: int| 0 <= i < players.len() ==> boot_fits(#[trigger] players[i]),
    ensures
        read_players_at(
            pre + players_bytes(players) + tail,
            pre.len() as int,
            players.len(),
        ) == Some(
            (
                players.map_values(|p: PlayerMetaView| kept_player(p)),
                (pre.len() + players_bytes(players).len()) as int,
            ),
        ),
    decreases players.len(),
{
    let keep = |p: PlayerMetaView| kept_player(p);
    if players.len() == 0 {
        assert(players.map_values(keep) =~= Seq::<PlayerMetaView>::empty());
    } else {
        let head = players.drop_last();
        let last = players.last();
        assert forall|i: int| 0 <= i < head.len() implies boot_fits(#[trigger] head[i]) by {
            assert(head[i] == players[i]);
        }
        let rest = player_bytes(last) + tail;
        lemma_read_players(head, pre, rest);
        let d = pre + players_bytes(players) + tail;
        assert(d =~= pre + players_bytes(head) + rest);
        let mid = pre + players_bytes(head);
        lemma_read_player(last, mid, tail);
        assert(d =~= mid + player_bytes(last) + tail);
        assert(players.map_values(keep) =~= head.map_values(keep).push(kept_player(last)));
    }
}

/// A header reads back as the metadata it keeps, whatever follows it: the
/// metadata alone never needs the stream.
pub proof fn law_header_reads_back(m: MetadataView, tail: Seq<u8>)
    requires
        recordable(m),
        forall|i: int| 0 <= i < m.players.len() ==> boot_fits(#[trigger] m.players[i]),
    ensures
        read_header(header_bytes(m) + tail) == Ok::<(MetadataView, int), crate::replay::Error>(
            (kept(m), header_bytes(m).len() as int),
        ),
{
    let d = header_bytes(m) + tail;
    lemma_pow256_widths();
    let started = time_word(m.started_at_unix_micros) as nat;
    let rtc = time_word(m.rtc_unix_micros) as nat;
    lemma_le_roundtrip(started, 8);
    lemma_le_roundtrip(rtc, 8);
    let fixed = MAGIC@ + seq![m.players.len() as u8, m.local_player] + le_bytes(started, 8)
        + le_bytes(rtc, 8);
    assert(fixed.len() == PLAYERS_AT);
    assert(d.take(12) =~= MAGIC@);
    assert(d[12] == m.players.len() as u8);
    assert(d[13] == m.local_player);
    assert(d.subrange(14, 22) =~= le_bytes(started, 8));
    assert(d.subrange(22, 30) =~= le_bytes(rtc, 8));
    lemma_read_players(m.players, fixed, tail);
    assert(d =~= fixed + players_bytes(m.players) + tail);
}

proof fn lemma_before_nul_of_padded(text: Seq<u8>, len: nat)
    requires
        text.len() <= len,
        !text.contains(0u8),
    ensures
        before_nul(padded(text, len)) == text,
    decreases text.len(),
{
    let p = padded(text, len);
    if text.len() == 0 {
        assert(before_nul(p) =~= text);
    } else {
        assert(text.contains(text[0]));
        let rest = text.skip(1);
        assert(p.skip(1) =~= padded(rest, (len - 1) as nat));
        assert(!rest.contains(0u8)) by {
            if rest.contains(0u8) {
                let i = choose|i: int| 0 <= i < rest.len() && rest[i] == 0u8;
                assert(text[i + 1] == 0u8);
            }
        }
        lemma_before_nul_of_padded(rest, (len - 1) as nat);
        assert(before_nul(p) =~= seq![text[0]] + rest);
        assert(seq![text[0]] + rest =~= text);
    }
}

/// Metadata whose texts fit their fields is kept as it is.
pub proof fn law_fitting_metadata_is_kept(m: MetadataView)
    requires
        fits(m),
    ensures
        kept(m) == m,
{
    assert forall|i: int| 0 <= i < m.players.len() implies kept_player(#[trigger] m.players[i])
        == m.players[i] by {
        let p = m.players[i];
        let nick = encode_utf8(p.nick);
        assert(nick.take(stored_nick_len(nick) as int) =~= nick);
        lemma_lossy_text_of_encoded(p.nick);
        lemma_before_nul_of_padded(encode_utf8(p.rom_title), TITLE_LEN as nat);
        lemma_lossy_text_of_encoded(p.rom_title);
        lemma_before_nul_of_padded(encode_utf8(p.rom_code), CODE_LEN as nat);
        lemma_lossy_text_of_encoded(p.rom_code);
    }
    assert(kept(m).players =~= m.players);
}

/// A recording reads back, complete, as the metadata it keeps and the rows
/// that were pushed.
pub proof fn law_recording_reads_back(m: MetadataView, rows: Seq<Seq<u16>>)
    requires
        recordable(m),
        forall|i: int| 0 <= i < m.players.len() ==> boot_fits(#[trigger] m.players[i]),
        rows_of(rows, m.players.len()),
    ensures
        read_header(recording(m, rows)) == Ok::<(MetadataView, int), crate::replay::Error>(
            (kept(m), header_bytes(m).len() as int),
        ),
        rows_at(recording(m, rows), header_bytes(m).len() as int, m.players.len()) == (rows, true),
        fits(m) ==> kept(m) == m,
{
    let n = m.players.len();
    let stream = rows_bytes(rows, no_keys(n)).push(END_OF_REPLAY);
    assert(recording(m, rows) =~= header_bytes(m) + stream);
    law_header_reads_back(m, stream);
    assert(recording(m, rows).skip(header_bytes(m).len() as int) =~= stream);
    law_stream_reads_back(rows, n);
    if fits(m) {
        law_fitting_metadata_is_kept(m);
    }
}

/// Keys of at most 16 bits come back as they were pushed.
pub proof fn law_joypad_keys_are_kept(keys: Seq<u32>)
    requires
        forall|i: int| 0 <= i < keys.len() ==> #[trigger] keys[i] <= u16::MAX,
    ensures
        crate::replay::wide_keys(crate::replay::stored_keys(keys)) == keys,
{
    assert(crate::replay::wide_keys(crate::replay::stored_keys(keys)) =~= keys);
}

} // verus!
