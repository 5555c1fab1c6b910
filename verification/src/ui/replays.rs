//! The Replays tab: a table of recorded sessions, watchable when the library
//! holds every side's ROM.
use vstd::prelude::*;
use crate::library::{crc_at, extension_of, holds, names_view, roms_view, shown_name, Library, RomInfoView};
use crate::replay::{
    players_view, read_header, rows_at, rows_view, wide_rows, Metadata, MetadataView, PlayerMeta, PlayerMetaView, Replay,
    FILE_EXTENSION,
};
use crate::text::{
    chars_of, decimal, lower_chars, lowered, push_decimal, same_chars, same_text, text_le,
    texts_in_order,
};

verus! {

/// A recorded session.
#[derive(Debug)]
pub struct Entry {
    /// The recording's file name.
    pub path: String,
    pub metadata: Metadata,
    pub ticks: u32,
    pub complete: bool,
}

/// What an [`Entry`] says.
#[verifier::ext_equal]
pub struct EntryView {
    pub path: Seq<char>,
    pub metadata: MetadataView,
    pub ticks: u32,
    pub complete: bool,
}

impl View for Entry {
    type V = EntryView;

    open spec fn view(&self) -> EntryView {
        EntryView {
            path: self.path@,
            metadata: self.metadata@,
            ticks: self.ticks,
            complete: self.complete,
        }
    }
}

/// What a list of entries says.
pub open spec fn entries_view(e: Seq<Entry>) -> Seq<EntryView> {
    e.map_values(|e: Entry| e@)
}

// ---------------------------------------------------------------------
// Scanning
// ---------------------------------------------------------------------

/// Whether a file name is that of a recording: by its extension, in any case. A
/// name that is nothing but an extension has none.
pub open spec fn is_recording(name: Seq<char>) -> bool {
    extension_of(name) matches Some(e) && e.len() + 1 < name.len() && lowered(e) == lowered(
        FILE_EXTENSION@,
    )
}

/// The entry of a recording; `None` where the file holds none.
pub open spec fn entry_of(name: Seq<char>, d: Seq<u8>) -> Option<EntryView> {
    if !is_recording(name) {
        None
    } else {
        match read_header(d) {
            Ok((m, end)) => {
                let (rows, complete) = rows_at(d, end, m.players.len());
                Some(EntryView { path: name, metadata: m, ticks: rows.len() as u32, complete })
            },
            Err(_) => None,
        }
    }
}

/// Whether a recording began later than another, or at the same time; one whose
/// time is unknown counts as the oldest.
pub open spec fn began_after(a: Option<u64>, b: Option<u64>) -> bool {
    match (a, b) {
        (_, None) => true,
        (None, Some(_)) => false,
        (Some(x), Some(y)) => x >= y,
    }
}

/// Whether an entry is listed before another, or level with it: the newest
/// first, and of those that began together the last by name.
pub open spec fn newer(a: EntryView, b: EntryView) -> bool {
    if a.metadata.started_at_unix_micros == b.metadata.started_at_unix_micros {
        text_le(b.path, a.path)
    } else {
        began_after(a.metadata.started_at_unix_micros, b.metadata.started_at_unix_micros)
    }
}

/// A list with one more entry, behind everything listed before it or level with
/// it.
pub open spec fn placed(entries: Seq<EntryView>, e: EntryView) -> Seq<EntryView>
    decreases entries.len(),
{
    if entries.len() == 0 || newer(entries.last(), e) {
        entries.push(e)
    } else {
        placed(entries.drop_last(), e).push(entries.last())
    }
}

/// The recordings among some files, newest first.
pub open spec fn recordings(files: Seq<(Seq<char>, Seq<u8>)>) -> Seq<EntryView>
    decreases files.len(),
{
    if files.len() == 0 {
        Seq::empty()
    } else {
        let rest = recordings(files.drop_last());
        match entry_of(files.last().0, files.last().1) {
            Some(e) => placed(rest, e),
            None => rest,
        }
    }
}

fn is_recording_name(name: &str) -> (b: bool)
    ensures
        b == is_recording(name@),
{
    let ext = crate::library::ext_of(name);
    let chars = chars_of(name);
    let e = chars_of(ext.as_str());
    let f = chars_of(FILE_EXTENSION);
    proof {
        assert(chars@.len() == chars.len());
        crate::library::lemma_extension_is_shorter(name@);
        reveal_strlit("gbrr");
        if extension_of(name@) is None {
            assert(e@.len() == 0);
            assert(lowered(e@).len() == 0);
            assert(lowered(FILE_EXTENSION@).len() > 0);
        }
    }
    let x = lower_chars(e.as_slice());
    let y = lower_chars(f.as_slice());
    let same = same_chars(x.as_slice(), y.as_slice());
    same && e.len() < chars.len() && e.len() + 1 < chars.len()
}

fn is_newer(a: &Entry, b: &Entry) -> (n: bool)
    ensures
        n == newer(a@, b@),
{
    match (a.metadata.started_at_unix_micros, b.metadata.started_at_unix_micros) {
        (Some(x), Some(y)) => {
            if x != y {
                return x > y;
            }
        },
        (Some(_), None) => {
            return true;
        },
        (None, Some(_)) => {
            return false;
        },
        (None, None) => {},
    }
    let x = chars_of(a.path.as_str());
    let y = chars_of(b.path.as_str());
    texts_in_order(y.as_slice(), x.as_slice())
}

fn place(entries: &mut Vec<Entry>, e: Entry)
    ensures
        entries_view(final(entries)@) == placed(entries_view(old(entries)@), e@),
{
    let ghost all = entries_view(entries@);
    let ghost ev = e@;
    let mut i: usize = entries.len();
    proof {
        assert(all.take(i as int) =~= all);
        assert(placed(all, ev) + all.skip(i as int) =~= placed(all, ev));
    }
    while i > 0 && !is_newer(&entries[i - 1], &e)
        invariant
            i <= entries@.len(),
            entries@ == old(entries)@,
            all == entries_view(entries@),
            ev == e@,
            placed(all.take(i as int), ev) + all.skip(i as int) == placed(all, ev),
        decreases i,
    {
        proof {
            let upto = all.take(i as int);
            assert(upto.drop_last() =~= all.take(i - 1));
            assert(upto.last() == entries@[i - 1]@);
            assert(placed(all.take(i - 1), ev).push(all[i - 1]) + all.skip(i as int) =~= placed(
                all.take(i - 1),
                ev,
            ) + all.skip(i - 1));
        }
        i = i - 1;
    }
    proof {
        let upto = all.take(i as int);
        if i > 0 {
            assert(upto.last() == entries@[i - 1]@);
        }
        assert(placed(upto, ev) == upto.push(ev));
    }
    entries.insert(i, e);
    proof {
        assert(entries_view(entries@) =~= all.take(i as int).push(ev) + all.skip(i as int));
    }
}

/// What a list of files says.
pub open spec fn files_view(files: Seq<(String, Vec<u8>)>) -> Seq<(Seq<char>, Seq<u8>)> {
    files.map_values(|f: (String, Vec<u8>)| (f.0@, f.1@))
}

/// The recorded sessions.
#[derive(Debug)]
pub struct State {
    pub entries: Vec<Entry>,
}

impl State {
    /// The recordings among the files of the replays directory, newest first.
    /// What is no recording, or cannot be read, is skipped.
    pub fn scan(files: &Vec<(String, Vec<u8>)>) -> (s: State)
        ensures
            entries_view(s.entries@) == recordings(files_view(files@)),
    {
        let ghost fv = files_view(files@);
        let mut entries: Vec<Entry> = Vec::new();
        let mut i: usize = 0;
        proof {
            assert(entries_view(entries@) =~= recordings(fv.take(0)));
        }
        while i < files.len()
            invariant
                i <= files@.len(),
                fv == files_view(files@),
                entries_view(entries@) == recordings(fv.take(i as int)),
            decreases files@.len() - i,
        {
            let (name, bytes) = (&files[i].0, &files[i].1);
            proof {
                assert(fv.take(i + 1).drop_last() =~= fv.take(i as int));
                assert(fv.take(i + 1).last() == (name@, bytes@));
            }
            if is_recording_name(name.as_str()) {
                match Replay::parse(bytes.as_slice()) {
                    Ok(replay) => {
                        proof {
                            let (m, end) = read_header(bytes@)->Ok_0;
                            let rows = rows_at(bytes@, end, m.players.len()).0;
                            assert(rows_view(replay.inputs@).len() == wide_rows(rows).len());
                            assert(replay.inputs@.len() == rows.len());
                        }
                        let e = Entry {
                            path: name.as_str().to_owned(),
                            ticks: replay.inputs.len() as u32,
                            complete: replay.is_complete,
                            metadata: replay.metadata,
                        };
                        assert(entry_of(name@, bytes@) == Some(e@));
                        place(&mut entries, e);
                    },
                    Err(_) => {},
                }
            }
            i = i + 1;
        }
        assert(fv.take(i as int) =~= fv);
        State { entries }
    }
}

// ---------------------------------------------------------------------
// Rows
// ---------------------------------------------------------------------

/// Texts with a separator between them.
pub open spec fn joined(texts: Seq<Seq<char>>, sep: Seq<char>) -> Seq<char>
    decreases texts.len(),
{
    if texts.len() == 0 {
        Seq::empty()
    } else if texts.len() == 1 {
        texts[0]
    } else {
        joined(texts.drop_last(), sep) + sep + texts.last()
    }
}

/// Texts without those that repeat the one before.
pub open spec fn deduped(texts: Seq<Seq<char>>) -> Seq<Seq<char>>
    decreases texts.len(),
{
    if texts.len() < 2 {
        texts
    } else {
        let rest = deduped(texts.drop_last());
        if texts[texts.len() - 2] == texts.last() {
            rest
        } else {
            rest.push(texts.last())
        }
    }
}

/// The name to show for a side's ROM: the library's where it holds the ROM,
/// else the stored header title.
pub open spec fn rom_name(p: PlayerMetaView, roms: Seq<RomInfoView>) -> Seq<char> {
    if holds(roms, p.rom_crc32) {
        shown_name(roms[crc_at(roms, p.rom_crc32) as int])
    } else {
        p.rom_title
    }
}

/// A row of the table.
#[derive(Debug)]
pub struct Row {
    /// Who played.
    pub players: String,
    /// What they played.
    pub roms: String,
    /// Whether the library holds every side's ROM.
    pub watchable: bool,
    pub complete: bool,
}

/// What a [`Row`] says.
#[verifier::ext_equal]
pub struct RowView {
    pub players: Seq<char>,
    pub roms: Seq<char>,
    pub watchable: bool,
    pub complete: bool,
}

impl View for Row {
    type V = RowView;

    open spec fn view(&self) -> RowView {
        RowView {
            players: self.players@,
            roms: self.roms@,
            watchable: self.watchable,
            complete: self.complete,
        }
    }
}

/// The row of an entry.
pub open spec fn row_of(e: EntryView, roms: Seq<RomInfoView>) -> RowView {
    let p = e.metadata.players;
    RowView {
        players: joined(p.map_values(|p: PlayerMetaView| p.nick), " vs "@),
        roms: joined(
            deduped(p.map_values(|p: PlayerMetaView| rom_name(p, roms))),
            " + "@,
        ),
        watchable: forall|i: int| 0 <= i < p.len() ==> holds(roms, (#[trigger] p[i]).rom_crc32),
        complete: e.complete,
    }
}

fn join(texts: &Vec<String>, sep: &str) -> (t: String)
    ensures
        t@ == joined(names_view(texts@), sep@),
{
    let ghost tv = names_view(texts@);
    let mut t = "".to_owned();
    let mut i: usize = 0;
    proof {
        reveal_strlit("");
        assert(t@ =~= joined(tv.take(0), sep@));
    }
    while i < texts.len()
        invariant
            i <= texts@.len(),
            tv == names_view(texts@),
            t@ == joined(tv.take(i as int), sep@),
        decreases texts@.len() - i,
    {
        proof {
            assert(tv.take(i + 1).drop_last() =~= tv.take(i as int));
            assert(tv.take(i + 1).last() == texts@[i as int]@);
        }
        if i > 0 {
            t.append(sep);
        }
        t.append(texts[i].as_str());
        i = i + 1;
        assert(t@ =~= joined(tv.take(i as int), sep@));
    }
    assert(tv.take(i as int) =~= tv);
    t
}

fn dedup(texts: Vec<String>) -> (d: Vec<String>)
    ensures
        names_view(d@) == deduped(names_view(texts@)),
{
    let ghost tv = names_view(texts@);
    let mut d: Vec<String> = Vec::new();
    let mut i: usize = 0;
    proof {
        assert(names_view(d@) =~= deduped(tv.take(0)));
    }
    while i < texts.len()
        invariant
            i <= texts@.len(),
            tv == names_view(texts@),
            names_view(d@) == deduped(tv.take(i as int)),
        decreases texts@.len() - i,
    {
        let ghost before = d@;
        let ghost upto = tv.take(i + 1);
        proof {
            assert(upto.drop_last() =~= tv.take(i as int));
            assert(upto.last() == texts@[i as int]@);
            if i > 0 {
                assert(upto[i - 1] == texts@[i - 1]@);
            }
        }
        let repeats = i > 0 && same_text(texts[i - 1].as_str(), texts[i].as_str());
        if !repeats {
            d.push(texts[i].as_str().to_owned());
            assert(names_view(d@) =~= names_view(before).push(texts@[i as int]@));
        }
        proof {
            if i == 0 {
                assert(names_view(d@) =~= deduped(upto));
            }
        }
        i = i + 1;
    }
    assert(tv.take(i as int) =~= tv);
    d
}

/// The row of an entry.
pub fn row(entry: &Entry, library: &Library) -> (r: Row)
    ensures
        r@ == row_of(entry@, roms_view(library.roms@)),
{
    let ghost rv = roms_view(library.roms@);
    let ghost pv = players_view(entry.metadata.players@);
    let players = &entry.metadata.players;
    let mut nicks: Vec<String> = Vec::new();
    let mut titles: Vec<String> = Vec::new();
    let mut watchable: bool = true;
    let mut i: usize = 0;
    while i < players.len()
        invariant
            i <= players@.len(),
            pv == players_view(players@),
            rv == roms_view(library.roms@),
            nicks@.len() == i,
            titles@.len() == i,
            forall|k: int| 0 <= k < i ==> (#[trigger] nicks@[k])@ == pv[k].nick,
            forall|k: int| 0 <= k < i ==> (#[trigger] titles@[k])@ == rom_name(pv[k], rv),
            watchable == (forall|k: int| 0 <= k < i ==> holds(rv, (#[trigger] pv[k]).rom_crc32)),
        decreases players@.len() - i,
    {
        let p: &PlayerMeta = &players[i];
        assert(pv[i as int] == p@);
        nicks.push(p.nick.as_str().to_owned());
        match library.by_crc32(p.rom_crc32) {
            Some(rom) => {
                titles.push(rom.display_name().to_owned());
            },
            None => {
                watchable = false;
                titles.push(p.rom_title.as_str().to_owned());
            },
        }
        i = i + 1;
    }
    proof {
        assert(names_view(nicks@) =~= pv.map_values(|p: PlayerMetaView| p.nick));
        assert(names_view(titles@) =~= pv.map_values(|p: PlayerMetaView| rom_name(p, rv)));
    }
    let titles = dedup(titles);
    Row {
        players: join(&nicks, " vs "),
        roms: join(&titles, " + "),
        watchable,
        complete: entry.complete,
    }
}

/// How many recordings there are.
pub fn count_text(n: usize) -> (t: String)
    ensures
        t@ == decimal(n as nat) + " replay(s)"@,
{
    let mut t = "".to_owned();
    push_decimal(&mut t, n as u64);
    t.append(" replay(s)");
    proof {
        reveal_strlit("");
    }
    assert(t@ =~= decimal(n as nat) + " replay(s)"@);
    t
}

// ---------------------------------------------------------------------
// Laws
// ---------------------------------------------------------------------

/// Whether a list is in order.
pub open spec fn in_order(e: Seq<EntryView>) -> bool {
    forall|i: int, j: int| 0 <= i < j < e.len() ==> newer(#[trigger] e[i], #[trigger] e[j])
}

proof fn lemma_newer_total(a: EntryView, b: EntryView)
    ensures
        newer(a, b) || newer(b, a),
{
    crate::text::lemma_text_le_total(a.path, b.path);
}

proof fn lemma_newer_trans(a: EntryView, b: EntryView, c: EntryView)
    requires
        newer(a, b),
        newer(b, c),
    ensures
        newer(a, c),
{
    if text_le(c.path, b.path) && text_le(b.path, a.path) {
        crate::text::lemma_text_le_trans(c.path, b.path, a.path);
    }
}

proof fn lemma_placed(e: Seq<EntryView>, x: EntryView)
    requires
        in_order(e),
    ensures
        in_order(placed(e, x)),
        placed(e, x).len() == e.len() + 1,
        placed(e, x).to_multiset() == e.to_multiset().insert(x),
    decreases e.len(),
{
    broadcast use vstd::seq_lib::group_to_multiset_ensures;

    if e.len() == 0 || newer(e.last(), x) {
        assert forall|i: int, j: int| 0 <= i < j < e.push(x).len() implies newer(
            #[trigger] e.push(x)[i],
            #[trigger] e.push(x)[j],
        ) by {
            if j == e.len() && i < e.len() - 1 {
                lemma_newer_trans(e[i], e.last(), x);
            }
        }
    } else {
        let rest = e.drop_last();
        let last = e.last();
        lemma_newer_total(last, x);
        lemma_placed(rest, x);
        let p = placed(rest, x);
        assert(e =~= rest.push(last));
        assert(p.push(last).to_multiset() == rest.to_multiset().insert(x).insert(last));
        assert(e.to_multiset() == rest.to_multiset().insert(last));
        assert(rest.to_multiset().insert(x).insert(last) =~= rest.to_multiset().insert(
            last,
        ).insert(x));
        assert forall|i: int| 0 <= i < p.len() implies newer(#[trigger] p[i], last) by {
            assert(p.contains(p[i]));
            assert(p.to_multiset().count(p[i]) > 0);
            if p[i] != x {
                assert(rest.to_multiset().count(p[i]) > 0);
                assert(rest.contains(p[i]));
                let k = choose|k: int| 0 <= k < rest.len() && rest[k] == p[i];
                assert(e[k] == p[i]);
                assert(newer(e[k], e[e.len() - 1]));
            }
        }
    }
}

/// The table is the newest first, whatever order the files come in.
pub proof fn law_the_newest_come_first(files: Seq<(Seq<char>, Seq<u8>)>)
    ensures
        in_order(recordings(files)),
    decreases files.len(),
{
    if files.len() > 0 {
        law_the_newest_come_first(files.drop_last());
        match entry_of(files.last().0, files.last().1) {
            Some(e) => {
                lemma_placed(recordings(files.drop_last()), e);
            },
            None => {},
        }
    }
}

/// Every recording that can be read is in the table.
pub proof fn law_no_recording_is_lost(files: Seq<(Seq<char>, Seq<u8>)>, i: int)
    requires
        0 <= i < files.len(),
        entry_of(files[i].0, files[i].1) is Some,
    ensures
        recordings(files).contains(entry_of(files[i].0, files[i].1).unwrap()),
    decreases files.len(),
{
    broadcast use vstd::seq_lib::group_to_multiset_ensures;

    let want = entry_of(files[i].0, files[i].1).unwrap();
    let rest = recordings(files.drop_last());
    law_the_newest_come_first(files.drop_last());
    if i < files.len() - 1 {
        law_no_recording_is_lost(files.drop_last(), i);
        assert(rest.to_multiset().count(want) > 0);
    }
    match entry_of(files.last().0, files.last().1) {
        Some(e) => {
            lemma_placed(rest, e);
            assert(placed(rest, e).to_multiset().count(want) > 0);
        },
        None => {},
    }
}

} // verus!
