//! The Play tab: pick a game, pick one of *its* saves, hit Play. The library
//! and the saves are twin pick-lists with import, search, rename (saves), and
//! delete; saves are namespaced per game, the save pane only ever shows the
//! selected game's, and each game remembers its last-picked save. Action
//! feedback flashes inline next to whatever triggered it.
use vstd::prelude::*;
use std::collections::HashMap;
use crate::library::{shown_name, RomInfo, RomInfoView, roms_view, names_view};
use crate::text::{
    chars_of, contains_chars, decimal, hex_digits, lower_chars, lowered, occurs, push_decimal,
    push_hex, same_text, text_from, trim, trimmed,
};

pub mod screen;

verus! {

broadcast use vstd::std_specs::hash::group_hash_axioms;

// ---------------------------------------------------------------------
// Feedback
// ---------------------------------------------------------------------

/// One inline feedback message: `ok` renders green with a check, otherwise the
/// danger tone.
#[derive(Debug, PartialEq, Eq)]
pub struct Flash {
    pub text: String,
    pub ok: bool,
}

/// The inline feedback slots.
#[derive(Debug, Clone, Copy, PartialEq, Eq, Structural)]
pub enum Slot {
    /// The library's importer.
    Roms,
    /// The save pane's importer.
    Saves,
    /// The pane whose picker ran, or the library for area-wide drops.
    Fail,
    /// Above the library's list.
    Library,
    /// Above the save pane's list.
    SaveList,
    /// Beside the Play button.
    Launch,
    /// The settings' game database.
    Database,
}

/// A message shown in a slot for so many milliseconds.
#[derive(Debug)]
pub struct Flashed {
    pub slot: Slot,
    pub flash: Flash,
    pub ms: u32,
}

/// What a [`Flashed`] says.
#[verifier::ext_equal]
pub struct FlashedView {
    pub slot: Slot,
    pub text: Seq<char>,
    pub ok: bool,
    pub ms: u32,
}

impl View for Flashed {
    type V = FlashedView;

    open spec fn view(&self) -> FlashedView {
        FlashedView {
            slot: self.slot,
            text: self.flash.text@,
            ok: self.flash.ok,
            ms: self.ms,
        }
    }
}

/// What a list of messages says.
pub open spec fn flashes_view(f: Seq<Flashed>) -> Seq<FlashedView> {
    f.map_values(|f: Flashed| f@)
}

/// A slot once the time of a message is over: cleared, unless something newer
/// landed meanwhile.
pub fn expire(slot: Option<Flash>, text: &str) -> (s: Option<Flash>)
    ensures
        s == (match slot {
            Some(f) if f.text@ == text@ => None,
            _ => slot,
        }),
{
    match slot {
        Some(f) => {
            if same_text(f.text.as_str(), text) {
                None
            } else {
                Some(f)
            }
        },
        None => None,
    }
}

/// What an import came to.
#[derive(Debug)]
pub struct ImportCounts {
    pub roms: u32,
    pub saves: u32,
    pub skipped: u32,
    /// Saves offered with no game picked: they had nowhere to land.
    pub saves_without_game: u32,
    /// The ROM that came in, where it is one.
    pub rom_crc32: Option<u32>,
    /// The save that came in, where it is one.
    pub save_name: Option<String>,
}

/// A failure, shown for a while.
pub open spec fn failed(slot: Slot, text: Seq<char>) -> FlashedView {
    FlashedView { slot, text, ok: false, ms: 5000 }
}

/// What is said where something landed.
pub open spec fn imported(slot: Slot, n: u32, skipped: u32) -> FlashedView {
    FlashedView {
        slot,
        text: if skipped == 0 {
            "Imported "@ + decimal(n as nat) + "!"@
        } else {
            "Imported "@ + decimal(n as nat) + ", skipped "@ + decimal(skipped as nat)
        },
        ok: skipped == 0,
        ms: 3000,
    }
}

/// What is said of an import. ROMs are reported on the library, saves on the
/// saves pane, skips on the library side unless only saves imported. Where
/// nothing landed at all the import *failed*, and the failure is reported in
/// the failing pane's slot.
pub open spec fn import_report(c: ImportCounts) -> Seq<FlashedView> {
    let homeless = if c.saves_without_game > 0 {
        seq![failed(Slot::Saves, "Pick a game first, then import its saves"@)]
    } else {
        Seq::empty()
    };
    let skips_on_saves = c.roms == 0 && c.saves > 0;
    homeless + (if c.roms == 0 && c.saves == 0 {
        if c.saves_without_game > 0 {
            if c.skipped > 0 {
                seq![failed(Slot::Fail, "Skipped "@ + decimal(c.skipped as nat))]
            } else {
                Seq::empty()
            }
        } else if c.skipped > 0 {
            seq![failed(Slot::Fail, "Import failed, skipped "@ + decimal(c.skipped as nat))]
        } else {
            seq![failed(Slot::Fail, "Import failed: no files received"@)]
        }
    } else {
        (if c.roms > 0 || (c.skipped > 0 && !skips_on_saves) {
            seq![imported(Slot::Roms, c.roms, c.skipped)]
        } else {
            Seq::empty()
        }) + (if c.saves > 0 {
            seq![
                imported(
                    Slot::Saves,
                    c.saves,
                    if skips_on_saves {
                        c.skipped
                    } else {
                        0
                    },
                ),
            ]
        } else {
            Seq::empty()
        })
    })
}

fn push_flash(out: &mut Vec<Flashed>, slot: Slot, text: String, ok: bool, ms: u32)
    ensures
        flashes_view(final(out)@) == flashes_view(old(out)@).push(
            FlashedView { slot, text: text@, ok, ms },
        ),
{
    out.push(Flashed { slot, flash: Flash { text, ok }, ms });
    assert(flashes_view(out@) =~= flashes_view(old(out)@).push(
        FlashedView { slot, text: text@, ok, ms },
    ));
}

fn push_imported(out: &mut Vec<Flashed>, slot: Slot, n: u32, skipped: u32)
    ensures
        flashes_view(final(out)@) == flashes_view(old(out)@).push(imported(slot, n, skipped)),
{
    let mut t = "Imported ".to_owned();
    push_decimal(&mut t, n as u64);
    if skipped == 0 {
        t.append("!");
    } else {
        t.append(", skipped ");
        push_decimal(&mut t, skipped as u64);
    }
    push_flash(out, slot, t, skipped == 0, 3000);
}

/// Flash an import's outcome onto whichever side(s) it landed.
pub fn import_flashes(counts: &ImportCounts) -> (out: Vec<Flashed>)
    ensures
        flashes_view(out@) == import_report(*counts),
{
    let mut out: Vec<Flashed> = Vec::new();
    proof {
        assert(flashes_view(out@) =~= Seq::empty());
    }
    if counts.saves_without_game > 0 {
        push_flash(
            &mut out,
            Slot::Saves,
            "Pick a game first, then import its saves".to_owned(),
            false,
            5000,
        );
    }
    if counts.roms == 0 && counts.saves == 0 {
        // Homeless saves already explained themselves above.
        if counts.saves_without_game > 0 {
            if counts.skipped > 0 {
                let mut t = "Skipped ".to_owned();
                push_decimal(&mut t, counts.skipped as u64);
                push_flash(&mut out, Slot::Fail, t, false, 5000);
            }
        } else if counts.skipped > 0 {
            let mut t = "Import failed, skipped ".to_owned();
            push_decimal(&mut t, counts.skipped as u64);
            push_flash(&mut out, Slot::Fail, t, false, 5000);
        } else {
            // The picker handed over nothing.
            let t = "Import failed: no files received".to_owned();
            push_flash(&mut out, Slot::Fail, t, false, 5000);
        }
    } else {
        let skips_on_saves = counts.roms == 0 && counts.saves > 0;
        if counts.roms > 0 || (counts.skipped > 0 && !skips_on_saves) {
            push_imported(&mut out, Slot::Roms, counts.roms, counts.skipped);
        }
        if counts.saves > 0 {
            let skipped: u32 = if skips_on_saves {
                counts.skipped
            } else {
                0
            };
            push_imported(&mut out, Slot::Saves, counts.saves, skipped);
        }
    }
    assert(flashes_view(out@) =~= import_report(*counts));
    out
}

// ---------------------------------------------------------------------
// Picks
// ---------------------------------------------------------------------

/// What is picked, and what is remembered of picks.
#[derive(Debug)]
pub struct Picks {
    pub selected_game: Option<u32>,
    /// `None` = a fresh save.
    pub selected_save: Option<String>,
    /// The library's last-picked game, restored on load.
    pub last_game: Option<u32>,
    /// Each game's last-picked save.
    pub last_saves: HashMap<u32, String>,
}

/// What [`Picks`] say.
#[verifier::ext_equal]
pub struct PicksView {
    pub selected_game: Option<u32>,
    pub selected_save: Option<Seq<char>>,
    pub last_game: Option<u32>,
    pub last_saves: Map<u32, Seq<char>>,
}

/// What an optional text says.
pub open spec fn maybe(t: Option<String>) -> Option<Seq<char>> {
    match t {
        Some(t) => Some(t@),
        None => None,
    }
}

/// What the remembered saves say.
pub open spec fn saves_view(m: Map<u32, String>) -> Map<u32, Seq<char>> {
    m.map_values(|s: String| s@)
}

impl View for Picks {
    type V = PicksView;

    open spec fn view(&self) -> PicksView {
        PicksView {
            selected_game: self.selected_game,
            selected_save: maybe(self.selected_save),
            last_game: self.last_game,
            last_saves: saves_view(self.last_saves@),
        }
    }
}

/// The save a game remembers.
pub open spec fn remembered(p: PicksView, crc32: u32) -> Option<Seq<char>> {
    if p.last_saves.contains_key(crc32) {
        Some(p.last_saves[crc32])
    } else {
        None
    }
}

/// Picking a game restores its last-picked save; none remembered = fresh. The
/// pick is remembered for the next load.
pub open spec fn game_picked(p: PicksView, crc32: u32) -> PicksView {
    PicksView {
        selected_game: Some(crc32),
        selected_save: remembered(p, crc32),
        last_game: Some(crc32),
        ..p
    }
}

/// Picking a save remembers it for the selected game.
pub open spec fn save_picked(p: PicksView, name: Seq<char>) -> PicksView {
    PicksView {
        selected_save: Some(name),
        last_saves: match p.selected_game {
            Some(crc32) => p.last_saves.insert(crc32, name),
            None => p.last_saves,
        },
        ..p
    }
}

/// Choosing fresh forgets the game's remembered pick.
pub open spec fn fresh_picked(p: PicksView) -> PicksView {
    PicksView {
        selected_save: None,
        last_saves: match p.selected_game {
            Some(crc32) => p.last_saves.remove(crc32),
            None => p.last_saves,
        },
        ..p
    }
}

/// A lone new arrival is what the player wants next: a single imported ROM
/// becomes the selected game (bringing its remembered save), else a single
/// imported save becomes the selected pick. Batches select nothing, and where a
/// lone ROM and a lone save arrive together the ROM wins.
pub open spec fn import_picked(p: PicksView, c: ImportCounts) -> PicksView {
    if c.roms == 1 {
        match c.rom_crc32 {
            Some(crc32) => game_picked(p, crc32),
            None => p,
        }
    } else if c.saves == 1 {
        match c.save_name {
            Some(name) => save_picked(p, name@),
            None => p,
        }
    } else {
        p
    }
}

/// A picked save that an authoritative listing of the selected game's saves
/// doesn't hold falls back to fresh, and the memory of it goes too.
pub open spec fn pruned(
    p: PicksView,
    for_game: Option<u32>,
    authoritative: bool,
    saves: Seq<Seq<char>>,
) -> PicksView {
    if !authoritative || for_game != p.selected_game {
        p
    } else {
        match p.selected_save {
            Some(name) if !saves.contains(name) => fresh_picked(p),
            _ => p,
        }
    }
}

/// A save of a game was renamed: the pick and the remembered pick follow.
pub open spec fn save_renamed(
    p: PicksView,
    crc32: u32,
    from: Seq<char>,
    to: Seq<char>,
) -> PicksView {
    PicksView {
        selected_save: if p.selected_save == Some(from) {
            Some(to)
        } else {
            p.selected_save
        },
        last_saves: if remembered(p, crc32) == Some(from) {
            p.last_saves.insert(crc32, to)
        } else {
            p.last_saves
        },
        ..p
    }
}

/// A save of a game was deleted: no remembering deleted saves.
pub open spec fn save_deleted(p: PicksView, crc32: u32, name: Seq<char>) -> PicksView {
    PicksView {
        selected_save: if p.selected_save == Some(name) {
            None
        } else {
            p.selected_save
        },
        last_saves: if remembered(p, crc32) == Some(name) {
            p.last_saves.remove(crc32)
        } else {
            p.last_saves
        },
        ..p
    }
}

/// A game was deleted: the pick and the remembered game and save all forget it.
pub open spec fn game_deleted(p: PicksView, crc32: u32) -> PicksView {
    let gone = p.selected_game == Some(crc32);
    PicksView {
        selected_game: if gone {
            None
        } else {
            p.selected_game
        },
        selected_save: if gone {
            None
        } else {
            p.selected_save
        },
        last_game: if p.last_game == Some(crc32) {
            None
        } else {
            p.last_game
        },
        last_saves: p.last_saves.remove(crc32),
    }
}

/// Whether an optional text is a text.
fn is_text(t: &Option<String>, name: &str) -> (b: bool)
    ensures
        b == (maybe(*t) == Some(name@)),
{
    match t {
        Some(t) => same_text(t.as_str(), name),
        None => false,
    }
}

impl Picks {
    fn remembers(&self, crc32: u32) -> (n: Option<String>)
        ensures
            maybe(n) == remembered(self@, crc32),
    {
        match self.last_saves.get(&crc32) {
            Some(n) => Some(n.as_str().to_owned()),
            None => None,
        }
    }

    fn remember(&mut self, crc32: u32, name: &str)
        ensures
            final(self)@ == (PicksView {
                last_saves: old(self)@.last_saves.insert(crc32, name@),
                ..old(self)@
            }),
    {
        let ghost was = self@;
        self.last_saves.insert(crc32, name.to_owned());
        assert(self@.last_saves =~= was.last_saves.insert(crc32, name@));
    }

    fn forget(&mut self, crc32: u32)
        ensures
            final(self)@ == (PicksView {
                last_saves: old(self)@.last_saves.remove(crc32),
                ..old(self)@
            }),
    {
        let ghost was = self@;
        self.last_saves.remove(&crc32);
        assert(self@.last_saves =~= was.last_saves.remove(crc32));
    }

    pub fn pick_game(&mut self, crc32: u32)
        ensures
            final(self)@ == game_picked(old(self)@, crc32),
    {
        self.selected_save = self.remembers(crc32);
        self.selected_game = Some(crc32);
        self.last_game = Some(crc32);
    }

    pub fn pick_save(&mut self, name: &str)
        ensures
            final(self)@ == save_picked(old(self)@, name@),
    {
        self.selected_save = Some(name.to_owned());
        match self.selected_game {
            Some(crc32) => {
                self.remember(crc32, name);
            },
            None => {},
        }
    }

    pub fn pick_fresh(&mut self)
        ensures
            final(self)@ == fresh_picked(old(self)@),
    {
        self.selected_save = None;
        match self.selected_game {
            Some(crc32) => {
                self.forget(crc32);
            },
            None => {},
        }
    }

    pub fn select_imported(&mut self, counts: &ImportCounts)
        ensures
            final(self)@ == import_picked(old(self)@, *counts),
    {
        if counts.roms == 1 {
            match counts.rom_crc32 {
                Some(crc32) => {
                    self.pick_game(crc32);
                },
                None => {},
            }
        } else if counts.saves == 1 {
            match &counts.save_name {
                Some(name) => {
                    self.pick_save(name.as_str());
                },
                None => {},
            }
        }
    }

    /// A listing of a game's saves is here. One taken with a write-back in
    /// flight is not authoritative: it may predate the file being created.
    pub fn prune(&mut self, for_game: Option<u32>, authoritative: bool, saves: &Vec<String>)
        ensures
            final(self)@ == pruned(old(self)@, for_game, authoritative, names_view(saves@)),
    {
        let same = match (for_game, self.selected_game) {
            (Some(a), Some(b)) => a == b,
            (None, None) => true,
            _ => false,
        };
        if !authoritative || !same {
            return;
        }
        let there = match &self.selected_save {
            Some(name) => has_name(saves, name.as_str()),
            None => true,
        };
        if !there {
            self.pick_fresh();
        }
    }

    pub fn renamed(&mut self, crc32: u32, from: &str, to: &str)
        ensures
            final(self)@ == save_renamed(old(self)@, crc32, from@, to@),
    {
        if is_text(&self.selected_save, from) {
            self.selected_save = Some(to.to_owned());
        }
        let n = self.remembers(crc32);
        if is_text(&n, from) {
            self.remember(crc32, to);
        }
    }

    pub fn deleted_save(&mut self, crc32: u32, name: &str)
        ensures
            final(self)@ == save_deleted(old(self)@, crc32, name@),
    {
        if is_text(&self.selected_save, name) {
            self.selected_save = None;
        }
        let n = self.remembers(crc32);
        if is_text(&n, name) {
            self.forget(crc32);
        }
    }

    pub fn deleted_game(&mut self, crc32: u32)
        ensures
            final(self)@ == game_deleted(old(self)@, crc32),
    {
        match self.selected_game {
            Some(c) => {
                if c == crc32 {
                    self.selected_game = None;
                    self.selected_save = None;
                }
            },
            None => {},
        }
        self.forget(crc32);
        match self.last_game {
            Some(c) => {
                if c == crc32 {
                    self.last_game = None;
                }
            },
            None => {},
        }
    }
}

fn has_name(names: &Vec<String>, name: &str) -> (b: bool)
    ensures
        b == names_view(names@).contains(name@),
{
    let ghost nv = names_view(names@);
    let mut i: usize = 0;
    while i < names.len()
        invariant
            i <= names@.len(),
            nv == names_view(names@),
            forall|k: int| 0 <= k < i ==> nv[k] != name@,
        decreases names@.len() - i,
    {
        assert(nv[i as int] == names@[i as int]@);
        if same_text(names[i].as_str(), name) {
            return true;
        }
        i = i + 1;
    }
    assert(!nv.contains(name@));
    false
}

// ---------------------------------------------------------------------
// Lists
// ---------------------------------------------------------------------

/// Whether a search finds a text: in any case of its ASCII letters.
pub open spec fn finds(needle: Seq<char>, hay: Seq<char>) -> bool {
    occurs(lowered(needle), lowered(hay))
}

/// Whether a search lists a ROM: by its name, title or code, and all of them
/// where nothing is searched for.
pub open spec fn rom_found(needle: Seq<char>) -> spec_fn(RomInfoView) -> bool {
    |r: RomInfoView|
        needle.len() == 0 || finds(needle, shown_name(r)) || finds(needle, r.title) || finds(
            needle,
            r.code,
        )
}

/// Whether a search lists a save.
pub open spec fn save_found(needle: Seq<char>) -> spec_fn(Seq<char>) -> bool {
    |s: Seq<char>| needle.len() == 0 || finds(needle, s)
}

fn found(lower_needle: &Vec<char>, hay: &str) -> (b: bool)
    ensures
        b == occurs(lower_needle@, lowered(hay@)),
{
    let h = chars_of(hay);
    let l = lower_chars(h.as_slice());
    contains_chars(l.as_slice(), lower_needle.as_slice())
}

/// The ROMs a search lists, in library order.
pub fn search_roms(roms: &Vec<RomInfo>, search: &str) -> (out: Vec<RomInfo>)
    ensures
        roms_view(out@) == roms_view(roms@).filter(rom_found(search@)),
{
    let s = chars_of(search);
    let needle = lower_chars(s.as_slice());
    let ghost keep = rom_found(search@);
    let ghost rv = roms_view(roms@);
    let mut out: Vec<RomInfo> = Vec::new();
    let mut i: usize = 0;
    proof {
        reveal(Seq::filter);
        assert(rv.take(0).filter(keep) =~= roms_view(out@));
    }
    while i < roms.len()
        invariant
            i <= roms@.len(),
            rv == roms_view(roms@),
            keep == rom_found(search@),
            s@ == search@,
            needle@ == lowered(search@),
            roms_view(out@) == rv.take(i as int).filter(keep),
        decreases roms@.len() - i,
    {
        let ghost before = out@;
        let rom = &roms[i];
        proof {
            reveal(Seq::filter);
            assert(rv.take(i + 1).drop_last() =~= rv.take(i as int));
            assert(rv.take(i + 1).last() == roms@[i as int]@);
        }
        if s.len() == 0 || found(&needle, rom.display_name()) || found(
            &needle,
            rom.title.as_str(),
        ) || found(&needle, rom.code.as_str()) {
            out.push(rom.clone());
            assert(roms_view(out@) =~= roms_view(before).push(roms@[i as int]@));
        }
        i = i + 1;
    }
    assert(rv.take(i as int) =~= rv);
    out
}

/// The saves a search lists, in order.
pub fn search_saves(saves: &Vec<String>, search: &str) -> (out: Vec<String>)
    ensures
        names_view(out@) == names_view(saves@).filter(save_found(search@)),
{
    let s = chars_of(search);
    let needle = lower_chars(s.as_slice());
    let ghost keep = save_found(search@);
    let ghost sv = names_view(saves@);
    let mut out: Vec<String> = Vec::new();
    let mut i: usize = 0;
    proof {
        reveal(Seq::filter);
        assert(sv.take(0).filter(keep) =~= names_view(out@));
    }
    while i < saves.len()
        invariant
            i <= saves@.len(),
            sv == names_view(saves@),
            keep == save_found(search@),
            s@ == search@,
            needle@ == lowered(search@),
            names_view(out@) == sv.take(i as int).filter(keep),
        decreases saves@.len() - i,
    {
        let ghost before = out@;
        proof {
            reveal(Seq::filter);
            assert(sv.take(i + 1).drop_last() =~= sv.take(i as int));
            assert(sv.take(i + 1).last() == saves@[i as int]@);
        }
        if s.len() == 0 || found(&needle, saves[i].as_str()) {
            out.push(saves[i].as_str().to_owned());
            assert(names_view(out@) =~= names_view(before).push(saves@[i as int]@));
        }
        i = i + 1;
    }
    assert(sv.take(i as int) =~= sv);
    out
}

/// The saves the save pane shows: those of a listing for the selected game, and
/// none while a fresh pick's directory is still being listed.
pub fn shown_saves(for_game: Option<u32>, selected: Option<u32>, saves: Vec<String>) -> (s: Vec<
    String,
>)
    ensures
        for_game == selected ==> s == saves,
        for_game != selected ==> s@.len() == 0,
{
    let same = match (for_game, selected) {
        (Some(a), Some(b)) => a == b,
        (None, None) => true,
        _ => false,
    };
    if same {
        saves
    } else {
        Vec::new()
    }
}

/// What a library list with nothing in it says, and the line under it.
pub open spec fn empty_library(any: bool) -> (Seq<char>, Seq<char>) {
    if any {
        ("No games match your search"@, "Try a title or game code."@)
    } else {
        ("No games yet"@, "Import .gba files to get started."@)
    }
}

/// What a library list with nothing in it says, there being games or not.
pub fn empty_library_text(any: bool) -> (t: (&'static str, &'static str))
    ensures
        (t.0@, t.1@) == empty_library(any),
{
    if any {
        ("No games match your search", "Try a title or game code.")
    } else {
        ("No games yet", "Import .gba files to get started.")
    }
}

/// The line under a ROM's name: its code, CRC and size.
pub open spec fn rom_meta_text(r: RomInfoView) -> Seq<char> {
    r.code + " · "@ + hex_digits(r.crc32 as nat, 8) + " · "@ + decimal((r.size / 1024) as nat)
        + " KiB"@
}

/// The line under a ROM's name.
pub fn rom_meta(rom: &RomInfo) -> (t: String)
    ensures
        t@ == rom_meta_text(rom@),
{
    let mut t = rom.code.as_str().to_owned();
    t.append(" · ");
    push_hex(&mut t, rom.crc32, 8);
    t.append(" · ");
    push_decimal(&mut t, rom.size / 1024);
    t.append(" KiB");
    t
}

// ---------------------------------------------------------------------
// Rows
// ---------------------------------------------------------------------

/// The name a save gets from the stem typed into its editor, keeping its
/// extension; `None` where the stem is blank.
pub open spec fn new_save_name(typed: Seq<char>, save: Seq<char>) -> Option<Seq<char>> {
    if trimmed(typed).len() == 0 {
        None
    } else {
        Some(
            trimmed(typed) + "."@ + (match crate::library::extension_of(save) {
                Some(e) => e,
                None => Seq::empty(),
            }),
        )
    }
}

/// The name a save gets from the stem typed into its editor.
pub fn rename_to(typed: &str, save: &str) -> (n: Option<String>)
    ensures
        maybe(n) == new_save_name(typed@, save@),
{
    let t = chars_of(typed);
    let stem = trim(t.as_slice());
    if stem.len() == 0 {
        return None;
    }
    let mut name = text_from(stem);
    name.append(".");
    name.append(crate::library::ext_of(save).as_str());
    Some(name)
}

/// What a save's row shows.
#[derive(Debug, Clone, Copy, PartialEq, Eq, Structural)]
pub enum SaveRow {
    Renaming,
    /// Deleting is irreversible, so it takes two clicks: arm, then confirm.
    Confirming,
    Plain,
}

/// What is being done to a save.
#[derive(Debug)]
pub struct SaveEditor {
    pub rename_target: Option<String>,
    /// The stem typed so far.
    pub rename_value: String,
    pub pending_delete: Option<String>,
}

impl SaveEditor {
    /// What a save's row shows: a rename wins over a delete.
    pub fn row(&self, save: &str) -> (r: SaveRow)
        ensures
            r == (if maybe(self.rename_target) == Some(save@) {
                SaveRow::Renaming
            } else if maybe(self.pending_delete) == Some(save@) {
                SaveRow::Confirming
            } else {
                SaveRow::Plain
            }),
    {
        if is_text(&self.rename_target, save) {
            SaveRow::Renaming
        } else if is_text(&self.pending_delete, save) {
            SaveRow::Confirming
        } else {
            SaveRow::Plain
        }
    }

    /// Open the editor on a save, with its stem; a delete is no longer armed.
    pub fn start_rename(&mut self, save: &str)
        ensures
            maybe(final(self).rename_target) == Some(save@),
            final(self).rename_value@ == crate::library::stem(save@),
            final(self).pending_delete is None,
    {
        self.rename_value = crate::library::stem_of(save);
        self.rename_target = Some(save.to_owned());
        self.pending_delete = None;
    }

    /// Arm a save's delete; an open editor closes.
    pub fn arm_delete(&mut self, save: &str)
        ensures
            maybe(final(self).pending_delete) == Some(save@),
            final(self).rename_target is None,
            final(self).rename_value == old(self).rename_value,
    {
        self.pending_delete = Some(save.to_owned());
        self.rename_target = None;
    }
}

/// The save file a launch persists into: the picked one, or a fresh one by the
/// game's name.
pub open spec fn launch_save(pick: Option<Seq<char>>, rom: RomInfoView) -> Seq<char> {
    match pick {
        Some(n) => n,
        None => shown_name(rom) + ".sav"@,
    }
}

/// The save file a launch persists into.
pub fn save_file_for(pick: &Option<String>, rom: &RomInfo) -> (n: String)
    ensures
        n@ == launch_save(maybe(*pick), rom@),
{
    match pick {
        Some(n) => n.as_str().to_owned(),
        None => {
            let mut n = rom.display_name().to_owned();
            n.append(".sav");
            n
        },
    }
}

// ---------------------------------------------------------------------
// Laws
// ---------------------------------------------------------------------

/// What a game remembers is what was last picked for it, whatever was picked
/// for other games since.
pub proof fn law_each_game_remembers_its_save(
    p: PicksView,
    game: u32,
    name: Seq<char>,
    other: u32,
    its: Seq<char>,
)
    requires
        game != other,
    ensures
        ({
            let first = save_picked(game_picked(p, game), name);
            let second = save_picked(game_picked(first, other), its);
            &&& game_picked(second, game).selected_save == Some(name)
            &&& game_picked(second, other).selected_save == Some(its)
        }),
{
}

/// A deleted game leaves no trace among the picks, and other games keep theirs.
pub proof fn law_deleted_games_are_forgotten(p: PicksView, crc32: u32, other: u32)
    requires
        crc32 != other,
    ensures
        game_deleted(p, crc32).selected_game != Some(crc32),
        game_deleted(p, crc32).last_game != Some(crc32),
        remembered(game_deleted(p, crc32), crc32) is None,
        remembered(game_deleted(p, crc32), other) == remembered(p, other),
{
}

/// After an authoritative listing, a picked save of the listed game is one that
/// is there.
pub proof fn law_picked_saves_exist(p: PicksView, game: Option<u32>, saves: Seq<Seq<char>>)
    requires
        game == p.selected_game,
    ensures
        pruned(p, game, true, saves).selected_save matches Some(name) ==> saves.contains(name),
{
}

/// Searching for nothing lists everything.
pub proof fn law_an_empty_search_lists_everything(roms: Seq<RomInfoView>)
    ensures
        roms.filter(rom_found(Seq::empty())) == roms,
    decreases roms.len(),
{
    reveal(Seq::filter);
    if roms.len() > 0 {
        law_an_empty_search_lists_everything(roms.drop_last());
        assert(roms.drop_last().push(roms.last()) =~= roms);
    }
}

/// Every import says something: silence never follows a picker.
pub proof fn law_imports_are_answered(c: ImportCounts)
    ensures
        import_report(c).len() >= 1,
{
}

} // verus!
