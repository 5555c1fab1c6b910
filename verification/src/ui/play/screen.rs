//! What the Play tab does: which pane is up, and what comes of renames,
//! deletes, exports and launches once storage has answered.
use vstd::prelude::*;
use crate::library::{found_view, rom_read, RomInfo, RomInfoView};
use crate::server::blob_view;
use crate::ui::play::{
    failed, game_deleted, launch_save, maybe, new_save_name, save_deleted, save_file_for,
    save_renamed, rename_to, Flash, Flashed, FlashedView, Picks, PicksView, SaveEditor, Slot,
};

verus! {

/// What a failed step in storage said; `None` where it went well.
pub open spec fn failure(r: Result<(), String>) -> Option<Seq<char>> {
    match r {
        Ok(_) => None,
        Err(e) => Some(e@),
    }
}

/// What an optional message says.
pub open spec fn maybe_flashed(f: Option<Flashed>) -> Option<FlashedView> {
    match f {
        Some(f) => Some(f@),
        None => None,
    }
}

fn flashed(slot: Slot, text: String, ms: u32) -> (f: Flashed)
    ensures
        f@ == (FlashedView { slot, text: text@, ok: false, ms }),
{
    Flashed { slot, flash: Flash { text, ok: false }, ms }
}

/// `head`, a name, `: ` and a reason.
fn complaint(head: &str, name: &str, tail: &str, why: &str) -> (t: String)
    ensures
        t@ == head@ + name@ + tail@ + why@,
{
    let mut t = head.to_owned();
    t.append(name);
    t.append(tail);
    t.append(why);
    t
}

// ---------------------------------------------------------------------
// Panes
// ---------------------------------------------------------------------

/// What the library's pane shows under its search box.
#[derive(Debug, Clone, Copy, PartialEq, Eq, Structural)]
pub enum LibraryPane {
    /// The browser offers no origin-private storage.
    Unavailable,
    Scanning,
    /// Nothing to list: there is no game at all, or none matches the search.
    Empty { any: bool },
    List,
}

/// What the library's pane shows, by whether storage is known to be missing,
/// whether the library was scanned, how many games it has and how many of them
/// the search lists.
pub fn library_pane(storage_down: bool, scanned: bool, games: usize, listed: usize) -> (p:
    LibraryPane)
    ensures
        p == (if storage_down {
            LibraryPane::Unavailable
        } else if !scanned {
            LibraryPane::Scanning
        } else if listed == 0 {
            LibraryPane::Empty { any: games != 0 }
        } else {
            LibraryPane::List
        }),
{
    if storage_down {
        LibraryPane::Unavailable
    } else if !scanned {
        LibraryPane::Scanning
    } else if listed == 0 {
        LibraryPane::Empty { any: games != 0 }
    } else {
        LibraryPane::List
    }
}

/// A listing of a game's saves.
#[derive(Debug)]
pub struct Listing {
    /// The game it speaks for.
    pub for_game: Option<u32>,
    /// Whether no write-back was in flight when it was taken: one taken
    /// mid-write may predate the file the write is creating.
    pub authoritative: bool,
    pub saves: Vec<String>,
}

/// The listing of the selected game's saves, by the names its directory holds
/// and how many write-backs are in flight. Without storage there is an empty
/// answer that speaks for no game.
pub fn listing(game: Option<u32>, in_flight: u32, names: Option<Vec<String>>) -> (l: Listing)
    ensures
        match (names, game) {
            (Some(n), Some(_)) => l == (Listing {
                for_game: game,
                authoritative: in_flight == 0,
                saves: n,
            }),
            _ => l.for_game is None && !l.authoritative && l.saves@.len() == 0,
        },
{
    match (names, game) {
        (Some(saves), Some(_)) => Listing { for_game: game, authoritative: in_flight == 0, saves },
        _ => Listing { for_game: None, authoritative: false, saves: Vec::new() },
    }
}

// ---------------------------------------------------------------------
// The screen
// ---------------------------------------------------------------------

/// What the Play tab holds on to.
#[derive(Debug)]
pub struct Screen {
    pub picks: Picks,
    pub editor: SaveEditor,
    /// The file name of the ROM whose delete is armed.
    pub pending_delete: Option<String>,
    /// Goes up whenever the library is to be scanned again.
    pub library_rev: u64,
    /// Goes up whenever the saves are to be listed again.
    pub saves_rev: u64,
}

/// What a [`Screen`] says.
#[verifier::ext_equal]
pub struct ScreenView {
    pub picks: PicksView,
    pub rename_target: Option<Seq<char>>,
    pub rename_value: Seq<char>,
    pub pending_save_delete: Option<Seq<char>>,
    pub pending_delete: Option<Seq<char>>,
    pub library_rev: u64,
    pub saves_rev: u64,
}

impl View for Screen {
    type V = ScreenView;

    open spec fn view(&self) -> ScreenView {
        ScreenView {
            picks: self.picks@,
            rename_target: maybe(self.editor.rename_target),
            rename_value: self.editor.rename_value@,
            pending_save_delete: maybe(self.editor.pending_delete),
            pending_delete: maybe(self.pending_delete),
            library_rev: self.library_rev,
            saves_rev: self.saves_rev,
        }
    }
}

/// The next number; the last is followed by the first.
pub open spec fn bumped(rev: u64) -> u64 {
    ((rev + 1) % 0x1_0000_0000_0000_0000) as u64
}

fn bump(rev: u64) -> (r: u64)
    ensures
        r == bumped(rev),
{
    rev.wrapping_add(1)
}

/// A rename was tried. Where it went well the picks follow; either way the
/// editor closes and the saves are listed again.
pub open spec fn rename_done(
    s: ScreenView,
    crc32: u32,
    save: Seq<char>,
    to: Seq<char>,
    why: Option<Seq<char>>,
) -> (ScreenView, Option<FlashedView>) {
    (
        ScreenView {
            picks: if why is None {
                save_renamed(s.picks, crc32, save, to)
            } else {
                s.picks
            },
            rename_target: None,
            saves_rev: bumped(s.saves_rev),
            ..s
        },
        match why {
            Some(e) => Some(failed(Slot::SaveList, "couldn't rename "@ + save + ": "@ + e)),
            None => None,
        },
    )
}

/// A ROM's delete was tried, and its saves' where that went well: without their
/// game they are unreachable dead weight. Where the ROM is gone the picks forget
/// it; either way the delete is no longer armed and the library is scanned
/// again.
pub open spec fn rom_delete_done(
    s: ScreenView,
    crc32: u32,
    file_name: Seq<char>,
    why: Option<Seq<char>>,
    saves_why: Option<Seq<char>>,
) -> (ScreenView, Option<FlashedView>) {
    (
        ScreenView {
            picks: if why is None {
                game_deleted(s.picks, crc32)
            } else {
                s.picks
            },
            pending_delete: None,
            library_rev: bumped(s.library_rev),
            ..s
        },
        match (why, saves_why) {
            (Some(e), _) => Some(
                failed(Slot::Library, "couldn't delete "@ + file_name + ": "@ + e),
            ),
            (None, Some(e)) => Some(
                failed(Slot::Library, "deleted "@ + file_name + ", but not its saves: "@ + e),
            ),
            (None, None) => None,
        },
    )
}

/// A save's delete was tried. Where it is gone the picks forget it; either way
/// the delete is no longer armed and the saves are listed again.
pub open spec fn save_delete_done(
    s: ScreenView,
    crc32: u32,
    save: Seq<char>,
    why: Option<Seq<char>>,
) -> (ScreenView, Option<FlashedView>) {
    (
        ScreenView {
            picks: if why is None {
                save_deleted(s.picks, crc32, save)
            } else {
                s.picks
            },
            pending_save_delete: None,
            saves_rev: bumped(s.saves_rev),
            ..s
        },
        match why {
            Some(e) => Some(failed(Slot::SaveList, "couldn't delete "@ + save + ": "@ + e)),
            None => None,
        },
    )
}

impl Screen {
    /// The rename the editor asks for: in which game's directory, and to what.
    /// A blank stem asks for nothing, nor does an editor without a game.
    pub fn commit_rename(&self, save: &str) -> (r: Option<(u32, String)>)
        ensures
            match (self@.picks.selected_game, new_save_name(self@.rename_value, save@)) {
                (Some(crc32), Some(to)) => r matches Some((c, t)) && c == crc32 && t@ == to,
                _ => r is None,
            },
    {
        match (self.picks.selected_game, rename_to(self.editor.rename_value.as_str(), save)) {
            (Some(crc32), Some(to)) => Some((crc32, to)),
            _ => None,
        }
    }

    /// The rename was tried.
    pub fn rename_done(&mut self, crc32: u32, save: &str, to: &str, r: Result<(), String>) -> (f:
        Option<Flashed>)
        ensures
            (final(self)@, maybe_flashed(f)) == rename_done(
                old(self)@,
                crc32,
                save@,
                to@,
                failure(r),
            ),
    {
        self.editor.rename_target = None;
        self.saves_rev = bump(self.saves_rev);
        match r {
            Ok(_) => {
                self.picks.renamed(crc32, save, to);
                None
            },
            Err(e) => {
                let t = complaint("couldn't rename ", save, ": ", e.as_str());
                Some(flashed(Slot::SaveList, t, 5000))
            },
        }
    }

    /// A ROM's delete was tried, and its saves' where that went well.
    pub fn rom_delete_done(
        &mut self,
        crc32: u32,
        file_name: &str,
        rom: Result<(), String>,
        saves: Result<(), String>,
    ) -> (f: Option<Flashed>)
        ensures
            (final(self)@, maybe_flashed(f)) == rom_delete_done(
                old(self)@,
                crc32,
                file_name@,
                failure(rom),
                failure(saves),
            ),
    {
        self.pending_delete = None;
        self.library_rev = bump(self.library_rev);
        match rom {
            Err(e) => {
                let t = complaint("couldn't delete ", file_name, ": ", e.as_str());
                Some(flashed(Slot::Library, t, 5000))
            },
            Ok(_) => {
                self.picks.deleted_game(crc32);
                match saves {
                    Err(e) => {
                        let t = complaint(
                            "deleted ",
                            file_name,
                            ", but not its saves: ",
                            e.as_str(),
                        );
                        Some(flashed(Slot::Library, t, 5000))
                    },
                    Ok(_) => None,
                }
            },
        }
    }

    /// A save's delete was tried.
    pub fn save_delete_done(&mut self, crc32: u32, save: &str, r: Result<(), String>) -> (f: Option<
        Flashed,
    >)
        ensures
            (final(self)@, maybe_flashed(f)) == save_delete_done(
                old(self)@,
                crc32,
                save@,
                failure(r),
            ),
    {
        self.editor.pending_delete = None;
        self.saves_rev = bump(self.saves_rev);
        match r {
            Ok(_) => {
                self.picks.deleted_save(crc32, save);
                None
            },
            Err(e) => {
                let t = complaint("couldn't delete ", save, ": ", e.as_str());
                Some(flashed(Slot::SaveList, t, 5000))
            },
        }
    }
}

/// What exporting a save comes to, by what reading it gave: the bytes to hand
/// out, or a message.
pub fn export(save: &str, bytes: Option<Vec<u8>>) -> (r: Result<Vec<u8>, Flashed>)
    ensures
        match bytes {
            Some(b) => r == Ok::<Vec<u8>, Flashed>(b),
            None => r matches Err(f) && f@ == failed(Slot::SaveList, "couldn't read "@ + save@),
        },
{
    match bytes {
        Some(b) => Ok(b),
        None => {
            let mut t = "couldn't read ".to_owned();
            t.append(save);
            Err(flashed(Slot::SaveList, t, 5000))
        },
    }
}

// ---------------------------------------------------------------------
// Launching
// ---------------------------------------------------------------------

/// A session to be booted: the ROM, the save it starts from, and the file its
/// SRAM writes back into.
#[derive(Debug)]
pub struct Launch {
    pub rom: Vec<u8>,
    pub save: Option<Vec<u8>>,
    pub save_file: String,
}

/// What a [`Launch`] says.
#[verifier::ext_equal]
pub struct LaunchView {
    pub rom: Seq<u8>,
    pub save: Option<Seq<u8>>,
    pub save_file: Seq<char>,
}

impl View for Launch {
    type V = LaunchView;

    open spec fn view(&self) -> LaunchView {
        LaunchView { rom: self.rom@, save: blob_view(self.save), save_file: self.save_file@ }
    }
}

/// What the Play button comes to, by what the ROM's file and the picked save's
/// gave. A fresh pick starts from no save, and one that cannot be read too.
pub open spec fn launched(
    info: RomInfoView,
    pick: Option<Seq<char>>,
    rom: Result<Option<Seq<u8>>, Seq<char>>,
    save: Option<Seq<u8>>,
) -> Result<LaunchView, FlashedView> {
    match rom_read(info, rom) {
        Err(e) => Err(FlashedView { slot: Slot::Launch, text: e, ok: false, ms: 6000 }),
        Ok(bytes) => Ok(
            LaunchView {
                rom: bytes,
                save: if pick is Some {
                    save
                } else {
                    None
                },
                save_file: launch_save(pick, info),
            },
        ),
    }
}

/// What the Play button comes to.
pub fn launch(
    info: &RomInfo,
    pick: &Option<String>,
    rom: Result<Option<Vec<u8>>, String>,
    save: Option<Vec<u8>>,
) -> (r: Result<Launch, Flashed>)
    ensures
        match r {
            Ok(l) => launched(info@, maybe(*pick), found_view(rom), blob_view(save)) == Ok::<
                _,
                FlashedView,
            >(l@),
            Err(f) => launched(info@, maybe(*pick), found_view(rom), blob_view(save)) == Err::<
                LaunchView,
                _,
            >(f@),
        },
{
    match crate::library::read_rom(info, rom) {
        Err(e) => Err(flashed(Slot::Launch, e, 6000)),
        Ok(bytes) => {
            let save = match pick {
                Some(_) => save,
                None => None,
            };
            Ok(Launch { rom: bytes, save, save_file: save_file_for(pick, info) })
        },
    }
}

/// What is said of a session that could not be booted.
pub fn boot_failed(why: &str) -> (f: Flashed)
    ensures
        f@ == (FlashedView {
            slot: Slot::Launch,
            text: "couldn't start session: "@ + why@,
            ok: false,
            ms: 6000,
        }),
{
    let mut t = "couldn't start session: ".to_owned();
    t.append(why);
    flashed(Slot::Launch, t, 6000)
}

// ---------------------------------------------------------------------
// Laws
// ---------------------------------------------------------------------

/// What storage refused is left as it was: the picks change only with the
/// files, and every refusal is said.
pub proof fn law_refusals_leave_the_picks(
    s: ScreenView,
    crc32: u32,
    name: Seq<char>,
    to: Seq<char>,
    why: Seq<char>,
    saves_why: Option<Seq<char>>,
)
    ensures
        rename_done(s, crc32, name, to, Some(why)).0.picks == s.picks,
        rename_done(s, crc32, name, to, Some(why)).1 is Some,
        rom_delete_done(s, crc32, name, Some(why), saves_why).0.picks == s.picks,
        rom_delete_done(s, crc32, name, Some(why), saves_why).1 is Some,
        save_delete_done(s, crc32, name, Some(why)).0.picks == s.picks,
        save_delete_done(s, crc32, name, Some(why)).1 is Some,
{
}

/// A listing that speaks for no game, or for another one, prunes nothing.
pub proof fn law_stale_listings_prune_nothing(
    p: PicksView,
    for_game: Option<u32>,
    authoritative: bool,
    saves: Seq<Seq<char>>,
)
    requires
        for_game != p.selected_game || !authoritative,
    ensures
        crate::ui::play::pruned(p, for_game, authoritative, saves) == p,
{
}

} // verus!
