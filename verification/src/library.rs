//! The ROM library, keyed by CRC32: which is how sessions and replays name the
//! ROM each side runs. No-Intro DATs (see [`crate::nointro`]) supply the
//! display names, matched by CRC32; ROMs missing from every DAT fall back to
//! their header title.
use vstd::prelude::*;
use crate::nointro::DatIndex;
use crate::text::{
    chars_of, decimal, hex_digits, lower_chars, lowered, push_decimal, push_hex, same_chars,
    text_from, text_le, texts_in_order,
};

pub mod laws;

verus! {

pub const ROM_EXTENSIONS: [&'static str; 3] = ["gba", "srl", "agb"];

pub const SAVE_EXTENSIONS: [&'static str; 3] = ["sav", "sa1", "srm"];

/// The largest real cartridge (32 MiB).
pub const MAX_ROM_SIZE: usize = 33_554_432;

/// The part of a name behind its last dot; `None` where it has none.
pub open spec fn extension_of(name: Seq<char>) -> Option<Seq<char>>
    decreases name.len(),
{
    if name.len() == 0 {
        None
    } else if name.last() == '.' {
        Some(Seq::<char>::empty())
    } else {
        match extension_of(name.drop_last()) {
            None => None,
            Some(e) => Some(e.push(name.last())),
        }
    }
}

/// Whether a name ends in one of some extensions, in any case.
pub open spec fn has_one_of(name: Seq<char>, extensions: Seq<&str>) -> bool {
    extension_of(name) matches Some(e) && exists|i: int|
        0 <= i < extensions.len() && (#[trigger] extensions[i])@ == lowered(e)
}

/// The position behind the last dot of a name.
fn extension_start(name: &[char]) -> (at: Option<usize>)
    ensures
        match at {
            Some(at) => at <= name@.len() && extension_of(name@) == Some(name@.skip(at as int)),
            None => extension_of(name@) is None,
        },
{
    let mut i: usize = name.len();
    let ghost n = name@.len() as int;
    proof {
        assert(name@.take(n) =~= name@);
        assert(name@.skip(n) =~= Seq::<char>::empty());
    }
    while i > 0
        invariant
            i <= name@.len(),
            n == name@.len(),
            (match extension_of(name@.take(i as int)) {
                None => None,
                Some(e) => Some(e + name@.skip(i as int)),
            }) == extension_of(name@),
        decreases i,
    {
        let ghost upto = name@.take(i as int);
        proof {
            assert(upto.drop_last() =~= name@.take(i - 1));
        }
        if name[i - 1] == '.' {
            proof {
                assert(Seq::<char>::empty() + name@.skip(i as int) =~= name@.skip(i as int));
            }
            return Some(i);
        }
        proof {
            if extension_of(name@.take(i - 1)) is Some {
                let e = extension_of(name@.take(i - 1))->Some_0;
                assert(e.push(name@[i - 1]) + name@.skip(i as int) =~= e + name@.skip(i - 1));
            }
        }
        i = i - 1;
    }
    None
}

/// A name without its extension and the dot before it.
pub open spec fn stem(name: Seq<char>) -> Seq<char> {
    match extension_of(name) {
        Some(e) => name.take(name.len() - e.len() - 1),
        None => name,
    }
}

/// The extension of a name, without its dot; empty where it has none.
pub fn ext_of(name: &str) -> (e: String)
    ensures
        e@ == (match extension_of(name@) {
            Some(e) => e,
            None => Seq::empty(),
        }),
{
    let chars = chars_of(name);
    match extension_start(chars.as_slice()) {
        Some(at) => {
            let part = vstd::slice::slice_subrange(chars.as_slice(), at, chars.len());
            assert(part@ =~= name@.skip(at as int));
            text_from(part)
        },
        None => {
            let e = "".to_owned();
            proof {
                reveal_strlit("");
            }
            assert(e@ =~= Seq::empty());
            e
        },
    }
}

/// A name without its extension and the dot before it.
pub fn stem_of(name: &str) -> (t: String)
    ensures
        t@ == stem(name@),
{
    let chars = chars_of(name);
    match extension_start(chars.as_slice()) {
        Some(at) => {
            proof {
                lemma_extension_is_shorter(name@);
                assert(name@.skip(at as int).len() == name@.len() - at);
            }
            let part = vstd::slice::slice_subrange(chars.as_slice(), 0, at - 1);
            assert(part@ =~= stem(name@));
            text_from(part)
        },
        None => name.to_owned(),
    }
}

pub proof fn lemma_extension_is_shorter(name: Seq<char>)
    ensures
        extension_of(name) matches Some(e) ==> e.len() < name.len(),
    decreases name.len(),
{
    if name.len() > 0 {
        lemma_extension_is_shorter(name.drop_last());
    }
}

pub fn has_extension(name: &str, extensions: &[&str]) -> (b: bool)
    ensures
        b == has_one_of(name@, extensions@),
{
    let chars = chars_of(name);
    match extension_start(chars.as_slice()) {
        None => false,
        Some(at) => {
            let ext = lower_chars(vstd::slice::slice_subrange(chars.as_slice(), at, chars.len()));
            proof {
                assert(chars@.subrange(at as int, chars@.len() as int) =~= chars@.skip(at as int));
            }
            let ghost e = chars@.skip(at as int);
            let mut i: usize = 0;
            while i < extensions.len()
                invariant
                    i <= extensions@.len(),
                    extension_of(name@) == Some(e),
                    ext@ == lowered(e),
                    forall|k: int| 0 <= k < i ==> (#[trigger] extensions@[k])@ != ext@,
                decreases extensions@.len() - i,
            {
                let e = chars_of(extensions[i]);
                if same_chars(e.as_slice(), ext.as_slice()) {
                    assert(extensions@[i as int]@ == ext@);
                    return true;
                }
                i = i + 1;
            }
            false
        },
    }
}

#[derive(Debug, PartialEq, Eq)]
pub struct RomInfo {
    /// File name inside the ROM directory.
    pub file_name: String,
    /// The ROM header's internal title (0xA0..0xAC, ASCII, NUL-padded).
    pub title: String,
    /// The ROM header's game code (0xAC..0xB0).
    pub code: String,
    pub crc32: u32,
    pub size: u64,
    /// The No-Intro name for this ROM, when a loaded DAT knows its CRC.
    pub dat_name: Option<String>,
}

/// What a [`RomInfo`] says.
#[verifier::ext_equal]
pub struct RomInfoView {
    pub file_name: Seq<char>,
    pub title: Seq<char>,
    pub code: Seq<char>,
    pub crc32: u32,
    pub size: u64,
    pub dat_name: Option<Seq<char>>,
}

impl View for RomInfo {
    type V = RomInfoView;

    open spec fn view(&self) -> RomInfoView {
        RomInfoView {
            file_name: self.file_name@,
            title: self.title@,
            code: self.code@,
            crc32: self.crc32,
            size: self.size,
            dat_name: match self.dat_name {
                Some(n) => Some(n@),
                None => None,
            },
        }
    }
}

impl Clone for RomInfo {
    fn clone(&self) -> (c: RomInfo)
        ensures
            c@ == self@,
    {
        RomInfo {
            file_name: self.file_name.clone(),
            title: self.title.clone(),
            code: self.code.clone(),
            crc32: self.crc32,
            size: self.size,
            dat_name: match &self.dat_name {
                Some(n) => Some(n.clone()),
                None => None,
            },
        }
    }
}

/// The name to show for a ROM: the No-Intro name when known, else the header
/// title.
pub open spec fn shown_name(r: RomInfoView) -> Seq<char> {
    match r.dat_name {
        Some(n) => n,
        None => r.title,
    }
}

impl RomInfo {
    /// The name to show for this ROM: the No-Intro name when known, else the
    /// header title.
    pub fn display_name(&self) -> (name: &str)
        ensures
            name@ == shown_name(self@),
    {
        match &self.dat_name {
            Some(n) => n.as_str(),
            None => self.title.as_str(),
        }
    }
}

// ---------------------------------------------------------------------
// Cartridge headers
// ---------------------------------------------------------------------

/// The CRC32 of a byte string.
pub uninterp spec fn crc32_of(bytes: Seq<u8>) -> u32;

/// `crc32fast::hash`: the CRC32 of a byte string.
#[verifier::external_body]
pub(crate) fn crc32(bytes: &[u8]) -> (c: u32)
    ensures
        c == crc32_of(bytes@),
{
    crc32fast::hash(bytes)
}

/// One header byte as text: printable ASCII as it is, anything else as a
/// question mark.
pub open spec fn header_char(b: u8) -> char {
    if 0x20 <= b <= 0x7e {
        b as char
    } else {
        '?'
    }
}

/// A header field as text, up to its first zero.
pub open spec fn header_text(s: Seq<u8>) -> Seq<char> {
    crate::replay::before_nul(s).map_values(|b: u8| header_char(b))
}

fn header_str(bytes: &[u8]) -> (t: String)
    ensures
        t@ == header_text(bytes@),
{
    let ghost show = |b: u8| header_char(b);
    let mut chars: Vec<char> = Vec::new();
    let mut i: usize = 0;
    proof {
        assert(bytes@.skip(0) =~= bytes@);
        assert(chars@ + header_text(bytes@) =~= header_text(bytes@));
    }
    while i < bytes.len() && bytes[i] != 0
        invariant
            i <= bytes@.len(),
            chars@ + header_text(bytes@.skip(i as int)) == header_text(bytes@),
        decreases bytes@.len() - i,
    {
        let b: u8 = bytes[i];
        let c: char = if 0x20 <= b && b <= 0x7e {
            b as char
        } else {
            '?'
        };
        let ghost before = chars@;
        chars.push(c);
        proof {
            let here = bytes@.skip(i as int);
            assert(here.skip(1) =~= bytes@.skip(i + 1));
            assert(header_text(here) =~= seq![c] + header_text(bytes@.skip(i + 1)));
            assert(chars@ + header_text(bytes@.skip(i + 1)) =~= before + header_text(here));
        }
        i = i + 1;
    }
    proof {
        assert(header_text(bytes@.skip(i as int)) =~= Seq::<char>::empty());
        assert(chars@ =~= header_text(bytes@));
    }
    text_from(chars.as_slice())
}

/// Why a file is no ROM.
#[derive(Debug, Clone, Copy, PartialEq, Eq, Structural)]
pub enum RomError {
    TooSmall,
    /// Larger than any cartridge, in MiB.
    TooLarge(usize),
    NoFixedByte,
    BadChecksum,
}

/// What is said of a file that is no ROM.
pub open spec fn rom_error_text(e: RomError) -> Seq<char> {
    match e {
        RomError::TooSmall => "too small to be a GBA ROM"@,
        RomError::TooLarge(mib) => decimal(mib as nat)
            + " MiB is larger than any GBA cartridge"@,
        RomError::NoFixedByte => "not a GBA ROM (missing the header's fixed byte)"@,
        RomError::BadChecksum => "not a GBA ROM (bad header checksum)"@,
    }
}

impl RomError {
    pub fn message(&self) -> (t: String)
        ensures
            t@ == rom_error_text(*self),
    {
        match self {
            RomError::TooSmall => "too small to be a GBA ROM".to_owned(),
            RomError::TooLarge(mib) => {
                let mut t = String::new();
                push_decimal(&mut t, *mib as u64);
                t.append(" MiB is larger than any GBA cartridge");
                assert(t@ =~= rom_error_text(*self));
                t
            },
            RomError::NoFixedByte => "not a GBA ROM (missing the header's fixed byte)".to_owned(),
            RomError::BadChecksum => "not a GBA ROM (bad header checksum)".to_owned(),
        }
    }
}

/// The sum of some bytes.
pub open spec fn byte_sum(s: Seq<u8>) -> nat
    decreases s.len(),
{
    if s.len() == 0 {
        0
    } else {
        byte_sum(s.drop_last()) + s.last() as nat
    }
}

/// Whether the header's checksum byte fits: the bytes 0xA0 to 0xBC, the
/// checksum and 0x19 add up to a multiple of 256.
pub open spec fn checksum_fits(d: Seq<u8>) -> bool {
    (byte_sum(d.subrange(0xa0, 0xbd)) + 0x19 + d[0xbd]) % 256 == 0
}

/// What the header of a file says, or the first thing wrong with it.
pub open spec fn read_rom_header(file_name: Seq<char>, d: Seq<u8>) -> Result<
    RomInfoView,
    RomError,
> {
    if d.len() < 0xc0 {
        Err(RomError::TooSmall)
    } else if d.len() > MAX_ROM_SIZE {
        Err(RomError::TooLarge((d.len() / 1_048_576) as usize))
    } else if d[0xb2] != 0x96 {
        Err(RomError::NoFixedByte)
    } else if !checksum_fits(d) {
        Err(RomError::BadChecksum)
    } else {
        Ok(
            RomInfoView {
                file_name,
                title: header_text(d.subrange(0xa0, 0xac)),
                code: header_text(d.subrange(0xac, 0xb0)),
                crc32: crc32_of(d),
                size: d.len() as u64,
                dat_name: None,
            },
        )
    }
}

/// Parse the header of an imported ROM. Also the import-time validator: the
/// cartridge header self-identifies with a fixed byte and a checksum over
/// 0xA0..=0xBC; the BIOS refuses carts without them, and so do we. This is
/// what keeps a mis-picked zip out of the library.
pub fn rom_info(file_name: &str, bytes: &[u8]) -> (r: Result<RomInfo, RomError>)
    ensures
        match r {
            Ok(info) => read_rom_header(file_name@, bytes@) == Ok::<_, RomError>(info@),
            Err(e) => read_rom_header(file_name@, bytes@) == Err::<RomInfoView, RomError>(e),
        },
{
    if bytes.len() < 0xc0 {
        return Err(RomError::TooSmall);
    }
    if bytes.len() > MAX_ROM_SIZE {
        return Err(RomError::TooLarge(bytes.len() / 1_048_576));
    }
    if bytes[0xb2] != 0x96 {
        return Err(RomError::NoFixedByte);
    }
    let ghost summed = bytes@.subrange(0xa0, 0xbd);
    let mut acc: u8 = 0;
    let mut i: usize = 0xa0;
    proof {
        assert(summed.take(0) =~= Seq::<u8>::empty());
    }
    while i < 0xbd
        invariant
            0xa0 <= i <= 0xbd,
            bytes@.len() >= 0xc0,
            summed == bytes@.subrange(0xa0, 0xbd),
            (acc + byte_sum(summed.take(i - 0xa0))) % 256 == 0,
        decreases 0xbd - i,
    {
        proof {
            let upto = summed.take(i + 1 - 0xa0);
            assert(upto.drop_last() =~= summed.take(i - 0xa0));
            assert(upto.last() == bytes@[i as int]);
        }
        acc = acc.wrapping_sub(bytes[i]);
        i = i + 1;
    }
    proof {
        assert(summed.take(i - 0xa0) =~= summed);
    }
    let checksum: u8 = acc.wrapping_sub(0x19);
    if checksum != bytes[0xbd] {
        return Err(RomError::BadChecksum);
    }
    Ok(
        RomInfo {
            file_name: file_name.to_owned(),
            title: header_str(vstd::slice::slice_subrange(bytes, 0xa0, 0xac)),
            code: header_str(vstd::slice::slice_subrange(bytes, 0xac, 0xb0)),
            crc32: crc32(bytes),
            size: bytes.len() as u64,
            dat_name: None,
        },
    )
}

// ---------------------------------------------------------------------
// Names
// ---------------------------------------------------------------------

/// An ASCII letter or digit.
pub open spec fn is_alphanumeric(c: char) -> bool {
    'a' <= c <= 'z' || 'A' <= c <= 'Z' || '0' <= c <= '9'
}

/// The letters and digits of a text.
pub open spec fn alphanumerics(s: Seq<char>) -> Seq<char>
    decreases s.len(),
{
    if s.len() == 0 {
        s
    } else if is_alphanumeric(s.last()) {
        alphanumerics(s.drop_last()).push(s.last())
    } else {
        alphanumerics(s.drop_last())
    }
}

/// The name an imported ROM is stored under: `CODE (crc32).gba`.
pub open spec fn stored_name(r: RomInfoView) -> Seq<char> {
    let code = alphanumerics(r.code);
    (if code.len() == 0 {
        "ROM"@
    } else {
        code
    }) + " ("@ + hex_digits(r.crc32 as nat, 8) + ").gba"@
}

/// The name an imported ROM is stored under: `CODE (crc32).gba`, derived from
/// the cartridge rather than whatever the picked file was called. Same
/// cartridge, same name, so re-imports overwrite.
pub fn normalized_file_name(info: &RomInfo) -> (name: String)
    ensures
        name@ == stored_name(info@),
{
    let chars = chars_of(info.code.as_str());
    let mut name = String::new();
    let mut i: usize = 0;
    while i < chars.len()
        invariant
            i <= chars@.len(),
            name@ == alphanumerics(chars@.take(i as int)),
        decreases chars@.len() - i,
    {
        let c: char = chars[i];
        proof {
            assert(chars@.take(i + 1).drop_last() =~= chars@.take(i as int));
        }
        if ('a' <= c && c <= 'z') || ('A' <= c && c <= 'Z') || ('0' <= c && c <= '9') {
            name.push(c);
        }
        i = i + 1;
    }
    proof {
        assert(chars@.take(i as int) =~= chars@);
    }
    if name.as_str().is_empty() {
        name.append("ROM");
    }
    let ghost code = name@;
    name.append(" (");
    push_hex(&mut name, info.crc32, 8);
    name.append(").gba");
    assert(name@ =~= stored_name(info@));
    name
}

/// Two imports of one cartridge are stored under one name, whatever their
/// files were called.
pub proof fn law_one_cartridge_one_name(a: Seq<char>, b: Seq<char>, d: Seq<u8>)
    requires
        read_rom_header(a, d) is Ok,
    ensures
        read_rom_header(b, d) is Ok,
        stored_name(read_rom_header(a, d)->Ok_0) == stored_name(read_rom_header(b, d)->Ok_0),
{
}

// ---------------------------------------------------------------------
// The library
// ---------------------------------------------------------------------

/// Whether one ROM is listed before another or level with it: by shown name
/// without regard to case, then by file name.
pub open spec fn listed_before(a: RomInfoView, b: RomInfoView) -> bool {
    let x = lowered(shown_name(a));
    let y = lowered(shown_name(b));
    if x == y {
        text_le(a.file_name, b.file_name)
    } else {
        text_le(x, y)
    }
}

/// A list with one more ROM, behind everything listed before it or level with
/// it.
pub open spec fn listed(roms: Seq<RomInfoView>, r: RomInfoView) -> Seq<RomInfoView>
    decreases roms.len(),
{
    if roms.len() == 0 || listed_before(roms.last(), r) {
        roms.push(r)
    } else {
        listed(roms.drop_last(), r).push(roms.last())
    }
}

/// A list in order; ROMs that are level keep the order they came in.
pub open spec fn in_order(roms: Seq<RomInfoView>) -> Seq<RomInfoView>
    decreases roms.len(),
{
    if roms.len() == 0 {
        roms
    } else {
        listed(in_order(roms.drop_last()), roms.last())
    }
}

/// What a list of ROMs says.
pub open spec fn roms_view(roms: Seq<RomInfo>) -> Seq<RomInfoView> {
    roms.map_values(|r: RomInfo| r@)
}

fn comes_before(a: &RomInfo, b: &RomInfo) -> (le: bool)
    ensures
        le == listed_before(a@, b@),
{
    let an = chars_of(a.display_name());
    let bn = chars_of(b.display_name());
    let x = lower_chars(an.as_slice());
    let y = lower_chars(bn.as_slice());
    if same_chars(x.as_slice(), y.as_slice()) {
        let af = chars_of(a.file_name.as_str());
        let bf = chars_of(b.file_name.as_str());
        texts_in_order(af.as_slice(), bf.as_slice())
    } else {
        texts_in_order(x.as_slice(), y.as_slice())
    }
}

fn insert_listed(roms: &mut Vec<RomInfo>, r: RomInfo)
    ensures
        roms_view(final(roms)@) == listed(roms_view(old(roms)@), r@),
{
    let ghost all = roms_view(roms@);
    let mut i: usize = roms.len();
    let ghost rv = r@;
    proof {
        assert(all.take(i as int) =~= all);
        assert(listed(all, rv) + all.skip(i as int) =~= listed(all, rv));
    }
    while i > 0 && !comes_before(&roms[i - 1], &r)
        invariant
            i <= roms@.len(),
            roms@ == old(roms)@,
            all == roms_view(roms@),
            rv == r@,
            listed(all.take(i as int), rv) + all.skip(i as int) == listed(all, rv),
        decreases i,
    {
        proof {
            let upto = all.take(i as int);
            assert(upto.drop_last() =~= all.take(i - 1));
            assert(upto.last() == roms@[i - 1]@);
            assert(listed(all.take(i - 1), rv).push(all[i - 1]) + all.skip(i as int) =~= listed(
                all.take(i - 1),
                rv,
            ) + all.skip(i - 1));
        }
        i = i - 1;
    }
    proof {
        let upto = all.take(i as int);
        if i > 0 {
            assert(upto.last() == roms@[i - 1]@);
        }
        assert(listed(upto, rv) == upto.push(rv));
    }
    let ghost before = roms@;
    roms.insert(i, r);
    proof {
        assert(roms_view(roms@) =~= all.take(i as int).push(rv) + all.skip(i as int));
    }
}

#[derive(Debug)]
pub struct Library {
    pub roms: Vec<RomInfo>,
}

impl Default for Library {
    fn default() -> (l: Library)
        ensures
            l.roms@.len() == 0,
    {
        Library { roms: Vec::new() }
    }
}

impl Clone for Library {
    fn clone(&self) -> (c: Library)
        ensures
            roms_view(c.roms@) == roms_view(self.roms@),
    {
        let mut roms: Vec<RomInfo> = Vec::new();
        let mut i: usize = 0;
        while i < self.roms.len()
            invariant
                i <= self.roms@.len(),
                roms_view(roms@) == roms_view(self.roms@.take(i as int)),
            decreases self.roms@.len() - i,
        {
            let r = self.roms[i].clone();
            let ghost before = roms@;
            roms.push(r);
            i = i + 1;
            proof {
                assert(roms_view(roms@) =~= roms_view(before).push(r@));
                assert(roms_view(self.roms@.take(i as int)) =~= roms_view(
                    self.roms@.take(i - 1),
                ).push(self.roms@[i - 1]@));
            }
        }
        assert(self.roms@.take(i as int) =~= self.roms@);
        Library { roms }
    }
}

/// The ROMs among some files, in the order the files came: those with a ROM's
/// extension and a proper header, each with the name its checksum has.
pub open spec fn roms_among(
    files: Seq<(Seq<char>, Seq<u8>)>,
    names: Map<u32, Seq<char>>,
) -> Seq<RomInfoView>
    decreases files.len(),
{
    if files.len() == 0 {
        Seq::<RomInfoView>::empty()
    } else {
        let rest = roms_among(files.drop_last(), names);
        let (name, bytes) = files.last();
        match read_rom_header(name, bytes) {
            Ok(info) if has_one_of(name, ROM_EXTENSIONS@) => rest.push(
                RomInfoView {
                    dat_name: if names.contains_key(info.crc32) {
                        Some(names[info.crc32])
                    } else {
                        None
                    },
                    ..info
                },
            ),
            _ => rest,
        }
    }
}

/// What a list of files says.
pub open spec fn files_view(files: Seq<(String, Vec<u8>)>) -> Seq<(Seq<char>, Seq<u8>)> {
    files.map_values(|f: (String, Vec<u8>)| (f.0@, f.1@))
}

/// The position of the first ROM with a checksum; the number of ROMs where
/// there is none.
pub open spec fn crc_at(roms: Seq<RomInfoView>, crc32: u32) -> nat
    decreases roms.len(),
{
    if roms.len() == 0 || roms[0].crc32 == crc32 {
        0
    } else {
        1 + crc_at(roms.skip(1), crc32)
    }
}

/// Whether a list of ROMs holds one with a checksum.
pub open spec fn holds(roms: Seq<RomInfoView>, crc32: u32) -> bool {
    exists|i: int| 0 <= i < roms.len() && (#[trigger] roms[i]).crc32 == crc32
}

pub proof fn lemma_crc_at(roms: Seq<RomInfoView>, crc32: u32)
    ensures
        crc_at(roms, crc32) <= roms.len(),
        crc_at(roms, crc32) < roms.len() ==> roms[crc_at(roms, crc32) as int].crc32 == crc32,
        crc_at(roms, crc32) < roms.len() <==> holds(roms, crc32),
    decreases roms.len(),
{
    if roms.len() > 0 && roms[0].crc32 != crc32 {
        let more = roms.skip(1);
        lemma_crc_at(more, crc32);
        if holds(more, crc32) {
            let i = choose|i: int| 0 <= i < more.len() && (#[trigger] more[i]).crc32 == crc32;
            assert(roms[i + 1].crc32 == crc32);
        }
        if holds(roms, crc32) {
            let i = choose|i: int| 0 <= i < roms.len() && (#[trigger] roms[i]).crc32 == crc32;
            assert(more[i - 1].crc32 == crc32);
        }
    }
}

impl Library {
    /// The library of some files.
    pub fn scan(files: &Vec<(String, Vec<u8>)>, dat: &DatIndex) -> (l: Library)
        ensures
            roms_view(l.roms@) == in_order(roms_among(files_view(files@), dat@)),
    {
        let ghost all = files_view(files@);
        let mut roms: Vec<RomInfo> = Vec::new();
        let mut i: usize = 0;
        proof {
            assert(roms_view(roms@) =~= Seq::<RomInfoView>::empty());
            assert(all.take(0) =~= Seq::<(Seq<char>, Seq<u8>)>::empty());
        }
        while i < files.len()
            invariant
                i <= files@.len(),
                all == files_view(files@),
                roms_view(roms@) == in_order(roms_among(all.take(i as int), dat@)),
            decreases files@.len() - i,
        {
            let name = &files[i].0;
            let bytes = &files[i].1;
            let ghost found = roms_among(all.take(i as int), dat@);
            let ghost more = roms_among(all.take(i + 1), dat@);
            proof {
                assert(all.take(i + 1).drop_last() =~= all.take(i as int));
                assert(all.take(i + 1).last() == (name@, bytes@));
            }
            if has_extension(name.as_str(), ROM_EXTENSIONS.as_slice()) {
                match rom_info(name.as_str(), bytes.as_slice()) {
                    Ok(info) => {
                        let mut info = info;
                        info.dat_name = match dat.lookup(info.crc32) {
                            Some(n) => Some(n.to_owned()),
                            None => None,
                        };
                        proof {
                            assert(more == found.push(info@));
                            assert(more.drop_last() =~= found);
                        }
                        insert_listed(&mut roms, info);
                    },
                    Err(_) => {},
                }
            }
            i = i + 1;
        }
        assert(all.take(i as int) =~= all);
        Library { roms }
    }

    /// The first ROM with a checksum.
    pub fn by_crc32(&self, crc32: u32) -> (r: Option<&RomInfo>)
        ensures
            match r {
                Some(r) => {
                    &&& crc_at(roms_view(self.roms@), crc32) < self.roms@.len()
                    &&& *r == self.roms@[crc_at(roms_view(self.roms@), crc32) as int]
                    &&& r.crc32 == crc32
                    &&& holds(roms_view(self.roms@), crc32)
                },
                None => !holds(roms_view(self.roms@), crc32),
            },
    {
        let ghost all = roms_view(self.roms@);
        let mut i: usize = 0;
        proof {
            assert(all.skip(0) =~= all);
            lemma_crc_at(all, crc32);
        }
        while i < self.roms.len() && self.roms[i].crc32 != crc32
            invariant
                i <= self.roms@.len(),
                all == roms_view(self.roms@),
                crc_at(all, crc32) == i + crc_at(all.skip(i as int), crc32),
            decreases self.roms@.len() - i,
        {
            assert(all.skip(i as int).skip(1) =~= all.skip(i + 1));
            i = i + 1;
        }
        if i < self.roms.len() {
            assert(all.skip(i as int)[0].crc32 == crc32);
            Some(&self.roms[i])
        } else {
            None
        }
    }
}

/// The order of a library: any two ROMs in it stand as they are listed.
pub open spec fn ordered(roms: Seq<RomInfoView>) -> bool {
    forall|i: int, j: int|
        0 <= i < j < roms.len() ==> listed_before(#[trigger] roms[i], #[trigger] roms[j])
}

proof fn lemma_listed_before_total(a: RomInfoView, b: RomInfoView)
    ensures
        listed_before(a, b) || listed_before(b, a),
{
    crate::text::lemma_text_le_total(lowered(shown_name(a)), lowered(shown_name(b)));
    crate::text::lemma_text_le_total(a.file_name, b.file_name);
}

proof fn lemma_listed_before_trans(a: RomInfoView, b: RomInfoView, c: RomInfoView)
    requires
        listed_before(a, b),
        listed_before(b, c),
    ensures
        listed_before(a, c),
{
    let x = lowered(shown_name(a));
    let y = lowered(shown_name(b));
    let z = lowered(shown_name(c));
    if x == y && y == z {
        crate::text::lemma_text_le_trans(a.file_name, b.file_name, c.file_name);
    } else if x != y && y != z {
        crate::text::lemma_text_le_trans(x, y, z);
        crate::text::lemma_text_le_total(x, y);
    }
}

proof fn lemma_listed(roms: Seq<RomInfoView>, r: RomInfoView)
    requires
        ordered(roms),
    ensures
        ordered(listed(roms, r)),
        listed(roms, r).to_multiset() == roms.to_multiset().insert(r),
        forall|i: int|
            0 <= i < listed(roms, r).len() ==> #[trigger] listed(roms, r)[i] == r || roms.contains(
                listed(roms, r)[i],
            ),
    decreases roms.len(),
{
    broadcast use vstd::seq_lib::group_to_multiset_ensures;

    let l = listed(roms, r);
    if roms.len() == 0 || listed_before(roms.last(), r) {
        assert forall|i: int, j: int| 0 <= i < j < l.len() implies listed_before(
            #[trigger] l[i],
            #[trigger] l[j],
        ) by {
            if j == roms.len() && i < roms.len() - 1 {
                assert(listed_before(roms[i], roms[roms.len() - 1]));
                lemma_listed_before_trans(roms[i], roms.last(), r);
            }
        }
        assert forall|i: int| 0 <= i < l.len() implies #[trigger] l[i] == r || roms.contains(
            l[i],
        ) by {
            if i < roms.len() {
                assert(roms[i] == l[i]);
            }
        }
    } else {
        let head = roms.drop_last();
        let last = roms.last();
        lemma_listed(head, r);
        lemma_listed_before_total(last, r);
        let m = listed(head, r);
        assert(roms =~= head.push(last));
        assert forall|i: int, j: int| 0 <= i < j < l.len() implies listed_before(
            #[trigger] l[i],
            #[trigger] l[j],
        ) by {
            if j < m.len() {
                assert(listed_before(m[i], m[j]));
            } else if m[i] != r {
                assert(head.contains(m[i]));
                let k = choose|k: int| 0 <= k < head.len() && head[k] == m[i];
                assert(listed_before(roms[k], roms[roms.len() - 1]));
            }
        }
        assert forall|i: int| 0 <= i < l.len() implies #[trigger] l[i] == r || roms.contains(
            l[i],
        ) by {
            if i < m.len() {
                if m[i] != r {
                    assert(head.contains(m[i]));
                    let k = choose|k: int| 0 <= k < head.len() && head[k] == m[i];
                    assert(roms[k] == l[i]);
                }
            } else {
                assert(roms[roms.len() - 1] == l[i]);
            }
        }
        assert(l.to_multiset() =~= roms.to_multiset().insert(r));
    }
}

/// Listing ROMs in order keeps exactly the ROMs there were, and puts any two
/// of them in their order.
pub proof fn law_a_library_is_its_roms_in_order(roms: Seq<RomInfoView>)
    ensures
        ordered(in_order(roms)),
        in_order(roms).to_multiset() == roms.to_multiset(),
    decreases roms.len(),
{
    broadcast use vstd::seq_lib::group_to_multiset_ensures;

    if roms.len() > 0 {
        law_a_library_is_its_roms_in_order(roms.drop_last());
        lemma_listed(in_order(roms.drop_last()), roms.last());
        assert(roms =~= roms.drop_last().push(roms.last()));
        assert(in_order(roms).to_multiset() =~= roms.to_multiset());
    }
}

/// What reading a file gave, as text and bytes: an error, no such file, or what
/// it holds.
pub open spec fn found_view(
    found: Result<Option<Vec<u8>>, String>,
) -> Result<Option<Seq<u8>>, Seq<char>> {
    match found {
        Ok(Some(bytes)) => Ok(Some(bytes@)),
        Ok(None) => Ok(None),
        Err(e) => Err(e@),
    }
}

/// The bytes a ROM is booted from, by what its file gave: those that were
/// scanned, or why there are none.
pub open spec fn rom_read(
    info: RomInfoView,
    found: Result<Option<Seq<u8>>, Seq<char>>,
) -> Result<Seq<u8>, Seq<char>> {
    match found {
        Err(e) => Err(e),
        Ok(None) => Err(info.file_name + " disappeared from the library"@),
        Ok(Some(bytes)) => if crc32_of(bytes) != info.crc32 {
            Err(info.file_name + " changed since it was scanned"@)
        } else {
            Ok(bytes)
        },
    }
}

/// A library ROM's bytes, read back for booting a link.
pub fn read_rom(info: &RomInfo, found: Result<Option<Vec<u8>>, String>) -> (r: Result<
    Vec<u8>,
    String,
>)
    ensures
        match r {
            Ok(b) => rom_read(info@, found_view(found)) == Ok::<_, Seq<char>>(b@),
            Err(e) => rom_read(info@, found_view(found)) == Err::<Seq<u8>, _>(e@),
        },
{
    match found {
        Err(e) => Err(e),
        Ok(None) => {
            let mut t = info.file_name.clone();
            t.append(" disappeared from the library");
            Err(t)
        },
        Ok(Some(bytes)) => {
            if crc32(bytes.as_slice()) != info.crc32 {
                let mut t = info.file_name.clone();
                t.append(" changed since it was scanned");
                Err(t)
            } else {
                Ok(bytes)
            }
        },
    }
}

/// The names among some file names that a save can have, in order.
pub open spec fn saves_among(names: Seq<Seq<char>>) -> Seq<Seq<char>>
    decreases names.len(),
{
    if names.len() == 0 {
        names
    } else if has_one_of(names.last(), SAVE_EXTENSIONS@) {
        saves_among(names.drop_last()).push(names.last())
    } else {
        saves_among(names.drop_last())
    }
}

/// What a list of names says.
pub open spec fn names_view(names: Seq<String>) -> Seq<Seq<char>> {
    names.map_values(|n: String| n@)
}

/// File names offered by the save picker.
pub fn list_saves(names: &Vec<String>) -> (saves: Vec<String>)
    ensures
        names_view(saves@) == saves_among(names_view(names@)),
{
    let ghost all = names_view(names@);
    let mut saves: Vec<String> = Vec::new();
    let mut i: usize = 0;
    proof {
        assert(names_view(saves@) =~= saves_among(all.take(0)));
    }
    while i < names.len()
        invariant
            i <= names@.len(),
            all == names_view(names@),
            names_view(saves@) == saves_among(all.take(i as int)),
        decreases names@.len() - i,
    {
        proof {
            assert(all.take(i + 1).drop_last() =~= all.take(i as int));
            assert(all.take(i + 1).last() == names@[i as int]@);
        }
        if has_extension(names[i].as_str(), SAVE_EXTENSIONS.as_slice()) {
            let ghost before = saves@;
            saves.push(names[i].clone());
            assert(names_view(saves@) =~= names_view(before).push(names@[i as int]@));
        }
        i = i + 1;
    }
    assert(all.take(i as int) =~= all);
    saves
}

} // verus!
