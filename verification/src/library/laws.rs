//! What holds of the library, said of the files it is made of.
use vstd::prelude::*;
use crate::library::{
    alphanumerics, byte_sum, checksum_fits, crc32_of, crc_at, extension_of, has_one_of,
    header_text, holds, is_alphanumeric, lemma_crc_at, listed_before, read_rom_header, rom_error_text, rom_read,
    roms_among, saves_among, shown_name, stem, stored_name, RomError, RomInfoView, ROM_EXTENSIONS,
    SAVE_EXTENSIONS,
};
use crate::text::laws::{law_hex_is_read_back, spells_hex};
use crate::text::{decimal, hex_digits, hex_u32, lowered, text_le};

verus! {

// ---------------------------------------------------------------------
// Names
// ---------------------------------------------------------------------

/// A name is its stem, a dot and its extension; the last dot counts. Without a
/// dot it is all stem.
pub proof fn law_names_have_stems_and_extensions(s: Seq<char>, e: Seq<char>)
    requires
        !e.contains('.'),
    ensures
        extension_of(s + seq!['.'] + e) == Some(e),
        stem(s + seq!['.'] + e) == s,
        extension_of(e) is None,
        stem(e) == e,
    decreases e.len(),
{
    let name = s + seq!['.'] + e;
    if e.len() > 0 {
        let f = e.drop_last();
        assert(!f.contains('.')) by {
            if f.contains('.') {
                let i = choose|i: int| 0 <= i < f.len() && f[i] == '.';
                assert(e[i] == '.');
            }
        }
        law_names_have_stems_and_extensions(s, f);
        assert(e.last() != '.') by {
            assert(e.contains(e[e.len() - 1]));
        }
        assert(name.last() == e.last());
        assert(name.drop_last() =~= s + seq!['.'] + f);
        assert(f.push(e.last()) =~= e);
    } else {
        assert(name.last() == '.');
        assert(e =~= Seq::empty());
    }
    assert(name.take(s.len() as int) =~= s);
}

/// A ROM is told by its extension, in any case: `gba`, `srl` or `agb`, and
/// nothing else. A save is by `sav`, `sa1` or `srm`.
pub proof fn law_kinds_are_told_by_extension(s: Seq<char>, e: Seq<char>)
    requires
        !e.contains('.'),
    ensures
        has_one_of(s + seq!['.'] + e, ROM_EXTENSIONS@) <==> lowered(e) == "gba"@ || lowered(e)
            == "srl"@ || lowered(e) == "agb"@,
        has_one_of(s + seq!['.'] + e, SAVE_EXTENSIONS@) <==> lowered(e) == "sav"@ || lowered(e)
            == "sa1"@ || lowered(e) == "srm"@,
        !has_one_of(e, ROM_EXTENSIONS@),
        !has_one_of(e, SAVE_EXTENSIONS@),
{
    law_names_have_stems_and_extensions(s, e);
    assert(ROM_EXTENSIONS@.len() == 3);
    assert(ROM_EXTENSIONS@[0]@ == "gba"@);
    assert(ROM_EXTENSIONS@[1]@ == "srl"@);
    assert(ROM_EXTENSIONS@[2]@ == "agb"@);
    assert(SAVE_EXTENSIONS@.len() == 3);
    assert(SAVE_EXTENSIONS@[0]@ == "sav"@);
    assert(SAVE_EXTENSIONS@[1]@ == "sa1"@);
    assert(SAVE_EXTENSIONS@[2]@ == "srm"@);
}

/// The save picker offers the saves there are, all of them and in their order.
pub proof fn law_saves_are_picked_in_order(names: Seq<Seq<char>>)
    ensures
        saves_among(names) == names.filter(|n: Seq<char>| has_one_of(n, SAVE_EXTENSIONS@)),
    decreases names.len(),
{
    reveal(Seq::filter);
    if names.len() > 0 {
        law_saves_are_picked_in_order(names.drop_last());
    } else {
        assert(names =~= Seq::empty());
    }
}

/// A ROM is shown by the name a DAT has for it, and by its header's title
/// where there is none.
pub proof fn law_dat_names_come_first(r: RomInfoView, name: Seq<char>)
    ensures
        shown_name(RomInfoView { dat_name: Some(name), ..r }) == name,
        shown_name(RomInfoView { dat_name: None, ..r }) == r.title,
{
}

proof fn lemma_alphanumerics(s: Seq<char>)
    ensures
        alphanumerics(s) == s.filter(|c: char| is_alphanumeric(c)),
    decreases s.len(),
{
    reveal(Seq::filter);
    if s.len() > 0 {
        lemma_alphanumerics(s.drop_last());
    } else {
        assert(s =~= Seq::empty());
    }
}

/// A ROM is stored under the letters and digits of its code, or `ROM` where it
/// has none, then its checksum as eight hexadecimal digits in brackets, then
/// `.gba`: so it is a ROM by its name, and ROMs with different checksums have
/// different names.
pub proof fn law_stored_names_tell_roms_apart(r: RomInfoView, other: RomInfoView)
    ensures
        ({
            let code = r.code.filter(|c: char| is_alphanumeric(c));
            let front = if code.len() == 0 {
                "ROM"@
            } else {
                code
            };
            let name = stored_name(r);
            &&& name == front + " ("@ + name.subrange(name.len() - 13, name.len() - 5) + ").gba"@
            &&& spells_hex(name.subrange(name.len() - 13, name.len() - 5), r.crc32 as nat)
        }),
        has_one_of(stored_name(r), ROM_EXTENSIONS@),
        stored_name(r) == stored_name(other) ==> r.crc32 == other.crc32,
{
    reveal_strlit(" (");
    reveal_strlit(").gba");
    reveal_strlit("gba");
    lemma_alphanumerics(r.code);
    law_hex_is_read_back(r.crc32);
    law_hex_is_read_back(other.crc32);
    let h = hex_digits(r.crc32 as nat, 8);
    let g = hex_digits(other.crc32 as nat, 8);
    let name = stored_name(r);
    let n = name.len() as int;
    assert(name.subrange(n - 13, n - 5) =~= h);
    let base = name.take(n - 4);
    assert(name =~= base + seq!['.'] + "gba"@);
    assert(!"gba"@.contains('.'));
    assert(lowered("gba"@) =~= "gba"@);
    law_kinds_are_told_by_extension(base, "gba"@);
    if stored_name(r) == stored_name(other) {
        assert(stored_name(other).subrange(n - 13, n - 5) =~= g);
        assert(hex_u32(h) == Some(r.crc32));
        assert(hex_u32(g) == Some(other.crc32));
    }
}

// ---------------------------------------------------------------------
// Headers
// ---------------------------------------------------------------------

/// Which files are ROMs: from 192 bytes to 32 MiB, with the fixed byte and a
/// checksum that fits. Of several things that are wrong the first in this order
/// is said, a size in whole MiB.
pub proof fn law_which_files_are_roms(file_name: Seq<char>, d: Seq<u8>)
    requires
        d.len() <= usize::MAX,
    ensures
        ({
            let r = read_rom_header(file_name, d);
            &&& d.len() < 192 <==> r == Err::<RomInfoView, RomError>(RomError::TooSmall)
            &&& d.len() > 32 * 1024 * 1024 <==> (r matches Err(RomError::TooLarge(mib)))
            &&& r matches Err(RomError::TooLarge(mib)) ==> mib * 1024 * 1024 <= d.len() < (mib + 1)
                * 1024 * 1024
            &&& 192 <= d.len() <= 32 * 1024 * 1024 ==> {
                &&& d[0xb2] != 0x96 <==> r == Err::<RomInfoView, RomError>(RomError::NoFixedByte)
                &&& d[0xb2] == 0x96 && !checksum_fits(d) <==> r == Err::<RomInfoView, RomError>(
                    RomError::BadChecksum,
                )
                &&& d[0xb2] == 0x96 && checksum_fits(d) <==> r is Ok
            }
        }),
{
}

/// What a ROM's header says: the title is what the twelve bytes from 0xA0 on
/// hold, the code what the four behind them do, and the ROM is known by the
/// checksum and the length of all its bytes. No DAT is asked yet.
pub proof fn law_what_a_header_says(
    file_name: Seq<char>,
    d: Seq<u8>,
    title: Seq<u8>,
    code: Seq<u8>,
)
    requires
        read_rom_header(file_name, d) is Ok,
        title.len() == 12,
        code.len() == 4,
        forall|i: int| 0 <= i < 12 ==> #[trigger] title[i] == d[0xa0 + i],
        forall|i: int| 0 <= i < 4 ==> #[trigger] code[i] == d[0xac + i],
    ensures
        read_rom_header(file_name, d) == Ok::<RomInfoView, RomError>(
            RomInfoView {
                file_name,
                title: header_text(title),
                code: header_text(code),
                crc32: crc32_of(d),
                size: d.len() as u64,
                dat_name: None,
            },
        ),
{
    assert(d.subrange(0xa0, 0xac) =~= title);
    assert(d.subrange(0xac, 0xb0) =~= code);
}

/// A header field is read up to its first zero. Printable ASCII is read as it
/// is, and anything else as a question mark.
pub proof fn law_header_fields_end_at_a_zero(text: Seq<u8>, junk: Seq<u8>, i: int)
    requires
        !text.contains(0u8),
        0 <= i < text.len(),
    ensures
        header_text(text + seq![0u8] + junk).len() == text.len(),
        header_text(text).len() == text.len(),
        header_text(text + seq![0u8] + junk) == header_text(text),
        0x20 <= text[i] <= 0x7e ==> header_text(text)[i] == text[i] as char,
        !(0x20 <= text[i] <= 0x7e) ==> header_text(text)[i] == '?',
{
    lemma_before_nul(text, seq![0u8] + junk);
    assert(text + seq![0u8] + junk =~= text + (seq![0u8] + junk));
    lemma_before_nul(text, Seq::empty());
    assert(text + Seq::<u8>::empty() =~= text);
}

proof fn lemma_before_nul(text: Seq<u8>, rest: Seq<u8>)
    requires
        !text.contains(0u8),
        rest.len() > 0 ==> rest[0] == 0,
    ensures
        crate::replay::before_nul(text + rest) == text,
    decreases text.len(),
{
    let s = text + rest;
    if text.len() > 0 {
        assert(text[0] != 0) by {
            assert(text.contains(text[0]));
        }
        let t = text.skip(1);
        assert(!t.contains(0u8)) by {
            if t.contains(0u8) {
                let k = choose|k: int| 0 <= k < t.len() && t[k] == 0;
                assert(text[k + 1] == 0);
            }
        }
        assert(s[0] == text[0]);
        assert(s.skip(1) =~= t + rest);
        lemma_before_nul(t, rest);
        assert(seq![text[0]] + t =~= text);
    } else {
        assert(text =~= Seq::empty());
        assert(s =~= rest);
    }
}

proof fn lemma_byte_sum_update(s: Seq<u8>, i: int, b: u8)
    requires
        0 <= i < s.len(),
    ensures
        byte_sum(s.update(i, b)) + s[i] == byte_sum(s) + b,
    decreases s.len(),
{
    let u = s.update(i, b);
    if i == s.len() - 1 {
        assert(u.drop_last() =~= s.drop_last());
    } else {
        lemma_byte_sum_update(s.drop_last(), i, b);
        assert(u.drop_last() =~= s.drop_last().update(i, b));
    }
}

proof fn lemma_byte_sum_zero(s: Seq<u8>)
    requires
        forall|i: int| 0 <= i < s.len() ==> #[trigger] s[i] == 0,
    ensures
        byte_sum(s) == 0,
    decreases s.len(),
{
    if s.len() > 0 {
        assert(s[s.len() - 1] == 0);
        let d = s.drop_last();
        assert forall|i: int| 0 <= i < d.len() implies #[trigger] d[i] == 0 by {
            assert(s[i] == 0);
        }
        lemma_byte_sum_zero(d);
    }
}

/// The header's checksum answers for every byte it is over, and for nothing
/// else. An empty header has checksum 0xE7; a byte from 0xA0 to 0xBC going up
/// takes the checksum down by as much, and no other byte changes it. So a
/// header with one byte spoiled is refused.
pub proof fn law_the_header_checksum_answers_for_its_bytes(
    d: Seq<u8>,
    i: int,
    b: u8,
    c: u8,
)
    requires
        d.len() >= 0xc0,
        0 <= i < d.len(),
        i != 0xbd,
    ensures
        (forall|k: int| 0xa0 <= k < 0xbd ==> #[trigger] d[k] == 0) ==> (checksum_fits(d) <==> d[0xbd]
            == 0xe7),
        !(0xa0 <= i < 0xbd) ==> checksum_fits(d.update(i, b)) == checksum_fits(d),
        0xa0 <= i < 0xbd && (b - d[i] + c - d[0xbd]) % 256 == 0 ==> checksum_fits(
            d.update(i, b).update(0xbd, c),
        ) == checksum_fits(d),
        0xa0 <= i < 0xbd && checksum_fits(d) && b != d[i] ==> !checksum_fits(d.update(i, b)),
        checksum_fits(d) && c != d[0xbd] ==> !checksum_fits(d.update(0xbd, c)),
{
    let h = d.subrange(0xa0, 0xbd);
    let u = d.update(i, b);
    let hu = u.subrange(0xa0, 0xbd);
    if forall|k: int| 0xa0 <= k < 0xbd ==> #[trigger] d[k] == 0 {
        assert forall|k: int| 0 <= k < h.len() implies #[trigger] h[k] == 0 by {
            assert(d[0xa0 + k] == 0);
        }
        lemma_byte_sum_zero(h);
    }
    if 0xa0 <= i < 0xbd {
        assert(hu =~= h.update(i - 0xa0, b));
        lemma_byte_sum_update(h, i - 0xa0, b);
        let w = u.update(0xbd, c);
        assert(w.subrange(0xa0, 0xbd) =~= hu);
        assert(w[0xbd] == c);
        assert(u[0xbd] == d[0xbd]);
    } else {
        assert(hu =~= h);
    }
    assert(d.update(0xbd, c).subrange(0xa0, 0xbd) =~= h);
}

/// What is said of a file that is no ROM.
pub proof fn law_what_is_said_of_other_files(mib: usize)
    ensures
        rom_error_text(RomError::TooSmall) == "too small to be a GBA ROM"@,
        rom_error_text(RomError::TooLarge(mib)) == decimal(mib as nat)
            + " MiB is larger than any GBA cartridge"@,
        rom_error_text(RomError::NoFixedByte)
            == "not a GBA ROM (missing the header's fixed byte)"@,
        rom_error_text(RomError::BadChecksum) == "not a GBA ROM (bad header checksum)"@,
{
}

// ---------------------------------------------------------------------
// The library
// ---------------------------------------------------------------------

/// Whether a ROM is what a file is, named as the DAT names its checksum.
pub open spec fn is_rom_of(
    r: RomInfoView,
    file: (Seq<char>, Seq<u8>),
    names: Map<u32, Seq<char>>,
) -> bool {
    &&& has_one_of(file.0, ROM_EXTENSIONS@)
    &&& read_rom_header(file.0, file.1) matches Ok(info)
    &&& r.file_name == info.file_name
    &&& r.title == info.title
    &&& r.code == info.code
    &&& r.crc32 == info.crc32
    &&& r.size == info.size
    &&& names.contains_key(r.crc32) ==> r.dat_name == Some(names[r.crc32])
    &&& !names.contains_key(r.crc32) ==> r.dat_name is None
}

/// The library has a ROM for every file that is one, and nothing else; each is
/// named by the DAT where it knows the checksum.
pub proof fn law_every_rom_file_is_in_the_library(
    files: Seq<(Seq<char>, Seq<u8>)>,
    names: Map<u32, Seq<char>>,
)
    ensures
        forall|i: int|
            0 <= i < files.len() && has_one_of((#[trigger] files[i]).0, ROM_EXTENSIONS@)
                && read_rom_header(files[i].0, files[i].1) is Ok ==> exists|k: int|
                0 <= k < roms_among(files, names).len() && is_rom_of(
                    #[trigger] roms_among(files, names)[k],
                    files[i],
                    names,
                ),
        forall|k: int|
            0 <= k < roms_among(files, names).len() ==> rom_is_from(
                #[trigger] roms_among(files, names)[k],
                files,
                names,
            ),
        roms_among(files, names).len() <= files.len(),
    decreases files.len(),
{
    let all = roms_among(files, names);
    if files.len() > 0 {
        let f = files.drop_last();
        let rest = roms_among(f, names);
        law_every_rom_file_is_in_the_library(f, names);
        assert forall|i: int|
            0 <= i < files.len() && has_one_of((#[trigger] files[i]).0, ROM_EXTENSIONS@)
                && read_rom_header(files[i].0, files[i].1) is Ok implies exists|k: int|
            0 <= k < all.len() && is_rom_of(#[trigger] all[k], files[i], names) by {
            if i < f.len() {
                assert(f[i] == files[i]);
                let k = choose|k: int|
                    0 <= k < rest.len() && is_rom_of(#[trigger] rest[k], f[i], names);
                assert(all[k] == rest[k]);
            } else {
                assert(all.len() == rest.len() + 1);
                assert(is_rom_of(all[all.len() - 1], files[i], names));
            }
        }
        assert forall|k: int| 0 <= k < all.len() implies rom_is_from(
            #[trigger] all[k],
            files,
            names,
        ) by {
            if k < rest.len() {
                assert(all[k] == rest[k]);
                assert(rom_is_from(rest[k], f, names));
                let i = choose|i: int|
                    0 <= i < f.len() && is_rom_of(rest[k], #[trigger] f[i], names);
                assert(files[i] == f[i]);
            } else {
                assert(is_rom_of(all[k], files[files.len() - 1], names));
            }
        }
    }
}

/// Whether a ROM is what one of some files is.
pub open spec fn rom_is_from(
    r: RomInfoView,
    files: Seq<(Seq<char>, Seq<u8>)>,
    names: Map<u32, Seq<char>>,
) -> bool {
    exists|i: int| 0 <= i < files.len() && is_rom_of(r, #[trigger] files[i], names)
}

/// ROMs are listed by the name that is shown, whatever the case of its
/// letters; by their file names where that is the same.
pub proof fn law_roms_are_listed_by_shown_name(a: RomInfoView, b: RomInfoView)
    ensures
        lowered(shown_name(a)) != lowered(shown_name(b)) ==> listed_before(a, b) == text_le(
            lowered(shown_name(a)),
            lowered(shown_name(b)),
        ),
        lowered(shown_name(a)) == lowered(shown_name(b)) ==> listed_before(a, b) == text_le(
            a.file_name,
            b.file_name,
        ),
{
}

/// A ROM is booted from bytes with the checksum it was scanned with, and from
/// no others; what became of the file is said otherwise.
pub proof fn law_roms_boot_from_what_was_scanned(
    info: RomInfoView,
    bytes: Seq<u8>,
    error: Seq<char>,
)
    ensures
        crc32_of(bytes) == info.crc32 ==> rom_read(info, Ok(Some(bytes))) == Ok::<_, Seq<char>>(
            bytes,
        ),
        crc32_of(bytes) != info.crc32 ==> rom_read(info, Ok(Some(bytes))) == Err::<Seq<u8>, _>(
            info.file_name + " changed since it was scanned"@,
        ),
        rom_read(info, Ok(None)) == Err::<Seq<u8>, _>(
            info.file_name + " disappeared from the library"@,
        ),
        rom_read(info, Err(error)) == Err::<Seq<u8>, _>(error),
{
}

/// A ROM is found by its checksum: the first of several, and none where none
/// has it.
pub proof fn law_roms_are_found_by_checksum(roms: Seq<RomInfoView>, crc32: u32, i: int)
    requires
        0 <= i < roms.len(),
    ensures
        roms[i].crc32 == crc32 ==> crc_at(roms, crc32) <= i && holds(roms, crc32),
        crc_at(roms, crc32) < roms.len() ==> roms[crc_at(roms, crc32) as int].crc32 == crc32,
        (forall|k: int| 0 <= k < roms.len() ==> (#[trigger] roms[k]).crc32 != crc32)
            ==> crc_at(roms, crc32) == roms.len() && !holds(roms, crc32),
    decreases roms.len(),
{
    lemma_crc_at(roms, crc32);
    if roms[0].crc32 != crc32 && i > 0 {
        let rest = roms.skip(1);
        law_roms_are_found_by_checksum(rest, crc32, i - 1);
        assert(rest[i - 1] == roms[i]);
    }
}

} // verus!
