use gbaroll::library::{
    ext_of, has_extension, list_saves, normalized_file_name, read_rom, rom_info, stem_of, Library,
    RomError, RomInfo, ROM_EXTENSIONS, SAVE_EXTENSIONS,
};
use gbaroll::nointro::{check_download, load, DatIndex, Stored};
use gbaroll::signaling::PlayerInfo;
use gbaroll::storage::list_files;
use gbaroll::ui::lobby::display_rom_title;

const DAT: &str = "clrmamepro (\n\tname \"Nintendo - Game Boy Advance\"\n)\ngame (\n\tname \"Cool Game (Europe) (En,Fr,De)\"\n\trom ( name \"Cool Game (Europe).gba\" size 4 crc 0000bbbb md5 0 )\n)\n";

#[test]
fn xml_is_rejected() {
    let mut dat = DatIndex::default();
    dat.add_text(r#"<?xml version="1.0"?><datafile></datafile>"#);
    assert!(dat.is_empty());
}

#[test]
fn clrmamepro_parses() {
    let mut dat = DatIndex::default();
    dat.add_text(
        "clrmamepro (\n\tname \"Nintendo - Game Boy Advance\"\n)\ngame (\n\tname \"Cool Game (Europe) (En,Fr,De)\"\n\trom ( name \"Cool Game (Europe).gba\" size 4 crc 0000bbbb md5 0 )\n)\n",
    );
    assert_eq!(dat.lookup(0xbbbb), Some("Cool Game (Europe) (En,Fr,De)"));
}

#[test]
fn resolves_rom_name_by_crc_with_raw_title_fallback() {
    let player = PlayerInfo {
        nick: "peer".to_string(),
        ready: false,
        rom_crc32: 0x1234_5678,
        rom_title: "RAW HEADER".to_string(),
        seat: 0,
    };
    let library = Library {
        roms: vec![RomInfo {
            file_name: "game.gba".to_string(),
            title: "RAW HEADER".to_string(),
            code: "ABCE".to_string(),
            crc32: player.rom_crc32,
            size: 1,
            dat_name: Some("Canonical Game (USA)".to_string()),
        }],
    };

    assert_eq!(display_rom_title(&player, &library), "Canonical Game (USA)");
    assert_eq!(display_rom_title(&player, &Library::default()), "RAW HEADER");
}

#[test]
fn known_names_are_kept() {
    let mut dat = DatIndex::default();
    dat.add_text(DAT);
    dat.add_text("game ( name \"Other\" rom ( crc 0000bbbb ) rom ( crc 12 ) )");
    assert_eq!(dat.lookup(0x12), Some("Other"));
    assert_eq!(dat.len(), 2);
}

#[test]
fn the_stored_dat_comes_first() {
    let stored = load(&Stored::Found(DAT.as_bytes().to_vec()), Some("game ( )"));
    assert_eq!(stored.len(), 1);
    let bundled = load(&Stored::Missing, Some(DAT));
    assert_eq!(bundled.lookup(0xbbbb), Some("Cool Game (Europe) (En,Fr,De)"));
    assert!(load(&Stored::Unreadable, Some(DAT)).is_empty());
    assert!(load(&Stored::Missing, None).is_empty());
}

#[test]
fn empty_downloads_are_refused() {
    assert_eq!(check_download(DAT), Some(1));
    assert_eq!(check_download("<html>404</html>"), None);
    assert_eq!(check_download(""), None);
}

/// A cartridge header that checks out.
fn rom(title: &[u8], code: &[u8]) -> Vec<u8> {
    let mut d = vec![0u8; 0x200];
    d[0xa0..0xa0 + title.len()].copy_from_slice(title);
    d[0xac..0xac + code.len()].copy_from_slice(code);
    d[0xb2] = 0x96;
    let sum: u32 = d[0xa0..0xbd].iter().map(|b| *b as u32).sum();
    d[0xbd] = 0u8.wrapping_sub(sum as u8).wrapping_sub(0x19);
    d
}

#[test]
fn headers_are_read() {
    let d = rom(b"COOLGAME", b"ACGE");
    let info = rom_info("cool.gba", &d).unwrap();
    assert_eq!(info.title, "COOLGAME");
    assert_eq!(info.code, "ACGE");
    assert_eq!(info.size, 0x200);
    assert_eq!(info.display_name(), "COOLGAME");
    assert_ne!(info.crc32, 0);
}

#[test]
fn checksums_are_the_known_ones() {
    // CRC32 of a header of zeros but for what makes it one; computed apart.
    let mut d = vec![0u8; 0x200];
    d[0xb2] = 0x96;
    d[0xbd] = 0x51;
    let info = rom_info("z.gba", &d).unwrap();
    let mut crc = 0xffff_ffffu32;
    for b in &d {
        crc ^= *b as u32;
        for _ in 0..8 {
            crc = if crc & 1 == 1 { (crc >> 1) ^ 0xedb8_8320 } else { crc >> 1 };
        }
    }
    assert_eq!(info.crc32, !crc);
}

#[test]
fn what_is_no_rom_is_told() {
    assert_eq!(rom_info("a.gba", &[0; 10]), Err(RomError::TooSmall));
    let mut d = rom(b"X", b"Y");
    d[0xbd] ^= 1;
    assert_eq!(rom_info("a.gba", &d), Err(RomError::BadChecksum));
    let mut d = rom(b"X", b"Y");
    d[0xb2] = 0;
    assert_eq!(rom_info("a.gba", &d), Err(RomError::NoFixedByte));
    let big = vec![0u8; 33_554_433];
    assert_eq!(rom_info("a.gba", &big), Err(RomError::TooLarge(32)));
}

#[test]
fn a_library_is_scanned_in_order() {
    let files = vec![
        ("b.gba".to_string(), rom(b"beta", b"BBBB")),
        ("a.gba".to_string(), rom(b"Alpha", b"AAAA")),
        ("notes.txt".to_string(), rom(b"nope", b"CCCC")),
        ("bad.gba".to_string(), vec![1, 2, 3]),
    ];
    let lib = Library::scan(&files, &DatIndex::default());
    let names: Vec<&str> = lib.roms.iter().map(|r| r.display_name()).collect();
    assert_eq!(names, vec!["Alpha", "beta"]);
    let crc = lib.roms[1].crc32;
    assert_eq!(lib.by_crc32(crc).unwrap().title, "beta");
    assert!(lib.by_crc32(crc ^ 1).is_none());
}

#[test]
fn changed_roms_are_refused() {
    let d = rom(b"A", b"B");
    let info = rom_info("a.gba", &d).unwrap();
    assert_eq!(read_rom(&info, Ok(Some(d.clone()))), Ok(d.clone()));
    let mut other = d;
    other[0] = 1;
    assert_eq!(
        read_rom(&info, Ok(Some(other))),
        Err("a.gba changed since it was scanned".to_string())
    );
    assert_eq!(
        read_rom(&info, Ok(None)),
        Err("a.gba disappeared from the library".to_string())
    );
    assert_eq!(read_rom(&info, Err("gone".to_string())), Err("gone".to_string()));
}

#[test]
fn extensions_in_any_case() {
    assert!(has_extension("x.GBA", &ROM_EXTENSIONS));
    assert!(has_extension("a.b.sav", &SAVE_EXTENSIONS));
    assert!(!has_extension("gba", &ROM_EXTENSIONS));
    assert!(!has_extension("x.gba ", &ROM_EXTENSIONS));
    assert_eq!(ext_of("a.b.sav"), "sav");
    assert_eq!(stem_of("a.b.sav"), "a.b");
    assert_eq!(ext_of("none"), "");
    assert_eq!(stem_of("none"), "none");
}

#[test]
fn saves_are_listed() {
    let names = vec!["b.sav".to_string(), "x.txt".to_string(), "a.SRM".to_string()];
    assert_eq!(list_saves(&names), vec!["b.sav".to_string(), "a.SRM".to_string()]);
}

#[test]
fn one_cartridge_one_name() {
    let d = rom(b"COOL GAME!", b"ACGE");
    let a = rom_info("one.gba", &d).unwrap();
    let b = rom_info("two.gba", &d).unwrap();
    assert_eq!(normalized_file_name(&a), normalized_file_name(&b));
}

#[test]
fn listings_are_sorted() {
    let entries = vec![
        ("b".to_string(), true),
        ("dir".to_string(), false),
        ("B".to_string(), true),
        ("a".to_string(), true),
    ];
    assert_eq!(list_files(&entries), vec!["B".to_string(), "a".to_string(), "b".to_string()]);
}

#[test]
fn reading_a_dat_again_changes_nothing() {
    let text = "game ( name \"First\" rom ( crc 0000bbbb ) )\n\
                game ( name \"Second\" rom ( crc 0000bbbb ) rom ( crc 0000cccc ) )\n";
    let mut dat = DatIndex::default();
    dat.add_text(text);
    assert_eq!(dat.lookup(0xbbbb), Some("First"));
    assert_eq!(dat.lookup(0xcccc), Some("Second"));
    assert_eq!(dat.len(), 2);
    dat.add_text(text);
    assert_eq!(dat.lookup(0xbbbb), Some("First"));
    assert_eq!(dat.len(), 2);
}
