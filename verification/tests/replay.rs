use gbaroll::replay::{parse_metadata, Error, Metadata, PlayerMeta, Replay, Writer, MAGIC};

fn meta(num_players: usize) -> Metadata {
    Metadata {
        local_player: 1,
        started_at_unix_micros: Some(1_752_000_000_000_000),
        rtc_unix_micros: Some(1_752_000_000_000_001),
        players: (0..num_players)
            .map(|i| PlayerMeta {
                nick: format!("player{i}"),
                rom_crc32: 0xdead_beef + i as u32,
                rom_title: format!("TESTGAME{i}"),
                rom_code: "ATST".to_string(),
                boot: if i == 1 { Some(vec![9; 64]) } else { None },
            })
            .collect(),
    }
}

fn roundtrip(num_players: usize, inputs: &[Vec<u32>]) -> Replay {
    let m = meta(num_players);
    let mut w = Writer::new(Vec::new(), &m);
    for row in inputs {
        w.push(row);
    }
    let bytes = w.finish();
    let parsed = Replay::parse(&bytes).unwrap();
    assert_eq!(parsed.inputs, inputs);
    assert!(parsed.is_complete);
    assert_eq!(parsed.metadata, m);
    parsed
}

#[test]
fn roundtrips_representative_streams() {
    for n in 2..=4usize {
        roundtrip(n, &[]);
        roundtrip(n, &vec![vec![0; n]; 500]); // idle: 1 byte/tick
        roundtrip(n, &vec![(1..=n as u32).collect::<Vec<_>>(); 3]); // held keys
        roundtrip(
            n,
            &[
                (0..n as u32).map(|i| 0x3ff - i).collect(),
                vec![0; n],
                (0..n as u32).map(|i| 0x100 + i).collect(),
            ],
        );
    }
}

#[test]
fn metadata_only_parse_matches() {
    let m = meta(3);
    let mut w = Writer::new(Vec::new(), &m);
    w.push(&[1, 2, 3]);
    let bytes = w.finish();
    assert_eq!(parse_metadata(&bytes).unwrap(), m);
}

#[test]
fn idle_run_is_one_byte_per_tick() {
    let m = Metadata { players: vec![PlayerMeta::default(); 4], ..Default::default() };
    let mut w = Writer::new(Vec::new(), &m);
    let header_len = w.w.len();
    for _ in 0..1000 {
        w.push(&[0, 0, 0, 0]);
    }
    let bytes = w.finish();
    assert_eq!(bytes.len(), header_len + 1000 + 1);
}

#[test]
fn truncated_tail_recovers_prefix() {
    let m = meta(4);
    let mut w = Writer::new(Vec::new(), &m);
    for i in 0..10u32 {
        w.push(&[i & 0x3ff, (i * 3) & 0x3ff, (i * 7) & 0x3ff, (i * 11) & 0x3ff]);
    }
    let mut bytes = w.finish();
    bytes.truncate(bytes.len() - 4); // eat the sentinel + part of the last tick
    let parsed = Replay::parse(&bytes).unwrap();
    assert!(!parsed.is_complete);
    assert!(parsed.inputs.len() >= 8); // most of the stream survives
    for (i, row) in parsed.inputs.iter().enumerate() {
        let i = i as u32;
        assert_eq!(
            row.as_slice(),
            &[i & 0x3ff, (i * 3) & 0x3ff, (i * 7) & 0x3ff, (i * 11) & 0x3ff]
        );
    }
}

#[test]
fn all_explicit_tick_avoids_sentinel_tag() {
    // Every player changes to a fresh nonzero value: no defaults apply
    // under either op, which must not emit a 0x00 tag mid-stream.
    roundtrip(4, &[vec![1, 2, 3, 4], vec![5, 6, 7, 8], vec![0, 0, 0, 0]]);
}

#[test]
fn rejects_garbage() {
    assert!(matches!(
        Replay::parse(b"NOTAREPLAY"),
        Err(Error::BadMagic) | Err(Error::Truncated)
    ));
    let mut bytes = Vec::new();
    bytes.extend_from_slice(&MAGIC);
    bytes.push(7); // bogus player count
    assert!(matches!(Replay::parse(&bytes), Err(Error::BadPlayerCount(7))));
}

#[test]
fn truncated_headers_are_told() {
    let mut w = Writer::new(Vec::new(), &meta(2));
    w.push(&[1, 2]);
    let bytes = w.finish();
    for n in 12..40 {
        assert!(matches!(Replay::parse(&bytes[..n]), Err(Error::Truncated)), "{n}");
    }
    assert!(matches!(Replay::parse(b"GBAROLLRPLY\x02xxxxxxxxxxx"), Err(Error::BadMagic)));
}

#[test]
fn bad_metadata_is_told() {
    let mut w = Writer::new(Vec::new(), &meta(2));
    w.push(&[1, 2]);
    let mut bytes = w.finish();
    // The local player's index, right behind the player count.
    bytes[13] = 2;
    assert!(matches!(Replay::parse(&bytes), Err(Error::BadMetadata(_))));
}

#[test]
fn errors_read_well() {
    assert_eq!(Error::BadMagic.message(), "not a gbaroll replay");
    assert_eq!(Error::Truncated.message(), "truncated replay");
    assert_eq!(Error::BadPlayerCount(7).message(), "invalid player count 7");
    assert_eq!(Error::BadMetadata("local player").message(), "invalid metadata: local player");
}

#[test]
fn unknown_times_stay_unknown() {
    let m = Metadata { players: vec![PlayerMeta::default(); 2], ..Default::default() };
    let bytes = Writer::new(Vec::new(), &m).finish();
    let parsed = Replay::parse(&bytes).unwrap();
    assert_eq!(parsed.metadata.started_at_unix_micros, None);
    assert_eq!(parsed.metadata.rtc_unix_micros, None);
    assert_eq!(parsed.num_players(), 2);
    assert!(parsed.inputs.is_empty());
    assert!(parsed.is_complete);
}

#[test]
fn malformed_nicks_are_repaired() {
    let mut m = Metadata { players: vec![PlayerMeta::default(); 2], ..Default::default() };
    m.players[0].nick = "xy".to_string();
    let mut bytes = Writer::new(Vec::new(), &m).finish();
    let at = bytes.windows(2).position(|w| w == b"xy").unwrap();
    bytes[at] = 0xff;
    let parsed = Replay::parse(&bytes).unwrap();
    assert_eq!(parsed.metadata.players[0].nick, "\u{fffd}y");
}

#[test]
fn keys_past_the_joypad_are_cut() {
    let m = Metadata { players: vec![PlayerMeta::default(); 2], ..Default::default() };
    let mut w = Writer::new(Vec::new(), &m);
    w.push(&[0xffff, 0x3ff]);
    let parsed = Replay::parse(&w.finish()).unwrap();
    assert_eq!(parsed.inputs[0][1], 0x3ff);
}

#[test]
fn records_take_the_shorter_form() {
    let m = meta(3);
    let mut w = Writer::new(Vec::new(), &m);
    w.push(&[5, 6, 0]);
    let start = w.w.len();
    // Two repeat and one is idle: only the first is spelled out, against the
    // tick before.
    w.push(&[7, 6, 0]);
    assert_eq!(&w.w[start..], &[0x86, 7, 0]);
    let start = w.w.len();
    // Two are idle: zero is the better default.
    w.push(&[9, 0, 0]);
    assert_eq!(&w.w[start..], &[0x06, 9, 0]);
}
