//! The protocol's messages, field by field.
use vstd::prelude::*;
use vstd::utf8::encode_utf8;
use crate::signaling::codec::{
    bytes_entry, bytes_field, bytes_of, encoded, field_bytes_value, field_number, field_text,
    flag_field, lemma_reads_back_at, lemma_field_within, lemma_merge_concat, lemma_merge_short,
    lemma_text_reads_back, merge_all, merge_part, number_field, number_of, opt_text_field,
    opt_text_view, part_of, put_bytes_entry, put_bytes_field, put_flag_field, put_message,
    put_number_field, put_opt_text_field, put_text_field, text_field, text_of, Message, Readable,
};
use crate::signaling::wire::{
    fields_bytes, lemma_fields_bytes_concat, Field, FieldView, MAX_DEPTH, MAX_TAG,
};

verus! {

/// What a list of texts says, in order.
pub open spec fn texts_view(s: Seq<String>) -> Seq<Seq<char>> {
    s.map_values(|t: String| t@)
}

/// One field per text, in order.
pub open spec fn texts_field(tag: u32, s: Seq<Seq<char>>) -> Seq<FieldView> {
    s.map_values(|e: Seq<char>| bytes_entry(tag, encode_utf8(e)))
}

fn put_texts_field(out: &mut Vec<u8>, tag: u32, s: &Vec<String>)
    requires
        1 <= tag <= MAX_TAG,
    ensures
        final(out)@ == old(out)@ + fields_bytes(texts_field(tag, texts_view(s@))),
{
    let ghost all = texts_view(s@);
    let mut i: usize = 0;
    proof {
        assert(texts_field(tag, all.take(0)) =~= Seq::<FieldView>::empty());
    }
    while i < s.len()
        invariant
            i <= s@.len(),
            1 <= tag <= MAX_TAG,
            all == texts_view(s@),
            out@ == old(out)@ + fields_bytes(texts_field(tag, all.take(i as int))),
        decreases s@.len() - i,
    {
        put_bytes_entry(out, tag, s[i].as_str().as_bytes());
        proof {
            let head = texts_field(tag, all.take(i as int));
            let one = seq![bytes_entry(tag, encode_utf8(all[i as int]))];
            assert(texts_field(tag, all.take(i + 1)) =~= head + one);
            lemma_fields_bytes_concat(head, one);
            assert(out@ =~= old(out)@ + fields_bytes(texts_field(tag, all.take(i + 1))));
        }
        i = i + 1;
    }
    proof {
        assert(all.take(i as int) =~= all);
    }
}

/// One STUN or TURN server a mesh may use.
#[derive(Debug, Clone, PartialEq, Eq)]
pub struct IceServer {
    /// Its addresses.
    pub urls: Vec<String>,
    /// Who to sign in as, where it asks.
    pub username: Option<String>,
    /// And with what.
    pub credential: Option<String>,
}

/// What an [`IceServer`] says.
#[verifier::ext_equal]
pub struct IceServerView {
    pub urls: Seq<Seq<char>>,
    pub username: Option<Seq<char>>,
    pub credential: Option<Seq<char>>,
}

impl View for IceServer {
    type V = IceServerView;

    open spec fn view(&self) -> IceServerView {
        IceServerView {
            urls: texts_view(self.urls@),
            username: opt_text_view(self.username),
            credential: opt_text_view(self.credential),
        }
    }
}

impl Message for IceServer {
    open spec fn blank() -> IceServerView {
        IceServerView { urls: Seq::empty(), username: None, credential: None }
    }

    open spec fn fields(v: IceServerView) -> Seq<FieldView> {
        texts_field(1, v.urls) + opt_text_field(2, v.username) + opt_text_field(3, v.credential)
    }

    open spec fn merged(v: IceServerView, f: FieldView, depth: nat) -> Option<IceServerView> {
        if f.tag == 1 {
            match text_of(f) {
                Some(x) => Some(IceServerView { urls: v.urls.push(x), ..v }),
                None => None,
            }
        } else if f.tag == 2 {
            match text_of(f) {
                Some(x) => Some(IceServerView { username: Some(x), ..v }),
                None => None,
            }
        } else if f.tag == 3 {
            match text_of(f) {
                Some(x) => Some(IceServerView { credential: Some(x), ..v }),
                None => None,
            }
        } else {
            Some(v)
        }
    }

    fn new_blank() -> (m: IceServer) {
        let m = IceServer { urls: Vec::new(), username: None, credential: None };
        assert(m@ =~= IceServer::blank());
        m
    }

    fn put_fields(&self, out: &mut Vec<u8>) {
        put_texts_field(out, 1, &self.urls);
        put_opt_text_field(out, 2, &self.username);
        put_opt_text_field(out, 3, &self.credential);
        proof {
            let v = self@;
            let f1 = texts_field(1, v.urls);
            let f2 = opt_text_field(2, v.username);
            let f3 = opt_text_field(3, v.credential);
            lemma_fields_bytes_concat(f1, f2);
            lemma_fields_bytes_concat(f1 + f2, f3);
            assert(out@ =~= old(out)@ + fields_bytes(IceServer::fields(v)));
        }
    }

    fn merge(&mut self, f: Field, _depth: u32) -> (ok: bool) {
        if f.tag == 1 {
            match field_text(f) {
                Some(x) => {
                    let ghost before = self.urls@;
                    self.urls.push(x);
                    assert(texts_view(self.urls@) =~= texts_view(before).push(x@));
                    true
                },
                None => false,
            }
        } else if f.tag == 2 {
            match field_text(f) {
                Some(x) => {
                    self.username = Some(x);
                    true
                },
                None => false,
            }
        } else if f.tag == 3 {
            match field_text(f) {
                Some(x) => {
                    self.credential = Some(x);
                    true
                },
                None => false,
            }
        } else {
            true
        }
    }
}

/// Entries read one after the other end up in order.
proof fn lemma_ice_server_urls(v: IceServerView, s: Seq<Seq<char>>, depth: nat)
    ensures
        merge_all::<IceServer>(v, texts_field(1, s), depth) == Some(
            IceServerView { urls: v.urls + s, ..v },
        ),
    decreases s.len(),
{
    let fs = texts_field(1, s);
    if s.len() == 0 {
        assert(v.urls + s =~= v.urls);
    } else {
        let head = s.drop_last();
        let last = s.last();
        lemma_ice_server_urls(v, head, depth);
        let mid = IceServerView { urls: v.urls + head, ..v };
        let one = seq![fs[s.len() - 1]];
        assert(fs =~= texts_field(1, head) + one);
        lemma_merge_concat::<IceServer>(v, texts_field(1, head), one, depth);
        lemma_merge_short::<IceServer>(mid, one, depth);
        lemma_text_reads_back(last);
        assert(mid.urls.push(last) =~= v.urls + s);
    }
}

impl Readable for IceServer {
    open spec fn height() -> nat {
        0
    }

    proof fn reads_back(v: IceServerView, depth: nat) {
        let v0 = IceServer::blank();
        let all = IceServer::fields(v);
        let f1 = texts_field(1, v.urls);
        let f2 = opt_text_field(2, v.username);
        let f3 = opt_text_field(3, v.credential);
        let v1 = IceServerView { urls: v.urls, ..v0 };
        let v2 = IceServerView { username: v.username, ..v1 };
        let v3 = IceServerView { credential: v.credential, ..v2 };
        lemma_ice_server_urls(v0, v.urls, depth);
        assert(v0.urls + v.urls =~= v.urls);
        assert(merge_all::<IceServer>(v0, f1, depth) =~= Some(v1));
        if v.username is Some {
            lemma_text_reads_back(v.username->Some_0);
        }
        lemma_merge_short::<IceServer>(v1, f2, depth);
        assert(merge_all::<IceServer>(v1, f2, depth) =~= Some(v2));
        if v.credential is Some {
            lemma_text_reads_back(v.credential->Some_0);
        }
        lemma_merge_short::<IceServer>(v2, f3, depth);
        assert(merge_all::<IceServer>(v2, f3, depth) =~= Some(v3));
        lemma_merge_concat::<IceServer>(v0, f1, f2, depth);
        lemma_merge_concat::<IceServer>(v0, f1 + f2, f3, depth);
        assert(v3 =~= v);
    }
}

/// One member of a room, as the roster shows them.
#[derive(Debug, Clone, PartialEq, Eq)]
pub struct PlayerInfo {
    pub nick: String,
    /// Whether they report holding every ROM in the roster.
    pub ready: bool,
    pub rom_crc32: u32,
    pub rom_title: String,
    /// The stable seat token: unlike the position, it never moves.
    pub seat: u32,
}

/// What a [`PlayerInfo`] says.
#[verifier::ext_equal]
pub struct PlayerInfoView {
    pub nick: Seq<char>,
    pub ready: bool,
    pub rom_crc32: u32,
    pub rom_title: Seq<char>,
    pub seat: u32,
}

impl View for PlayerInfo {
    type V = PlayerInfoView;

    open spec fn view(&self) -> PlayerInfoView {
        PlayerInfoView {
            nick: self.nick@,
            ready: self.ready,
            rom_crc32: self.rom_crc32,
            rom_title: self.rom_title@,
            seat: self.seat,
        }
    }
}

impl Message for PlayerInfo {
    open spec fn blank() -> PlayerInfoView {
        PlayerInfoView {
            nick: Seq::empty(),
            ready: false,
            rom_crc32: 0,
            rom_title: Seq::empty(),
            seat: 0,
        }
    }

    open spec fn fields(v: PlayerInfoView) -> Seq<FieldView> {
        text_field(1, v.nick)
            + flag_field(2, v.ready)
            + number_field(3, v.rom_crc32 as u64)
            + text_field(4, v.rom_title)
            + number_field(5, v.seat as u64)
    }

    open spec fn merged(v: PlayerInfoView, f: FieldView, depth: nat) -> Option<PlayerInfoView> {
        if f.tag == 1 {
            match text_of(f) {
                Some(x) => Some(PlayerInfoView { nick: x, ..v }),
                None => None,
            }
        } else if f.tag == 2 {
            match number_of(f) {
                Some(x) => Some(PlayerInfoView { ready: x != 0, ..v }),
                None => None,
            }
        } else if f.tag == 3 {
            match number_of(f) {
                Some(x) => Some(PlayerInfoView { rom_crc32: x as u32, ..v }),
                None => None,
            }
        } else if f.tag == 4 {
            match text_of(f) {
                Some(x) => Some(PlayerInfoView { rom_title: x, ..v }),
                None => None,
            }
        } else if f.tag == 5 {
            match number_of(f) {
                Some(x) => Some(PlayerInfoView { seat: x as u32, ..v }),
                None => None,
            }
        } else {
            Some(v)
        }
    }

    fn new_blank() -> (m: PlayerInfo) {
        PlayerInfo {
            nick: String::new(),
            ready: false,
            rom_crc32: 0,
            rom_title: String::new(),
            seat: 0,
        }
    }

    fn put_fields(&self, out: &mut Vec<u8>) {
        put_text_field(out, 1, self.nick.as_str());
        put_flag_field(out, 2, self.ready);
        put_number_field(out, 3, self.rom_crc32 as u64);
        put_text_field(out, 4, self.rom_title.as_str());
        put_number_field(out, 5, self.seat as u64);
        proof {
            let v = self@;
            let f1 = text_field(1, v.nick);
            let f2 = flag_field(2, v.ready);
            let f3 = number_field(3, v.rom_crc32 as u64);
            let f4 = text_field(4, v.rom_title);
            let f5 = number_field(5, v.seat as u64);
            lemma_fields_bytes_concat(f1, f2);
            lemma_fields_bytes_concat(f1 + f2, f3);
            lemma_fields_bytes_concat(f1 + f2 + f3, f4);
            lemma_fields_bytes_concat(f1 + f2 + f3 + f4, f5);
            assert(out@ =~= old(out)@ + fields_bytes(PlayerInfo::fields(v)));
        }
    }

    fn merge(&mut self, f: Field, _depth: u32) -> (ok: bool) {
        if f.tag == 1 {
            match field_text(f) {
                Some(x) => {
                    self.nick = x;
                    true
                },
                None => false,
            }
        } else if f.tag == 2 {
            match field_number(&f) {
                Some(x) => {
                    self.ready = x != 0;
                    true
                },
                None => false,
            }
        } else if f.tag == 3 {
            match field_number(&f) {
                Some(x) => {
                    self.rom_crc32 = x as u32;
                    true
                },
                None => false,
            }
        } else if f.tag == 4 {
            match field_text(f) {
                Some(x) => {
                    self.rom_title = x;
                    true
                },
                None => false,
            }
        } else if f.tag == 5 {
            match field_number(&f) {
                Some(x) => {
                    self.seat = x as u32;
                    true
                },
                None => false,
            }
        } else {
            true
        }
    }
}

impl Readable for PlayerInfo {
    open spec fn height() -> nat {
        0
    }

    proof fn reads_back(v: PlayerInfoView, depth: nat) {
        let v0 = PlayerInfo::blank();
        let all = PlayerInfo::fields(v);
        let f1 = text_field(1, v.nick);
        let f2 = flag_field(2, v.ready);
        let f3 = number_field(3, v.rom_crc32 as u64);
        let f4 = text_field(4, v.rom_title);
        let f5 = number_field(5, v.seat as u64);
        let v1 = PlayerInfoView { nick: v.nick, ..v0 };
        let v2 = PlayerInfoView { ready: v.ready, ..v1 };
        let v3 = PlayerInfoView { rom_crc32: v.rom_crc32, ..v2 };
        let v4 = PlayerInfoView { rom_title: v.rom_title, ..v3 };
        let v5 = PlayerInfoView { seat: v.seat, ..v4 };
        lemma_text_reads_back(v.nick);
        lemma_merge_short::<PlayerInfo>(v0, f1, depth);
        assert(merge_all::<PlayerInfo>(v0, f1, depth) =~= Some(v1));
        lemma_merge_short::<PlayerInfo>(v1, f2, depth);
        assert(merge_all::<PlayerInfo>(v1, f2, depth) =~= Some(v2));
        lemma_merge_short::<PlayerInfo>(v2, f3, depth);
        assert(merge_all::<PlayerInfo>(v2, f3, depth) =~= Some(v3));
        lemma_text_reads_back(v.rom_title);
        lemma_merge_short::<PlayerInfo>(v3, f4, depth);
        assert(merge_all::<PlayerInfo>(v3, f4, depth) =~= Some(v4));
        lemma_merge_short::<PlayerInfo>(v4, f5, depth);
        assert(merge_all::<PlayerInfo>(v4, f5, depth) =~= Some(v5));
        lemma_merge_concat::<PlayerInfo>(v0, f1, f2, depth);
        lemma_merge_concat::<PlayerInfo>(v0, f1 + f2, f3, depth);
        lemma_merge_concat::<PlayerInfo>(v0, f1 + f2 + f3, f4, depth);
        lemma_merge_concat::<PlayerInfo>(v0, f1 + f2 + f3 + f4, f5, depth);
        assert(v5 =~= v);
    }
}

/// One member of a merge.
#[derive(Debug, Clone, PartialEq, Eq)]
pub struct StartPlayer {
    pub nick: String,
    pub rom_crc32: u32,
}

/// What a [`StartPlayer`] says.
#[verifier::ext_equal]
pub struct StartPlayerView {
    pub nick: Seq<char>,
    pub rom_crc32: u32,
}

impl View for StartPlayer {
    type V = StartPlayerView;

    open spec fn view(&self) -> StartPlayerView {
        StartPlayerView { nick: self.nick@, rom_crc32: self.rom_crc32 }
    }
}

impl Message for StartPlayer {
    open spec fn blank() -> StartPlayerView {
        StartPlayerView { nick: Seq::empty(), rom_crc32: 0 }
    }

    open spec fn fields(v: StartPlayerView) -> Seq<FieldView> {
        text_field(1, v.nick) + number_field(2, v.rom_crc32 as u64)
    }

    open spec fn merged(v: StartPlayerView, f: FieldView, depth: nat) -> Option<StartPlayerView> {
        if f.tag == 1 {
            match text_of(f) {
                Some(x) => Some(StartPlayerView { nick: x, ..v }),
                None => None,
            }
        } else if f.tag == 2 {
            match number_of(f) {
                Some(x) => Some(StartPlayerView { rom_crc32: x as u32, ..v }),
                None => None,
            }
        } else {
            Some(v)
        }
    }

    fn new_blank() -> (m: StartPlayer) {
        StartPlayer { nick: String::new(), rom_crc32: 0 }
    }

    fn put_fields(&self, out: &mut Vec<u8>) {
        put_text_field(out, 1, self.nick.as_str());
        put_number_field(out, 2, self.rom_crc32 as u64);
        proof {
            let v = self@;
            let f1 = text_field(1, v.nick);
            let f2 = number_field(2, v.rom_crc32 as u64);
            lemma_fields_bytes_concat(f1, f2);
            assert(out@ =~= old(out)@ + fields_bytes(StartPlayer::fields(v)));
        }
    }

    fn merge(&mut self, f: Field, _depth: u32) -> (ok: bool) {
        if f.tag == 1 {
            match field_text(f) {
                Some(x) => {
                    self.nick = x;
                    true
                },
                None => false,
            }
        } else if f.tag == 2 {
            match field_number(&f) {
                Some(x) => {
                    self.rom_crc32 = x as u32;
                    true
                },
                None => false,
            }
        } else {
            true
        }
    }
}

impl Readable for StartPlayer {
    open spec fn height() -> nat {
        0
    }

    proof fn reads_back(v: StartPlayerView, depth: nat) {
        let v0 = StartPlayer::blank();
        let all = StartPlayer::fields(v);
        let f1 = text_field(1, v.nick);
        let f2 = number_field(2, v.rom_crc32 as u64);
        let v1 = StartPlayerView { nick: v.nick, ..v0 };
        let v2 = StartPlayerView { rom_crc32: v.rom_crc32, ..v1 };
        lemma_text_reads_back(v.nick);
        lemma_merge_short::<StartPlayer>(v0, f1, depth);
        assert(merge_all::<StartPlayer>(v0, f1, depth) =~= Some(v1));
        lemma_merge_short::<StartPlayer>(v1, f2, depth);
        assert(merge_all::<StartPlayer>(v1, f2, depth) =~= Some(v2));
        lemma_merge_concat::<StartPlayer>(v0, f1, f2, depth);
        assert(v2 =~= v);
    }
}

/// Open a room.
#[derive(Debug, Clone, PartialEq, Eq)]
pub struct CreateRoom {
    pub protocol_version: u32,
    pub nick: String,
    pub rom_crc32: u32,
    pub rom_title: String,
    /// Over the wireless adapter rather than the link cable.
    pub wireless: bool,
}

/// What a [`CreateRoom`] says.
#[verifier::ext_equal]
pub struct CreateRoomView {
    pub protocol_version: u32,
    pub nick: Seq<char>,
    pub rom_crc32: u32,
    pub rom_title: Seq<char>,
    pub wireless: bool,
}

impl View for CreateRoom {
    type V = CreateRoomView;

    open spec fn view(&self) -> CreateRoomView {
        CreateRoomView {
            protocol_version: self.protocol_version,
            nick: self.nick@,
            rom_crc32: self.rom_crc32,
            rom_title: self.rom_title@,
            wireless: self.wireless,
        }
    }
}

impl Message for CreateRoom {
    open spec fn blank() -> CreateRoomView {
        CreateRoomView {
            protocol_version: 0,
            nick: Seq::empty(),
            rom_crc32: 0,
            rom_title: Seq::empty(),
            wireless: false,
        }
    }

    open spec fn fields(v: CreateRoomView) -> Seq<FieldView> {
        number_field(1, v.protocol_version as u64)
            + text_field(2, v.nick)
            + number_field(3, v.rom_crc32 as u64)
            + text_field(4, v.rom_title)
            + flag_field(5, v.wireless)
    }

    open spec fn merged(v: CreateRoomView, f: FieldView, depth: nat) -> Option<CreateRoomView> {
        if f.tag == 1 {
            match number_of(f) {
                Some(x) => Some(CreateRoomView { protocol_version: x as u32, ..v }),
                None => None,
            }
        } else if f.tag == 2 {
            match text_of(f) {
                Some(x) => Some(CreateRoomView { nick: x, ..v }),
                None => None,
            }
        } else if f.tag == 3 {
            match number_of(f) {
                Some(x) => Some(CreateRoomView { rom_crc32: x as u32, ..v }),
                None => None,
            }
        } else if f.tag == 4 {
            match text_of(f) {
                Some(x) => Some(CreateRoomView { rom_title: x, ..v }),
                None => None,
            }
        } else if f.tag == 5 {
            match number_of(f) {
                Some(x) => Some(CreateRoomView { wireless: x != 0, ..v }),
                None => None,
            }
        } else {
            Some(v)
        }
    }

    fn new_blank() -> (m: CreateRoom) {
        CreateRoom {
            protocol_version: 0,
            nick: String::new(),
            rom_crc32: 0,
            rom_title: String::new(),
            wireless: false,
        }
    }

    fn put_fields(&self, out: &mut Vec<u8>) {
        put_number_field(out, 1, self.protocol_version as u64);
        put_text_field(out, 2, self.nick.as_str());
        put_number_field(out, 3, self.rom_crc32 as u64);
        put_text_field(out, 4, self.rom_title.as_str());
        put_flag_field(out, 5, self.wireless);
        proof {
            let v = self@;
            let f1 = number_field(1, v.protocol_version as u64);
            let f2 = text_field(2, v.nick);
            let f3 = number_field(3, v.rom_crc32 as u64);
            let f4 = text_field(4, v.rom_title);
            let f5 = flag_field(5, v.wireless);
            lemma_fields_bytes_concat(f1, f2);
            lemma_fields_bytes_concat(f1 + f2, f3);
            lemma_fields_bytes_concat(f1 + f2 + f3, f4);
            lemma_fields_bytes_concat(f1 + f2 + f3 + f4, f5);
            assert(out@ =~= old(out)@ + fields_bytes(CreateRoom::fields(v)));
        }
    }

    fn merge(&mut self, f: Field, _depth: u32) -> (ok: bool) {
        if f.tag == 1 {
            match field_number(&f) {
                Some(x) => {
                    self.protocol_version = x as u32;
                    true
                },
                None => false,
            }
        } else if f.tag == 2 {
            match field_text(f) {
                Some(x) => {
                    self.nick = x;
                    true
                },
                None => false,
            }
        } else if f.tag == 3 {
            match field_number(&f) {
                Some(x) => {
                    self.rom_crc32 = x as u32;
                    true
                },
                None => false,
            }
        } else if f.tag == 4 {
            match field_text(f) {
                Some(x) => {
                    self.rom_title = x;
                    true
                },
                None => false,
            }
        } else if f.tag == 5 {
            match field_number(&f) {
                Some(x) => {
                    self.wireless = x != 0;
                    true
                },
                None => false,
            }
        } else {
            true
        }
    }
}

impl Readable for CreateRoom {
    open spec fn height() -> nat {
        0
    }

    proof fn reads_back(v: CreateRoomView, depth: nat) {
        let v0 = CreateRoom::blank();
        let all = CreateRoom::fields(v);
        let f1 = number_field(1, v.protocol_version as u64);
        let f2 = text_field(2, v.nick);
        let f3 = number_field(3, v.rom_crc32 as u64);
        let f4 = text_field(4, v.rom_title);
        let f5 = flag_field(5, v.wireless);
        let v1 = CreateRoomView { protocol_version: v.protocol_version, ..v0 };
        let v2 = CreateRoomView { nick: v.nick, ..v1 };
        let v3 = CreateRoomView { rom_crc32: v.rom_crc32, ..v2 };
        let v4 = CreateRoomView { rom_title: v.rom_title, ..v3 };
        let v5 = CreateRoomView { wireless: v.wireless, ..v4 };
        lemma_merge_short::<CreateRoom>(v0, f1, depth);
        assert(merge_all::<CreateRoom>(v0, f1, depth) =~= Some(v1));
        lemma_text_reads_back(v.nick);
        lemma_merge_short::<CreateRoom>(v1, f2, depth);
        assert(merge_all::<CreateRoom>(v1, f2, depth) =~= Some(v2));
        lemma_merge_short::<CreateRoom>(v2, f3, depth);
        assert(merge_all::<CreateRoom>(v2, f3, depth) =~= Some(v3));
        lemma_text_reads_back(v.rom_title);
        lemma_merge_short::<CreateRoom>(v3, f4, depth);
        assert(merge_all::<CreateRoom>(v3, f4, depth) =~= Some(v4));
        lemma_merge_short::<CreateRoom>(v4, f5, depth);
        assert(merge_all::<CreateRoom>(v4, f5, depth) =~= Some(v5));
        lemma_merge_concat::<CreateRoom>(v0, f1, f2, depth);
        lemma_merge_concat::<CreateRoom>(v0, f1 + f2, f3, depth);
        lemma_merge_concat::<CreateRoom>(v0, f1 + f2 + f3, f4, depth);
        lemma_merge_concat::<CreateRoom>(v0, f1 + f2 + f3 + f4, f5, depth);
        assert(v5 =~= v);
    }
}

/// Enter a room.
#[derive(Debug, Clone, PartialEq, Eq)]
pub struct JoinRoom {
    pub protocol_version: u32,
    pub code: String,
    pub nick: String,
    pub rom_crc32: u32,
    pub rom_title: String,
}

/// What a [`JoinRoom`] says.
#[verifier::ext_equal]
pub struct JoinRoomView {
    pub protocol_version: u32,
    pub code: Seq<char>,
    pub nick: Seq<char>,
    pub rom_crc32: u32,
    pub rom_title: Seq<char>,
}

impl View for JoinRoom {
    type V = JoinRoomView;

    open spec fn view(&self) -> JoinRoomView {
        JoinRoomView {
            protocol_version: self.protocol_version,
            code: self.code@,
            nick: self.nick@,
            rom_crc32: self.rom_crc32,
            rom_title: self.rom_title@,
        }
    }
}

impl Message for JoinRoom {
    open spec fn blank() -> JoinRoomView {
        JoinRoomView {
            protocol_version: 0,
            code: Seq::empty(),
            nick: Seq::empty(),
            rom_crc32: 0,
            rom_title: Seq::empty(),
        }
    }

    open spec fn fields(v: JoinRoomView) -> Seq<FieldView> {
        number_field(1, v.protocol_version as u64)
            + text_field(2, v.code)
            + text_field(3, v.nick)
            + number_field(4, v.rom_crc32 as u64)
            + text_field(5, v.rom_title)
    }

    open spec fn merged(v: JoinRoomView, f: FieldView, depth: nat) -> Option<JoinRoomView> {
        if f.tag == 1 {
            match number_of(f) {
                Some(x) => Some(JoinRoomView { protocol_version: x as u32, ..v }),
                None => None,
            }
        } else if f.tag == 2 {
            match text_of(f) {
                Some(x) => Some(JoinRoomView { code: x, ..v }),
                None => None,
            }
        } else if f.tag == 3 {
            match text_of(f) {
                Some(x) => Some(JoinRoomView { nick: x, ..v }),
                None => None,
            }
        } else if f.tag == 4 {
            match number_of(f) {
                Some(x) => Some(JoinRoomView { rom_crc32: x as u32, ..v }),
                None => None,
            }
        } else if f.tag == 5 {
            match text_of(f) {
                Some(x) => Some(JoinRoomView { rom_title: x, ..v }),
                None => None,
            }
        } else {
            Some(v)
        }
    }

    fn new_blank() -> (m: JoinRoom) {
        JoinRoom {
            protocol_version: 0,
            code: String::new(),
            nick: String::new(),
            rom_crc32: 0,
            rom_title: String::new(),
        }
    }

    fn put_fields(&self, out: &mut Vec<u8>) {
        put_number_field(out, 1, self.protocol_version as u64);
        put_text_field(out, 2, self.code.as_str());
        put_text_field(out, 3, self.nick.as_str());
        put_number_field(out, 4, self.rom_crc32 as u64);
        put_text_field(out, 5, self.rom_title.as_str());
        proof {
            let v = self@;
            let f1 = number_field(1, v.protocol_version as u64);
            let f2 = text_field(2, v.code);
            let f3 = text_field(3, v.nick);
            let f4 = number_field(4, v.rom_crc32 as u64);
            let f5 = text_field(5, v.rom_title);
            lemma_fields_bytes_concat(f1, f2);
            lemma_fields_bytes_concat(f1 + f2, f3);
            lemma_fields_bytes_concat(f1 + f2 + f3, f4);
            lemma_fields_bytes_concat(f1 + f2 + f3 + f4, f5);
            assert(out@ =~= old(out)@ + fields_bytes(JoinRoom::fields(v)));
        }
    }

    fn merge(&mut self, f: Field, _depth: u32) -> (ok: bool) {
        if f.tag == 1 {
            match field_number(&f) {
                Some(x) => {
                    self.protocol_version = x as u32;
                    true
                },
                None => false,
            }
        } else if f.tag == 2 {
            match field_text(f) {
                Some(x) => {
                    self.code = x;
                    true
                },
                None => false,
            }
        } else if f.tag == 3 {
            match field_text(f) {
                Some(x) => {
                    self.nick = x;
                    true
                },
                None => false,
            }
        } else if f.tag == 4 {
            match field_number(&f) {
                Some(x) => {
                    self.rom_crc32 = x as u32;
                    true
                },
                None => false,
            }
        } else if f.tag == 5 {
            match field_text(f) {
                Some(x) => {
                    self.rom_title = x;
                    true
                },
                None => false,
            }
        } else {
            true
        }
    }
}

impl Readable for JoinRoom {
    open spec fn height() -> nat {
        0
    }

    proof fn reads_back(v: JoinRoomView, depth: nat) {
        let v0 = JoinRoom::blank();
        let all = JoinRoom::fields(v);
        let f1 = number_field(1, v.protocol_version as u64);
        let f2 = text_field(2, v.code);
        let f3 = text_field(3, v.nick);
        let f4 = number_field(4, v.rom_crc32 as u64);
        let f5 = text_field(5, v.rom_title);
        let v1 = JoinRoomView { protocol_version: v.protocol_version, ..v0 };
        let v2 = JoinRoomView { code: v.code, ..v1 };
        let v3 = JoinRoomView { nick: v.nick, ..v2 };
        let v4 = JoinRoomView { rom_crc32: v.rom_crc32, ..v3 };
        let v5 = JoinRoomView { rom_title: v.rom_title, ..v4 };
        lemma_merge_short::<JoinRoom>(v0, f1, depth);
        assert(merge_all::<JoinRoom>(v0, f1, depth) =~= Some(v1));
        lemma_text_reads_back(v.code);
        lemma_merge_short::<JoinRoom>(v1, f2, depth);
        assert(merge_all::<JoinRoom>(v1, f2, depth) =~= Some(v2));
        lemma_text_reads_back(v.nick);
        lemma_merge_short::<JoinRoom>(v2, f3, depth);
        assert(merge_all::<JoinRoom>(v2, f3, depth) =~= Some(v3));
        lemma_merge_short::<JoinRoom>(v3, f4, depth);
        assert(merge_all::<JoinRoom>(v3, f4, depth) =~= Some(v4));
        lemma_text_reads_back(v.rom_title);
        lemma_merge_short::<JoinRoom>(v4, f5, depth);
        assert(merge_all::<JoinRoom>(v4, f5, depth) =~= Some(v5));
        lemma_merge_concat::<JoinRoom>(v0, f1, f2, depth);
        lemma_merge_concat::<JoinRoom>(v0, f1 + f2, f3, depth);
        lemma_merge_concat::<JoinRoom>(v0, f1 + f2 + f3, f4, depth);
        lemma_merge_concat::<JoinRoom>(v0, f1 + f2 + f3 + f4, f5, depth);
        assert(v5 =~= v);
    }
}

/// Report whether this side holds every ROM in the roster.
#[derive(Debug, Clone, PartialEq, Eq)]
pub struct SetReady {
    pub ready: bool,
}

/// What a [`SetReady`] says.
#[verifier::ext_equal]
pub struct SetReadyView {
    pub ready: bool,
}

impl View for SetReady {
    type V = SetReadyView;

    open spec fn view(&self) -> SetReadyView {
        SetReadyView { ready: self.ready }
    }
}

impl Message for SetReady {
    open spec fn blank() -> SetReadyView {
        SetReadyView { ready: false }
    }

    open spec fn fields(v: SetReadyView) -> Seq<FieldView> {
        flag_field(1, v.ready)
    }

    open spec fn merged(v: SetReadyView, f: FieldView, depth: nat) -> Option<SetReadyView> {
        if f.tag == 1 {
            match number_of(f) {
                Some(x) => Some(SetReadyView { ready: x != 0 }),
                None => None,
            }
        } else {
            Some(v)
        }
    }

    fn new_blank() -> (m: SetReady) {
        SetReady { ready: false }
    }

    fn put_fields(&self, out: &mut Vec<u8>) {
        put_flag_field(out, 1, self.ready);
    }

    fn merge(&mut self, f: Field, _depth: u32) -> (ok: bool) {
        if f.tag == 1 {
            match field_number(&f) {
                Some(x) => {
                    self.ready = x != 0;
                    true
                },
                None => false,
            }
        } else {
            true
        }
    }
}

impl Readable for SetReady {
    open spec fn height() -> nat {
        0
    }

    proof fn reads_back(v: SetReadyView, depth: nat) {
        let v0 = SetReady::blank();
        let all = SetReady::fields(v);
        let f1 = flag_field(1, v.ready);
        let v1 = SetReadyView { ready: v.ready };
        lemma_merge_short::<SetReady>(v0, f1, depth);
        assert(merge_all::<SetReady>(v0, f1, depth) =~= Some(v1));
        assert(v1 =~= v);
    }
}

/// Link the room up.
#[derive(Debug, Clone, PartialEq, Eq)]
pub struct Start {
}

/// What a [`Start`] says.
#[verifier::ext_equal]
pub struct StartView {
}

impl View for Start {
    type V = StartView;

    open spec fn view(&self) -> StartView {
        StartView {}
    }
}

impl Message for Start {
    open spec fn blank() -> StartView {
        StartView {}
    }

    open spec fn fields(v: StartView) -> Seq<FieldView> {
        Seq::<FieldView>::empty()
    }

    open spec fn merged(v: StartView, f: FieldView, depth: nat) -> Option<StartView> {
        Some(v)
    }

    fn new_blank() -> (m: Start) {
        Start {}
    }

    fn put_fields(&self, out: &mut Vec<u8>) {
        assert(out@ =~= old(out)@ + fields_bytes(Start::fields(self@)));
    }

    fn merge(&mut self, f: Field, _depth: u32) -> (ok: bool) {
        true
    }
}

impl Readable for Start {
    open spec fn height() -> nat {
        0
    }

    proof fn reads_back(v: StartView, depth: nat) {
        assert(v =~= Start::blank());
    }
}

/// A payload for one peer, or from one.
#[derive(Debug, Clone, PartialEq, Eq)]
pub struct Signal {
    /// The player it goes to or came from.
    pub peer: u32,
    pub payload: Vec<u8>,
}

/// What a [`Signal`] says.
#[verifier::ext_equal]
pub struct SignalView {
    pub peer: u32,
    pub payload: Seq<u8>,
}

impl View for Signal {
    type V = SignalView;

    open spec fn view(&self) -> SignalView {
        SignalView { peer: self.peer, payload: self.payload@ }
    }
}

impl Message for Signal {
    open spec fn blank() -> SignalView {
        SignalView { peer: 0, payload: Seq::empty() }
    }

    open spec fn fields(v: SignalView) -> Seq<FieldView> {
        number_field(1, v.peer as u64) + bytes_field(2, v.payload)
    }

    open spec fn merged(v: SignalView, f: FieldView, depth: nat) -> Option<SignalView> {
        if f.tag == 1 {
            match number_of(f) {
                Some(x) => Some(SignalView { peer: x as u32, ..v }),
                None => None,
            }
        } else if f.tag == 2 {
            match bytes_of(f) {
                Some(x) => Some(SignalView { payload: x, ..v }),
                None => None,
            }
        } else {
            Some(v)
        }
    }

    fn new_blank() -> (m: Signal) {
        Signal { peer: 0, payload: Vec::new() }
    }

    fn put_fields(&self, out: &mut Vec<u8>) {
        put_number_field(out, 1, self.peer as u64);
        put_bytes_field(out, 2, self.payload.as_slice());
        proof {
            let v = self@;
            let f1 = number_field(1, v.peer as u64);
            let f2 = bytes_field(2, v.payload);
            lemma_fields_bytes_concat(f1, f2);
            assert(out@ =~= old(out)@ + fields_bytes(Signal::fields(v)));
        }
    }

    fn merge(&mut self, f: Field, _depth: u32) -> (ok: bool) {
        if f.tag == 1 {
            match field_number(&f) {
                Some(x) => {
                    self.peer = x as u32;
                    true
                },
                None => false,
            }
        } else if f.tag == 2 {
            match field_bytes_value(f) {
                Some(x) => {
                    self.payload = x;
                    true
                },
                None => false,
            }
        } else {
            true
        }
    }
}

impl Readable for Signal {
    open spec fn height() -> nat {
        0
    }

    proof fn reads_back(v: SignalView, depth: nat) {
        let v0 = Signal::blank();
        let all = Signal::fields(v);
        let f1 = number_field(1, v.peer as u64);
        let f2 = bytes_field(2, v.payload);
        let v1 = SignalView { peer: v.peer, ..v0 };
        let v2 = SignalView { payload: v.payload, ..v1 };
        lemma_merge_short::<Signal>(v0, f1, depth);
        assert(merge_all::<Signal>(v0, f1, depth) =~= Some(v1));
        lemma_merge_short::<Signal>(v1, f2, depth);
        assert(merge_all::<Signal>(v1, f2, depth) =~= Some(v2));
        lemma_merge_concat::<Signal>(v0, f1, f2, depth);
        assert(v2 =~= v);
    }
}

/// Walk out of the room.
#[derive(Debug, Clone, PartialEq, Eq)]
pub struct Leave {
}

/// What a [`Leave`] says.
#[verifier::ext_equal]
pub struct LeaveView {
}

impl View for Leave {
    type V = LeaveView;

    open spec fn view(&self) -> LeaveView {
        LeaveView {}
    }
}

impl Message for Leave {
    open spec fn blank() -> LeaveView {
        LeaveView {}
    }

    open spec fn fields(v: LeaveView) -> Seq<FieldView> {
        Seq::<FieldView>::empty()
    }

    open spec fn merged(v: LeaveView, f: FieldView, depth: nat) -> Option<LeaveView> {
        Some(v)
    }

    fn new_blank() -> (m: Leave) {
        Leave {}
    }

    fn put_fields(&self, out: &mut Vec<u8>) {
        assert(out@ =~= old(out)@ + fields_bytes(Leave::fields(self@)));
    }

    fn merge(&mut self, f: Field, _depth: u32) -> (ok: bool) {
        true
    }
}

impl Readable for Leave {
    open spec fn height() -> nat {
        0
    }

    proof fn reads_back(v: LeaveView, depth: nat) {
        assert(v =~= Leave::blank());
    }
}

/// Throw a player out of the room.
#[derive(Debug, Clone, PartialEq, Eq)]
pub struct KickPlayer {
    /// Their seat token.
    pub seat: u32,
}

/// What a [`KickPlayer`] says.
#[verifier::ext_equal]
pub struct KickPlayerView {
    pub seat: u32,
}

impl View for KickPlayer {
    type V = KickPlayerView;

    open spec fn view(&self) -> KickPlayerView {
        KickPlayerView { seat: self.seat }
    }
}

impl Message for KickPlayer {
    open spec fn blank() -> KickPlayerView {
        KickPlayerView { seat: 0 }
    }

    open spec fn fields(v: KickPlayerView) -> Seq<FieldView> {
        number_field(1, v.seat as u64)
    }

    open spec fn merged(v: KickPlayerView, f: FieldView, depth: nat) -> Option<KickPlayerView> {
        if f.tag == 1 {
            match number_of(f) {
                Some(x) => Some(KickPlayerView { seat: x as u32 }),
                None => None,
            }
        } else {
            Some(v)
        }
    }

    fn new_blank() -> (m: KickPlayer) {
        KickPlayer { seat: 0 }
    }

    fn put_fields(&self, out: &mut Vec<u8>) {
        put_number_field(out, 1, self.seat as u64);
    }

    fn merge(&mut self, f: Field, _depth: u32) -> (ok: bool) {
        if f.tag == 1 {
            match field_number(&f) {
                Some(x) => {
                    self.seat = x as u32;
                    true
                },
                None => false,
            }
        } else {
            true
        }
    }
}

impl Readable for KickPlayer {
    open spec fn height() -> nat {
        0
    }

    proof fn reads_back(v: KickPlayerView, depth: nat) {
        let v0 = KickPlayer::blank();
        let all = KickPlayer::fields(v);
        let f1 = number_field(1, v.seat as u64);
        let v1 = KickPlayerView { seat: v.seat };
        lemma_merge_short::<KickPlayer>(v0, f1, depth);
        assert(merge_all::<KickPlayer>(v0, f1, depth) =~= Some(v1));
        assert(v1 =~= v);
    }
}

/// The server's greeting.
#[derive(Debug, Clone, PartialEq, Eq)]
pub struct Hello {
    /// The servers the mesh should use.
    pub ice_servers: Vec<IceServer>,
}

/// What a [`Hello`] says.
#[verifier::ext_equal]
pub struct HelloView {
    pub ice_servers: Seq<IceServerView>,
}

impl View for Hello {
    type V = HelloView;

    open spec fn view(&self) -> HelloView {
        HelloView { ice_servers: ice_servers_view(self.ice_servers@) }
    }
}

/// What a list of them says, in order.
pub open spec fn ice_servers_view(s: Seq<IceServer>) -> Seq<IceServerView> {
    s.map_values(|e: IceServer| e@)
}

/// One field per entry, in order.
pub open spec fn ice_servers_field(tag: u32, s: Seq<IceServerView>) -> Seq<FieldView> {
    s.map_values(|e: IceServerView| bytes_entry(tag, encoded::<IceServer>(e)))
}

fn put_ice_servers_field(out: &mut Vec<u8>, tag: u32, s: &Vec<IceServer>)
    requires
        1 <= tag <= MAX_TAG,
    ensures
        final(out)@ == old(out)@ + fields_bytes(ice_servers_field(tag, ice_servers_view(s@))),
{
    let ghost all = ice_servers_view(s@);
    let mut i: usize = 0;
    proof {
        assert(ice_servers_field(tag, all.take(0)) =~= Seq::<FieldView>::empty());
    }
    while i < s.len()
        invariant
            i <= s@.len(),
            1 <= tag <= MAX_TAG,
            all == ice_servers_view(s@),
            out@ == old(out)@ + fields_bytes(ice_servers_field(tag, all.take(i as int))),
        decreases s@.len() - i,
    {
        put_message(out, tag, &s[i]);
        proof {
            let head = ice_servers_field(tag, all.take(i as int));
            let one = seq![bytes_entry(tag, encoded::<IceServer>(all[i as int]))];
            assert(ice_servers_field(tag, all.take(i + 1)) =~= head + one);
            lemma_fields_bytes_concat(head, one);
            assert(out@ =~= old(out)@ + fields_bytes(ice_servers_field(tag, all.take(i + 1))));
        }
        i = i + 1;
    }
    proof {
        assert(all.take(i as int) =~= all);
    }
}

impl Message for Hello {
    open spec fn blank() -> HelloView {
        HelloView { ice_servers: Seq::empty() }
    }

    open spec fn fields(v: HelloView) -> Seq<FieldView> {
        ice_servers_field(1, v.ice_servers)
    }

    open spec fn merged(v: HelloView, f: FieldView, depth: nat) -> Option<HelloView> {
        if f.tag == 1 {
            match part_of::<IceServer>(IceServer::blank(), f, depth) {
                Some(x) => Some(HelloView { ice_servers: v.ice_servers.push(x) }),
                None => None,
            }
        } else {
            Some(v)
        }
    }

    fn new_blank() -> (m: Hello) {
        let m = Hello { ice_servers: Vec::new() };
        assert(m@ =~= Hello::blank());
        m
    }

    fn put_fields(&self, out: &mut Vec<u8>) {
        put_ice_servers_field(out, 1, &self.ice_servers);
    }

    fn merge(&mut self, f: Field, depth: u32) -> (ok: bool) {
        if f.tag == 1 {
            match merge_part(IceServer::new_blank(), f, depth) {
                Some(x) => {
                    let ghost before = self.ice_servers@;
                    self.ice_servers.push(x);
                    assert(ice_servers_view(self.ice_servers@) =~= ice_servers_view(before).push(x@));
                    true
                },
                None => false,
            }
        } else {
            true
        }
    }
}

/// Entries read one after the other end up in order.
proof fn lemma_hello_ice_servers(v: HelloView, s: Seq<IceServerView>, depth: nat)
    requires
        depth < MAX_DEPTH,
        forall|i: int|
            0 <= i < s.len() ==> (#[trigger] encoded::<IceServer>(s[i])).len() <= u64::MAX,
    ensures
        merge_all::<Hello>(v, ice_servers_field(1, s), depth) == Some(
            HelloView { ice_servers: v.ice_servers + s },
        ),
    decreases s.len(),
{
    let fs = ice_servers_field(1, s);
    if s.len() == 0 {
        assert(v.ice_servers + s =~= v.ice_servers);
    } else {
        let head = s.drop_last();
        let last = s.last();
        assert forall|i: int| 0 <= i < head.len() implies (#[trigger] encoded::<IceServer>(
            head[i],
        )).len() <= u64::MAX by {
            assert(head[i] == s[i]);
        }
        assert(encoded::<IceServer>(s[s.len() - 1]).len() <= u64::MAX);
        lemma_hello_ice_servers(v, head, depth);
        let mid = HelloView { ice_servers: v.ice_servers + head };
        let one = seq![fs[s.len() - 1]];
        assert(fs =~= ice_servers_field(1, head) + one);
        lemma_merge_concat::<Hello>(v, ice_servers_field(1, head), one, depth);
        lemma_merge_short::<Hello>(mid, one, depth);
        lemma_reads_back_at::<IceServer>(last, depth + 1);
        assert(mid.ice_servers.push(last) =~= v.ice_servers + s);
    }
}

impl Readable for Hello {
    open spec fn height() -> nat {
        1
    }

    proof fn reads_back(v: HelloView, depth: nat) {
        let v0 = Hello::blank();
        let all = Hello::fields(v);
        let f1 = ice_servers_field(1, v.ice_servers);
        let v1 = HelloView { ice_servers: v.ice_servers };
        assert forall|i: int| 0 <= i < v.ice_servers.len() implies (#[trigger] encoded::<IceServer>(
            v.ice_servers[i],
        )).len() <= u64::MAX by {
            assert(all[i] == bytes_entry(1, encoded::<IceServer>(v.ice_servers[i])));
            lemma_field_within(all, i);
        }
        lemma_hello_ice_servers(v0, v.ice_servers, depth);
        assert(v0.ice_servers + v.ice_servers =~= v.ice_servers);
        assert(merge_all::<Hello>(v0, f1, depth) =~= Some(v1));
        assert(v1 =~= v);
    }
}

/// The room stands.
#[derive(Debug, Clone, PartialEq, Eq)]
pub struct RoomCreated {
    pub code: String,
}

/// What a [`RoomCreated`] says.
#[verifier::ext_equal]
pub struct RoomCreatedView {
    pub code: Seq<char>,
}

impl View for RoomCreated {
    type V = RoomCreatedView;

    open spec fn view(&self) -> RoomCreatedView {
        RoomCreatedView { code: self.code@ }
    }
}

impl Message for RoomCreated {
    open spec fn blank() -> RoomCreatedView {
        RoomCreatedView { code: Seq::empty() }
    }

    open spec fn fields(v: RoomCreatedView) -> Seq<FieldView> {
        text_field(1, v.code)
    }

    open spec fn merged(v: RoomCreatedView, f: FieldView, depth: nat) -> Option<RoomCreatedView> {
        if f.tag == 1 {
            match text_of(f) {
                Some(x) => Some(RoomCreatedView { code: x }),
                None => None,
            }
        } else {
            Some(v)
        }
    }

    fn new_blank() -> (m: RoomCreated) {
        RoomCreated { code: String::new() }
    }

    fn put_fields(&self, out: &mut Vec<u8>) {
        put_text_field(out, 1, self.code.as_str());
    }

    fn merge(&mut self, f: Field, _depth: u32) -> (ok: bool) {
        if f.tag == 1 {
            match field_text(f) {
                Some(x) => {
                    self.code = x;
                    true
                },
                None => false,
            }
        } else {
            true
        }
    }
}

impl Readable for RoomCreated {
    open spec fn height() -> nat {
        0
    }

    proof fn reads_back(v: RoomCreatedView, depth: nat) {
        let v0 = RoomCreated::blank();
        let all = RoomCreated::fields(v);
        let f1 = text_field(1, v.code);
        let v1 = RoomCreatedView { code: v.code };
        lemma_text_reads_back(v.code);
        lemma_merge_short::<RoomCreated>(v0, f1, depth);
        assert(merge_all::<RoomCreated>(v0, f1, depth) =~= Some(v1));
        assert(v1 =~= v);
    }
}

/// The room is entered.
#[derive(Debug, Clone, PartialEq, Eq)]
pub struct RoomJoined {
    pub code: String,
}

/// What a [`RoomJoined`] says.
#[verifier::ext_equal]
pub struct RoomJoinedView {
    pub code: Seq<char>,
}

impl View for RoomJoined {
    type V = RoomJoinedView;

    open spec fn view(&self) -> RoomJoinedView {
        RoomJoinedView { code: self.code@ }
    }
}

impl Message for RoomJoined {
    open spec fn blank() -> RoomJoinedView {
        RoomJoinedView { code: Seq::empty() }
    }

    open spec fn fields(v: RoomJoinedView) -> Seq<FieldView> {
        text_field(1, v.code)
    }

    open spec fn merged(v: RoomJoinedView, f: FieldView, depth: nat) -> Option<RoomJoinedView> {
        if f.tag == 1 {
            match text_of(f) {
                Some(x) => Some(RoomJoinedView { code: x }),
                None => None,
            }
        } else {
            Some(v)
        }
    }

    fn new_blank() -> (m: RoomJoined) {
        RoomJoined { code: String::new() }
    }

    fn put_fields(&self, out: &mut Vec<u8>) {
        put_text_field(out, 1, self.code.as_str());
    }

    fn merge(&mut self, f: Field, _depth: u32) -> (ok: bool) {
        if f.tag == 1 {
            match field_text(f) {
                Some(x) => {
                    self.code = x;
                    true
                },
                None => false,
            }
        } else {
            true
        }
    }
}

impl Readable for RoomJoined {
    open spec fn height() -> nat {
        0
    }

    proof fn reads_back(v: RoomJoinedView, depth: nat) {
        let v0 = RoomJoined::blank();
        let all = RoomJoined::fields(v);
        let f1 = text_field(1, v.code);
        let v1 = RoomJoinedView { code: v.code };
        lemma_text_reads_back(v.code);
        lemma_merge_short::<RoomJoined>(v0, f1, depth);
        assert(merge_all::<RoomJoined>(v0, f1, depth) =~= Some(v1));
        assert(v1 =~= v);
    }
}

/// Who is in the room.
#[derive(Debug, Clone, PartialEq, Eq)]
pub struct Roster {
    pub players: Vec<PlayerInfo>,
    /// The receiver's own position.
    pub your_idx: u32,
    pub wireless: bool,
}

/// What a [`Roster`] says.
#[verifier::ext_equal]
pub struct RosterView {
    pub players: Seq<PlayerInfoView>,
    pub your_idx: u32,
    pub wireless: bool,
}

impl View for Roster {
    type V = RosterView;

    open spec fn view(&self) -> RosterView {
        RosterView {
            players: player_infos_view(self.players@),
            your_idx: self.your_idx,
            wireless: self.wireless,
        }
    }
}

/// What a list of them says, in order.
pub open spec fn player_infos_view(s: Seq<PlayerInfo>) -> Seq<PlayerInfoView> {
    s.map_values(|e: PlayerInfo| e@)
}

/// One field per entry, in order.
pub open spec fn player_infos_field(tag: u32, s: Seq<PlayerInfoView>) -> Seq<FieldView> {
    s.map_values(|e: PlayerInfoView| bytes_entry(tag, encoded::<PlayerInfo>(e)))
}

fn put_player_infos_field(out: &mut Vec<u8>, tag: u32, s: &Vec<PlayerInfo>)
    requires
        1 <= tag <= MAX_TAG,
    ensures
        final(out)@ == old(out)@ + fields_bytes(player_infos_field(tag, player_infos_view(s@))),
{
    let ghost all = player_infos_view(s@);
    let mut i: usize = 0;
    proof {
        assert(player_infos_field(tag, all.take(0)) =~= Seq::<FieldView>::empty());
    }
    while i < s.len()
        invariant
            i <= s@.len(),
            1 <= tag <= MAX_TAG,
            all == player_infos_view(s@),
            out@ == old(out)@ + fields_bytes(player_infos_field(tag, all.take(i as int))),
        decreases s@.len() - i,
    {
        put_message(out, tag, &s[i]);
        proof {
            let head = player_infos_field(tag, all.take(i as int));
            let one = seq![bytes_entry(tag, encoded::<PlayerInfo>(all[i as int]))];
            assert(player_infos_field(tag, all.take(i + 1)) =~= head + one);
            lemma_fields_bytes_concat(head, one);
            assert(out@ =~= old(out)@ + fields_bytes(player_infos_field(tag, all.take(i + 1))));
        }
        i = i + 1;
    }
    proof {
        assert(all.take(i as int) =~= all);
    }
}

impl Message for Roster {
    open spec fn blank() -> RosterView {
        RosterView { players: Seq::empty(), your_idx: 0, wireless: false }
    }

    open spec fn fields(v: RosterView) -> Seq<FieldView> {
        player_infos_field(1, v.players)
            + number_field(2, v.your_idx as u64)
            + flag_field(3, v.wireless)
    }

    open spec fn merged(v: RosterView, f: FieldView, depth: nat) -> Option<RosterView> {
        if f.tag == 1 {
            match part_of::<PlayerInfo>(PlayerInfo::blank(), f, depth) {
                Some(x) => Some(RosterView { players: v.players.push(x), ..v }),
                None => None,
            }
        } else if f.tag == 2 {
            match number_of(f) {
                Some(x) => Some(RosterView { your_idx: x as u32, ..v }),
                None => None,
            }
        } else if f.tag == 3 {
            match number_of(f) {
                Some(x) => Some(RosterView { wireless: x != 0, ..v }),
                None => None,
            }
        } else {
            Some(v)
        }
    }

    fn new_blank() -> (m: Roster) {
        let m = Roster { players: Vec::new(), your_idx: 0, wireless: false };
        assert(m@ =~= Roster::blank());
        m
    }

    fn put_fields(&self, out: &mut Vec<u8>) {
        put_player_infos_field(out, 1, &self.players);
        put_number_field(out, 2, self.your_idx as u64);
        put_flag_field(out, 3, self.wireless);
        proof {
            let v = self@;
            let f1 = player_infos_field(1, v.players);
            let f2 = number_field(2, v.your_idx as u64);
            let f3 = flag_field(3, v.wireless);
            lemma_fields_bytes_concat(f1, f2);
            lemma_fields_bytes_concat(f1 + f2, f3);
            assert(out@ =~= old(out)@ + fields_bytes(Roster::fields(v)));
        }
    }

    fn merge(&mut self, f: Field, depth: u32) -> (ok: bool) {
        if f.tag == 1 {
            match merge_part(PlayerInfo::new_blank(), f, depth) {
                Some(x) => {
                    let ghost before = self.players@;
                    self.players.push(x);
                    assert(player_infos_view(self.players@) =~= player_infos_view(before).push(x@));
                    true
                },
                None => false,
            }
        } else if f.tag == 2 {
            match field_number(&f) {
                Some(x) => {
                    self.your_idx = x as u32;
                    true
                },
                None => false,
            }
        } else if f.tag == 3 {
            match field_number(&f) {
                Some(x) => {
                    self.wireless = x != 0;
                    true
                },
                None => false,
            }
        } else {
            true
        }
    }
}

/// Entries read one after the other end up in order.
proof fn lemma_roster_players(v: RosterView, s: Seq<PlayerInfoView>, depth: nat)
    requires
        depth < MAX_DEPTH,
        forall|i: int|
            0 <= i < s.len() ==> (#[trigger] encoded::<PlayerInfo>(s[i])).len() <= u64::MAX,
    ensures
        merge_all::<Roster>(v, player_infos_field(1, s), depth) == Some(
            RosterView { players: v.players + s, ..v },
        ),
    decreases s.len(),
{
    let fs = player_infos_field(1, s);
    if s.len() == 0 {
        assert(v.players + s =~= v.players);
    } else {
        let head = s.drop_last();
        let last = s.last();
        assert forall|i: int| 0 <= i < head.len() implies (#[trigger] encoded::<PlayerInfo>(
            head[i],
        )).len() <= u64::MAX by {
            assert(head[i] == s[i]);
        }
        assert(encoded::<PlayerInfo>(s[s.len() - 1]).len() <= u64::MAX);
        lemma_roster_players(v, head, depth);
        let mid = RosterView { players: v.players + head, ..v };
        let one = seq![fs[s.len() - 1]];
        assert(fs =~= player_infos_field(1, head) + one);
        lemma_merge_concat::<Roster>(v, player_infos_field(1, head), one, depth);
        lemma_merge_short::<Roster>(mid, one, depth);
        lemma_reads_back_at::<PlayerInfo>(last, depth + 1);
        assert(mid.players.push(last) =~= v.players + s);
    }
}

impl Readable for Roster {
    open spec fn height() -> nat {
        1
    }

    proof fn reads_back(v: RosterView, depth: nat) {
        let v0 = Roster::blank();
        let all = Roster::fields(v);
        let f1 = player_infos_field(1, v.players);
        let f2 = number_field(2, v.your_idx as u64);
        let f3 = flag_field(3, v.wireless);
        let v1 = RosterView { players: v.players, ..v0 };
        let v2 = RosterView { your_idx: v.your_idx, ..v1 };
        let v3 = RosterView { wireless: v.wireless, ..v2 };
        assert forall|i: int| 0 <= i < v.players.len() implies (#[trigger] encoded::<PlayerInfo>(
            v.players[i],
        )).len() <= u64::MAX by {
            assert(all[i] == bytes_entry(1, encoded::<PlayerInfo>(v.players[i])));
            lemma_field_within(all, i);
        }
        lemma_roster_players(v0, v.players, depth);
        assert(v0.players + v.players =~= v.players);
        assert(merge_all::<Roster>(v0, f1, depth) =~= Some(v1));
        lemma_merge_short::<Roster>(v1, f2, depth);
        assert(merge_all::<Roster>(v1, f2, depth) =~= Some(v2));
        lemma_merge_short::<Roster>(v2, f3, depth);
        assert(merge_all::<Roster>(v2, f3, depth) =~= Some(v3));
        lemma_merge_concat::<Roster>(v0, f1, f2, depth);
        lemma_merge_concat::<Roster>(v0, f1 + f2, f3, depth);
        assert(v3 =~= v);
    }
}

/// A merge is beginning.
#[derive(Debug, Clone, PartialEq, Eq)]
pub struct Starting {
    pub players: Vec<StartPlayer>,
    /// The receiver's own position.
    pub your_idx: u32,
}

/// What a [`Starting`] says.
#[verifier::ext_equal]
pub struct StartingView {
    pub players: Seq<StartPlayerView>,
    pub your_idx: u32,
}

impl View for Starting {
    type V = StartingView;

    open spec fn view(&self) -> StartingView {
        StartingView { players: start_players_view(self.players@), your_idx: self.your_idx }
    }
}

/// What a list of them says, in order.
pub open spec fn start_players_view(s: Seq<StartPlayer>) -> Seq<StartPlayerView> {
    s.map_values(|e: StartPlayer| e@)
}

/// One field per entry, in order.
pub open spec fn start_players_field(tag: u32, s: Seq<StartPlayerView>) -> Seq<FieldView> {
    s.map_values(|e: StartPlayerView| bytes_entry(tag, encoded::<StartPlayer>(e)))
}

fn put_start_players_field(out: &mut Vec<u8>, tag: u32, s: &Vec<StartPlayer>)
    requires
        1 <= tag <= MAX_TAG,
    ensures
        final(out)@ == old(out)@ + fields_bytes(start_players_field(tag, start_players_view(s@))),
{
    let ghost all = start_players_view(s@);
    let mut i: usize = 0;
    proof {
        assert(start_players_field(tag, all.take(0)) =~= Seq::<FieldView>::empty());
    }
    while i < s.len()
        invariant
            i <= s@.len(),
            1 <= tag <= MAX_TAG,
            all == start_players_view(s@),
            out@ == old(out)@ + fields_bytes(start_players_field(tag, all.take(i as int))),
        decreases s@.len() - i,
    {
        put_message(out, tag, &s[i]);
        proof {
            let head = start_players_field(tag, all.take(i as int));
            let one = seq![bytes_entry(tag, encoded::<StartPlayer>(all[i as int]))];
            assert(start_players_field(tag, all.take(i + 1)) =~= head + one);
            lemma_fields_bytes_concat(head, one);
            assert(out@ =~= old(out)@ + fields_bytes(start_players_field(tag, all.take(i + 1))));
        }
        i = i + 1;
    }
    proof {
        assert(all.take(i as int) =~= all);
    }
}

impl Message for Starting {
    open spec fn blank() -> StartingView {
        StartingView { players: Seq::empty(), your_idx: 0 }
    }

    open spec fn fields(v: StartingView) -> Seq<FieldView> {
        start_players_field(1, v.players) + number_field(2, v.your_idx as u64)
    }

    open spec fn merged(v: StartingView, f: FieldView, depth: nat) -> Option<StartingView> {
        if f.tag == 1 {
            match part_of::<StartPlayer>(StartPlayer::blank(), f, depth) {
                Some(x) => Some(StartingView { players: v.players.push(x), ..v }),
                None => None,
            }
        } else if f.tag == 2 {
            match number_of(f) {
                Some(x) => Some(StartingView { your_idx: x as u32, ..v }),
                None => None,
            }
        } else {
            Some(v)
        }
    }

    fn new_blank() -> (m: Starting) {
        let m = Starting { players: Vec::new(), your_idx: 0 };
        assert(m@ =~= Starting::blank());
        m
    }

    fn put_fields(&self, out: &mut Vec<u8>) {
        put_start_players_field(out, 1, &self.players);
        put_number_field(out, 2, self.your_idx as u64);
        proof {
            let v = self@;
            let f1 = start_players_field(1, v.players);
            let f2 = number_field(2, v.your_idx as u64);
            lemma_fields_bytes_concat(f1, f2);
            assert(out@ =~= old(out)@ + fields_bytes(Starting::fields(v)));
        }
    }

    fn merge(&mut self, f: Field, depth: u32) -> (ok: bool) {
        if f.tag == 1 {
            match merge_part(StartPlayer::new_blank(), f, depth) {
                Some(x) => {
                    let ghost before = self.players@;
                    self.players.push(x);
                    assert(start_players_view(self.players@) =~= start_players_view(before).push(x@));
                    true
                },
                None => false,
            }
        } else if f.tag == 2 {
            match field_number(&f) {
                Some(x) => {
                    self.your_idx = x as u32;
                    true
                },
                None => false,
            }
        } else {
            true
        }
    }
}

/// Entries read one after the other end up in order.
proof fn lemma_starting_players(v: StartingView, s: Seq<StartPlayerView>, depth: nat)
    requires
        depth < MAX_DEPTH,
        forall|i: int|
            0 <= i < s.len() ==> (#[trigger] encoded::<StartPlayer>(s[i])).len() <= u64::MAX,
    ensures
        merge_all::<Starting>(v, start_players_field(1, s), depth) == Some(
            StartingView { players: v.players + s, ..v },
        ),
    decreases s.len(),
{
    let fs = start_players_field(1, s);
    if s.len() == 0 {
        assert(v.players + s =~= v.players);
    } else {
        let head = s.drop_last();
        let last = s.last();
        assert forall|i: int| 0 <= i < head.len() implies (#[trigger] encoded::<StartPlayer>(
            head[i],
        )).len() <= u64::MAX by {
            assert(head[i] == s[i]);
        }
        assert(encoded::<StartPlayer>(s[s.len() - 1]).len() <= u64::MAX);
        lemma_starting_players(v, head, depth);
        let mid = StartingView { players: v.players + head, ..v };
        let one = seq![fs[s.len() - 1]];
        assert(fs =~= start_players_field(1, head) + one);
        lemma_merge_concat::<Starting>(v, start_players_field(1, head), one, depth);
        lemma_merge_short::<Starting>(mid, one, depth);
        lemma_reads_back_at::<StartPlayer>(last, depth + 1);
        assert(mid.players.push(last) =~= v.players + s);
    }
}

impl Readable for Starting {
    open spec fn height() -> nat {
        1
    }

    proof fn reads_back(v: StartingView, depth: nat) {
        let v0 = Starting::blank();
        let all = Starting::fields(v);
        let f1 = start_players_field(1, v.players);
        let f2 = number_field(2, v.your_idx as u64);
        let v1 = StartingView { players: v.players, ..v0 };
        let v2 = StartingView { your_idx: v.your_idx, ..v1 };
        assert forall|i: int| 0 <= i < v.players.len() implies (#[trigger] encoded::<StartPlayer>(
            v.players[i],
        )).len() <= u64::MAX by {
            assert(all[i] == bytes_entry(1, encoded::<StartPlayer>(v.players[i])));
            lemma_field_within(all, i);
        }
        lemma_starting_players(v0, v.players, depth);
        assert(v0.players + v.players =~= v.players);
        assert(merge_all::<Starting>(v0, f1, depth) =~= Some(v1));
        lemma_merge_short::<Starting>(v1, f2, depth);
        assert(merge_all::<Starting>(v1, f2, depth) =~= Some(v2));
        lemma_merge_concat::<Starting>(v0, f1, f2, depth);
        assert(v2 =~= v);
    }
}

/// A member of the merge is gone.
#[derive(Debug, Clone, PartialEq, Eq)]
pub struct PeerLeft {
    pub player_idx: u32,
}

/// What a [`PeerLeft`] says.
#[verifier::ext_equal]
pub struct PeerLeftView {
    pub player_idx: u32,
}

impl View for PeerLeft {
    type V = PeerLeftView;

    open spec fn view(&self) -> PeerLeftView {
        PeerLeftView { player_idx: self.player_idx }
    }
}

impl Message for PeerLeft {
    open spec fn blank() -> PeerLeftView {
        PeerLeftView { player_idx: 0 }
    }

    open spec fn fields(v: PeerLeftView) -> Seq<FieldView> {
        number_field(1, v.player_idx as u64)
    }

    open spec fn merged(v: PeerLeftView, f: FieldView, depth: nat) -> Option<PeerLeftView> {
        if f.tag == 1 {
            match number_of(f) {
                Some(x) => Some(PeerLeftView { player_idx: x as u32 }),
                None => None,
            }
        } else {
            Some(v)
        }
    }

    fn new_blank() -> (m: PeerLeft) {
        PeerLeft { player_idx: 0 }
    }

    fn put_fields(&self, out: &mut Vec<u8>) {
        put_number_field(out, 1, self.player_idx as u64);
    }

    fn merge(&mut self, f: Field, _depth: u32) -> (ok: bool) {
        if f.tag == 1 {
            match field_number(&f) {
                Some(x) => {
                    self.player_idx = x as u32;
                    true
                },
                None => false,
            }
        } else {
            true
        }
    }
}

impl Readable for PeerLeft {
    open spec fn height() -> nat {
        0
    }

    proof fn reads_back(v: PeerLeftView, depth: nat) {
        let v0 = PeerLeft::blank();
        let all = PeerLeft::fields(v);
        let f1 = number_field(1, v.player_idx as u64);
        let v1 = PeerLeftView { player_idx: v.player_idx };
        lemma_merge_short::<PeerLeft>(v0, f1, depth);
        assert(merge_all::<PeerLeft>(v0, f1, depth) =~= Some(v1));
        assert(v1 =~= v);
    }
}

/// A request was refused.
#[derive(Debug, Clone, PartialEq, Eq)]
pub struct Error {
    /// An [`ErrorKind`](crate::signaling::ErrorKind) by number.
    pub kind: i32,
    pub message: String,
}

/// What an [`Error`] says.
#[verifier::ext_equal]
pub struct ErrorView {
    pub kind: i32,
    pub message: Seq<char>,
}

impl View for Error {
    type V = ErrorView;

    open spec fn view(&self) -> ErrorView {
        ErrorView { kind: self.kind, message: self.message@ }
    }
}

impl Message for Error {
    open spec fn blank() -> ErrorView {
        ErrorView { kind: 0, message: Seq::empty() }
    }

    open spec fn fields(v: ErrorView) -> Seq<FieldView> {
        number_field(1, v.kind as u64) + text_field(2, v.message)
    }

    open spec fn merged(v: ErrorView, f: FieldView, depth: nat) -> Option<ErrorView> {
        if f.tag == 1 {
            match number_of(f) {
                Some(x) => Some(ErrorView { kind: x as i32, ..v }),
                None => None,
            }
        } else if f.tag == 2 {
            match text_of(f) {
                Some(x) => Some(ErrorView { message: x, ..v }),
                None => None,
            }
        } else {
            Some(v)
        }
    }

    fn new_blank() -> (m: Error) {
        Error { kind: 0, message: String::new() }
    }

    fn put_fields(&self, out: &mut Vec<u8>) {
        put_number_field(out, 1, self.kind as u64);
        put_text_field(out, 2, self.message.as_str());
        proof {
            let v = self@;
            let f1 = number_field(1, v.kind as u64);
            let f2 = text_field(2, v.message);
            lemma_fields_bytes_concat(f1, f2);
            assert(out@ =~= old(out)@ + fields_bytes(Error::fields(v)));
        }
    }

    fn merge(&mut self, f: Field, _depth: u32) -> (ok: bool) {
        if f.tag == 1 {
            match field_number(&f) {
                Some(x) => {
                    self.kind = x as i32;
                    true
                },
                None => false,
            }
        } else if f.tag == 2 {
            match field_text(f) {
                Some(x) => {
                    self.message = x;
                    true
                },
                None => false,
            }
        } else {
            true
        }
    }
}

impl Readable for Error {
    open spec fn height() -> nat {
        0
    }

    proof fn reads_back(v: ErrorView, depth: nat) {
        let v0 = Error::blank();
        let all = Error::fields(v);
        let f1 = number_field(1, v.kind as u64);
        let f2 = text_field(2, v.message);
        let v1 = ErrorView { kind: v.kind, ..v0 };
        let v2 = ErrorView { message: v.message, ..v1 };
        let code = v.kind;
        assert((code as u64) as i32 == code && (code as u64 == 0 ==> code == 0)) by (bit_vector);
        lemma_merge_short::<Error>(v0, f1, depth);
        assert(merge_all::<Error>(v0, f1, depth) =~= Some(v1));
        lemma_text_reads_back(v.message);
        lemma_merge_short::<Error>(v1, f2, depth);
        assert(merge_all::<Error>(v1, f2, depth) =~= Some(v2));
        lemma_merge_concat::<Error>(v0, f1, f2, depth);
        assert(v2 =~= v);
    }
}

} // verus!
