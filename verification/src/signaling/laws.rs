//! What holds of the protocol's messages and codes.
use vstd::prelude::*;
use vstd::utf8::encode_utf8;
use crate::bytes::varint;
use crate::signaling::client_message::{ClientMessage, Msg as ClientMsg};
use crate::signaling::codec::{
    bytes_entry, bytes_field, encoded, flag_field, number_field, opt_text_field, text_field,
    Message,
};
use crate::signaling::messages::{
    CreateRoom, Error, Hello, JoinRoom, KickPlayer, PeerLeft, RoomCreated, RoomJoined, Roster,
    SetReady, Signal, Starting,
};
use crate::signaling::server_message::{Msg as ServerMsg, ServerMessage};
use crate::signaling::wire::{field_bytes, fields_bytes, FieldView, ValueView};
use crate::signaling::{
    is_room_code, kind_number, kind_of, normalized_code, ErrorKind, MAX_CABLE_PLAYERS,
    MAX_WIRELESS_PLAYERS, PROTOCOL_VERSION, ROOM_CODE_ALPHABET,
};
use crate::text::laws::law_trimming_takes_the_space_around;
use crate::text::{ascii_upper, is_space, lowered};

verus! {

// ---------------------------------------------------------------------
// Codes
// ---------------------------------------------------------------------

/// A room's code is six characters, capitals and digits, and none of them is
/// easily taken for another: no zero or one, and no I, L or O.
pub proof fn law_codes_are_not_misread(code: Seq<char>, i: int)
    requires
        is_room_code(code),
        0 <= i < code.len(),
    ensures
        code.len() == 6,
        'A' <= code[i] <= 'Z' || '2' <= code[i] <= '9',
        code[i] != 'I' && code[i] != 'L' && code[i] != 'O',
{
    let c = code[i];
    assert(ROOM_CODE_ALPHABET@.contains(c));
    let k = choose|k: int| 0 <= k < ROOM_CODE_ALPHABET@.len() && ROOM_CODE_ALPHABET@[k] == c;
    assert(ROOM_CODE_ALPHABET@.len() == 31);
}

/// Every such six characters are a code.
pub proof fn law_every_clear_character_is_in_codes(c: char)
    requires
        'A' <= c <= 'Z' || '2' <= c <= '9',
        c != 'I' && c != 'L' && c != 'O',
    ensures
        ROOM_CODE_ALPHABET@.contains(c),
{
    let u = c as u32;
    let k: int = if u <= 57 {
        u - 50
    } else if u < 73 {
        u - 57
    } else if u < 76 {
        u - 58
    } else if u < 79 {
        u - 59
    } else {
        u - 60
    };
    assert(ROOM_CODE_ALPHABET@[k] as u32 == u);
    assert(ROOM_CODE_ALPHABET@[k] == c);
}

/// A code is found however it is typed: in lower case, and with white space
/// around it.
pub proof fn law_codes_are_found_as_typed(a: Seq<char>, code: Seq<char>, b: Seq<char>)
    requires
        is_room_code(code),
        forall|i: int| 0 <= i < a.len() ==> is_space(#[trigger] a[i]),
        forall|i: int| 0 <= i < b.len() ==> is_space(#[trigger] b[i]),
    ensures
        normalized_code(a + lowered(code) + b) == code,
        normalized_code(a + code + b) == code,
{
    let low = lowered(code);
    assert forall|i: int| 0 <= i < code.len() implies !is_space(#[trigger] code[i]) && !is_space(
        low[i],
    ) && ascii_upper(code[i]) == code[i] && ascii_upper(low[i]) == code[i] by {
        law_codes_are_not_misread(code, i);
    }
    assert(!is_space(code[0]) && !is_space(code[5]) && !is_space(low[0]) && !is_space(low[5]));
    law_trimming_takes_the_space_around(a, low, b);
    law_trimming_takes_the_space_around(a, code, b);
    assert(low.map_values(|c: char| ascii_upper(c)) =~= code);
    assert(code.map_values(|c: char| ascii_upper(c)) =~= code);
}

/// How many play on either peripheral, and the protocol that is spoken.
pub proof fn law_how_many_play()
    ensures
        MAX_CABLE_PLAYERS == 4,
        MAX_WIRELESS_PLAYERS == 5,
        PROTOCOL_VERSION == 5,
{
}

/// Error kinds are numbered from zero without a gap, and a number nobody
/// assigned says nothing.
pub proof fn law_error_kinds_are_numbered(kind: ErrorKind, number: i32)
    ensures
        0 <= kind_number(kind) <= 9,
        0 <= number <= 9 ==> kind_number(kind_of(number)) == number,
        number < 0 || number > 9 ==> kind_of(number) == ErrorKind::Unspecified,
        kind_number(ErrorKind::Unspecified) == 0,
{
}

// ---------------------------------------------------------------------
// Fields
// ---------------------------------------------------------------------

/// A number on the wire is its field's number, eight times over, and then
/// itself; bytes are that and two, then how many there are, then the bytes.
pub proof fn law_fields_on_the_wire(tag: u32, v: u64, b: Seq<u8>)
    requires
        1 <= tag <= 15,
        b.len() < 128,
    ensures
        field_bytes(FieldView { tag, value: ValueView::Number(v) }) == seq![(8 * tag) as u8]
            + varint(v as nat),
        field_bytes(FieldView { tag, value: ValueView::Bytes(b) }) == seq![
            (8 * tag + 2) as u8,
            b.len() as u8,
        ] + b,
{
    let x = field_bytes(FieldView { tag, value: ValueView::Bytes(b) });
    assert(x =~= seq![(8 * tag + 2) as u8, b.len() as u8] + b);
}

/// What says nothing is left out: zero, a clear flag, an empty text and empty
/// bytes. A set flag is a one, and a text its UTF-8.
pub proof fn law_what_says_nothing_is_left_out(
    tag: u32,
    v: u64,
    t: Seq<char>,
    b: Seq<u8>,
)
    ensures
        number_field(tag, 0).len() == 0,
        v != 0 ==> number_field(tag, v) == seq![FieldView { tag, value: ValueView::Number(v) }],
        flag_field(tag, false).len() == 0,
        flag_field(tag, true) == seq![FieldView { tag, value: ValueView::Number(1) }],
        text_field(tag, Seq::empty()).len() == 0,
        t.len() > 0 ==> text_field(tag, t) == seq![
            FieldView { tag, value: ValueView::Bytes(encode_utf8(t)) },
        ],
        bytes_field(tag, Seq::empty()).len() == 0,
        b.len() > 0 ==> bytes_field(tag, b) == seq![FieldView { tag, value: ValueView::Bytes(b) }],
        opt_text_field(tag, None).len() == 0,
        opt_text_field(tag, Some(t)) == seq![
            FieldView { tag, value: ValueView::Bytes(encode_utf8(t)) },
        ],
        bytes_entry(tag, b) == (FieldView { tag, value: ValueView::Bytes(b) }),
{
}

/// A report of readiness on the wire: a clear one says nothing, and a set one
/// is one flag.
pub proof fn law_readiness_on_the_wire(s: SetReady)
    ensures
        s.ready ==> encoded::<SetReady>(s@) == seq![8u8, 1],
        !s.ready ==> encoded::<SetReady>(s@).len() == 0,
{
    if s.ready {
        let f = FieldView { tag: 1, value: ValueView::Number(1) };
        assert(SetReady::fields(s@) =~= seq![f]);
        assert(seq![f].skip(1) =~= Seq::<FieldView>::empty());
        law_fields_on_the_wire(1, 1, Seq::empty());
        assert(fields_bytes(seq![f].skip(1)) =~= Seq::<u8>::empty());
        assert(encoded::<SetReady>(s@) =~= seq![8u8, 1]);
    } else {
        assert(SetReady::fields(s@) =~= Seq::<FieldView>::empty());
    }
}

/// Fields a message does not know are passed over.
pub proof fn law_unknown_fields_are_passed_over(f: FieldView, depth: nat, m: ClientMessage, s: ServerMessage)
    requires
        f.tag > 8,
    ensures
        ClientMessage::merged(m@, f, depth) == Some(m@),
        ServerMessage::merged(s@, f, depth) == Some(s@),
{
}

// ---------------------------------------------------------------------
// What messages say
// ---------------------------------------------------------------------

/// A client's message says what it holds, part by part.
pub proof fn law_client_messages_say_what_they_hold(
    a: CreateRoom,
    b: JoinRoom,
    c: SetReady,
    d: Signal,
    e: KickPlayer,
)
    ensures
        a@.protocol_version == a.protocol_version && a@.nick == a.nick@ && a@.rom_crc32
            == a.rom_crc32 && a@.rom_title == a.rom_title@ && a@.wireless == a.wireless,
        b@.protocol_version == b.protocol_version && b@.code == b.code@ && b@.nick == b.nick@
            && b@.rom_crc32 == b.rom_crc32 && b@.rom_title == b.rom_title@,
        c@.ready == c.ready,
        d@.peer == d.peer && d@.payload == d.payload@,
        e@.seat == e.seat,
{
}

/// A server's message says what it holds, part by part and in order.
pub proof fn law_server_messages_say_what_they_hold(
    a: Hello,
    b: RoomCreated,
    c: RoomJoined,
    d: Roster,
    e: Starting,
    f: PeerLeft,
    g: Error,
    i: int,
)
    ensures
        a@.ice_servers.len() == a.ice_servers@.len(),
        0 <= i < a.ice_servers@.len() ==> {
            let x = a.ice_servers@[i];
            let v = a@.ice_servers[i];
            &&& v.urls.len() == x.urls@.len()
            &&& forall|k: int| 0 <= k < x.urls@.len() ==> #[trigger] v.urls[k] == x.urls@[k]@
            &&& x.username matches Some(t) ==> v.username == Some(t@)
            &&& x.username is None ==> v.username is None
            &&& x.credential matches Some(t) ==> v.credential == Some(t@)
            &&& x.credential is None ==> v.credential is None
        },
        b@.code == b.code@,
        c@.code == c.code@,
        d@.players.len() == d.players@.len() && d@.your_idx == d.your_idx && d@.wireless
            == d.wireless,
        0 <= i < d.players@.len() ==> {
            let x = d.players@[i];
            let v = d@.players[i];
            v.nick == x.nick@ && v.ready == x.ready && v.rom_crc32 == x.rom_crc32 && v.rom_title
                == x.rom_title@ && v.seat == x.seat
        },
        e@.players.len() == e.players@.len() && e@.your_idx == e.your_idx,
        0 <= i < e.players@.len() ==> e@.players[i].nick == e.players@[i].nick@
            && e@.players[i].rom_crc32 == e.players@[i].rom_crc32,
        f@.player_idx == f.player_idx,
        g@.kind == g.kind && g@.message == g.message@,
{
}

/// A message is the kind of message it is.
pub proof fn law_messages_keep_their_kind(m: ClientMessage, s: ServerMessage)
    ensures
        m.msg is None <==> m@.msg is None,
        m.msg matches Some(ClientMsg::SetReady(x)) ==> m@.msg == Some(
            crate::signaling::client_message::MsgView::SetReady(x@),
        ),
        m.msg matches Some(ClientMsg::Signal(x)) ==> m@.msg == Some(
            crate::signaling::client_message::MsgView::Signal(x@),
        ),
        s.msg is None <==> s@.msg is None,
        s.msg matches Some(ServerMsg::Roster(x)) ==> s@.msg == Some(
            crate::signaling::server_message::MsgView::Roster(x@),
        ),
        s.msg matches Some(ServerMsg::Starting(x)) ==> s@.msg == Some(
            crate::signaling::server_message::MsgView::Starting(x@),
        ),
{
}

} // verus!
