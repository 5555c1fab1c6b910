//! What the models say of the values they stand for: every part of a value as
//! it is, and every list in its order.
use vstd::prelude::*;
use crate::input::Capture;
use crate::library::{files_view, found_view, names_view, roms_view, RomInfo};
use crate::net::boots::messages_view;
use crate::net::lobby::{boots_view, Lobby, LobbyCommand, LobbyEvent, SessionBundle};
use crate::net::mesh::{edges_view, Edge, Mesh};
use crate::net::protocol::{BootBlob, PeerControl, PeerSignal};
use crate::replay::{rows_view, wide_rows, Metadata, PlayerMeta};
use crate::server::{
    blob_view, member_view, members_view, players_view, starters_view, Member, Player, Reply,
    Request, Room, Starter,
};
use crate::session::netplay::{peers_view, PeerCtx};
use crate::session::{peer_stats_view, MetricSample, PeerStat, Stats};
use crate::ui::cable::{bundle_view, room_rows_view, ui_view, Cable, LobbyUi, RoomRow};
use crate::ui::lobby::{slots_view, Content, Controls, SlotRow};
use crate::ui::play::screen::{Launch, Screen};
use crate::ui::play::{flashes_view, Flashed, Picks};
use crate::ui::replays::{Entry, Row};
use crate::ui::settings::BindEditor;
use crate::ui::telemetry::Reading;

verus! {

/// What a recording's metadata says.
pub proof fn law_what_metadata_says(m: Metadata, p: PlayerMeta, i: int)
    ensures
        m@.local_player == m.local_player,
        m@.started_at_unix_micros == m.started_at_unix_micros,
        m@.rtc_unix_micros == m.rtc_unix_micros,
        m@.players.len() == m.players@.len(),
        0 <= i < m.players@.len() ==> m@.players[i] == m.players@[i]@,
        p@.nick == p.nick@,
        p@.rom_crc32 == p.rom_crc32,
        p@.rom_title == p.rom_title@,
        p@.rom_code == p.rom_code@,
        p.boot matches Some(b) ==> p@.boot == Some(b@),
        p.boot is None ==> p@.boot is None,
{
}

/// What a recording's rows say: the keys as they are, sixteen bits of them.
pub proof fn law_what_rows_say(rows: Seq<Vec<u32>>, stored: Seq<Seq<u16>>, i: int, k: int)
    ensures
        rows_view(rows).len() == rows.len(),
        0 <= i < rows.len() ==> rows_view(rows)[i] == rows[i]@,
        wide_rows(stored).len() == stored.len(),
        0 <= i < stored.len() ==> wide_rows(stored)[i].len() == stored[i].len(),
        0 <= i < stored.len() && 0 <= k < stored[i].len() ==> wide_rows(stored)[i][k]
            == stored[i][k] as u32,
{
}

/// What the library's values say.
pub proof fn law_what_roms_and_files_say(
    r: RomInfo,
    roms: Seq<RomInfo>,
    files: Seq<(String, Vec<u8>)>,
    names: Seq<String>,
    bytes: Vec<u8>,
    e: String,
    i: int,
)
    ensures
        r@.file_name == r.file_name@,
        r@.title == r.title@,
        r@.code == r.code@,
        r@.crc32 == r.crc32,
        r@.size == r.size,
        r.dat_name matches Some(n) ==> r@.dat_name == Some(n@),
        r.dat_name is None ==> r@.dat_name is None,
        roms_view(roms).len() == roms.len(),
        0 <= i < roms.len() ==> roms_view(roms)[i] == roms[i]@,
        files_view(files).len() == files.len(),
        0 <= i < files.len() ==> files_view(files)[i] == (files[i].0@, files[i].1@),
        names_view(names).len() == names.len(),
        0 <= i < names.len() ==> names_view(names)[i] == names[i]@,
        found_view(Ok(Some(bytes))) == Ok::<Option<Seq<u8>>, Seq<char>>(Some(bytes@)),
        found_view(Ok(None)) == Ok::<Option<Seq<u8>>, Seq<char>>(None),
        found_view(Err(e)) == Err::<Option<Seq<u8>>, Seq<char>>(e@),
{
}

/// What statistics say.
pub proof fn law_what_statistics_say(
    p: PeerStat,
    s: Stats,
    m: MetricSample,
    peers: Seq<PeerStat>,
    i: int,
)
    ensures
        p@.player == p.player && p@.nick == p.nick@ && p@.rtt_micros == p.rtt_micros,
        s@.queue_len == s.queue_len && s@.skew == s.skew && s@.rolled_back == s.rolled_back,
        s@.confirmed == s.confirmed && s@.frontier == s.frontier && s@.slices_peak == s.slices_peak,
        s@.tps == s.tps && s@.fps_target == s.fps_target,
        s@.peers == peer_stats_view(s.peers@),
        peer_stats_view(peers).len() == peers.len(),
        0 <= i < peers.len() ==> peer_stats_view(peers)[i] == peers[i]@,
        m@.tps == m.tps && m@.fps_target == m.fps_target && m@.skew == m.skew && m@.lead == m.lead,
        m@.depth == m.depth && m@.pings == m.pings@,
{
}

/// What is kept of a netplay peer.
pub proof fn law_what_is_kept_of_a_peer(p: PeerCtx, peers: Seq<PeerCtx>, i: int)
    ensures
        p@.player == p.player && p@.nick == p.nick@ && p@.sent_times == p.sent_times@,
        p@.sent == p.sent && p@.rtt_micros == p.rtt_micros && p@.checkpoint == p.checkpoint,
        p@.last_heard == p.last_heard,
        peers_view(peers).len() == peers.len(),
        0 <= i < peers.len() ==> peers_view(peers)[i] == peers[i]@,
{
}

/// What the server's requests ask.
pub proof fn law_what_requests_ask(r: Request)
    ensures
        r matches Request::SetReady { ready, save } ==> r@
            == (crate::server::RequestView::SetReady { ready, save: blob_view(save) }),
        r matches Request::Chat { text } ==> r@ == (crate::server::RequestView::Chat {
            text: text@,
        }),
        r matches Request::Signal { to, payload } ==> r@ == (crate::server::RequestView::Signal {
            to,
            payload: payload@,
        }),
        r matches Request::CreateRoom { protocol_version, nick, rom_crc32, rom_title } ==> r@
            == (crate::server::RequestView::CreateRoom {
            protocol_version,
            nick: nick@,
            rom_crc32,
            rom_title: rom_title@,
        }),
        r matches Request::JoinRoom { protocol_version, code, nick, rom_crc32, rom_title } ==> r@
            == (crate::server::RequestView::JoinRoom {
            protocol_version,
            code: code@,
            nick: nick@,
            rom_crc32,
            rom_title: rom_title@,
        }),
        r is Start <==> r@ is Start,
        r is Leave <==> r@ is Leave,
{
}

/// What the server's rooms and replies say.
pub proof fn law_what_rooms_and_replies_say(
    m: Member,
    s: Starter,
    p: Player,
    room: Room,
    r: Reply,
    member: Option<String>,
    i: int,
)
    ensures
        m@.nick == m.nick@ && m@.ready == m.ready && m@.rom_crc32 == m.rom_crc32 && m@.rom_title
            == m.rom_title@,
        s@.nick == s.nick@ && s@.rom_crc32 == s.rom_crc32 && s@.save == blob_view(s.save),
        p@.nick == p.nick@ && p@.ready == p.ready && p@.rom_crc32 == p.rom_crc32 && p@.rom_title
            == p.rom_title@,
        p@.conn == p.conn && p@.gone == p.gone && p@.save == blob_view(p.save),
        room@.started == room.started && room@.players.len() == room.players@.len(),
        0 <= i < room.players@.len() ==> room@.players[i] == room.players@[i]@,
        r matches Reply::RoomCreated { code } ==> r@ == (crate::server::ReplyView::RoomCreated {
            code: code@,
        }),
        r matches Reply::RoomJoined { code } ==> r@ == (crate::server::ReplyView::RoomJoined {
            code: code@,
        }),
        r matches Reply::PeerLeft { player_idx } ==> r@ == (crate::server::ReplyView::PeerLeft {
            player_idx,
        }),
        r matches Reply::Error { kind, message } ==> r@ == (crate::server::ReplyView::Error {
            kind,
            message: message@,
        }),
        r matches Reply::Signal { from, payload } ==> r@ == (crate::server::ReplyView::Signal {
            from,
            payload: payload@,
        }),
        r matches Reply::Chat { from, nick, text } ==> r@ == (crate::server::ReplyView::Chat {
            from,
            nick: nick@,
            text: text@,
        }),
        r matches Reply::Roster { players, your_idx } ==> r@ == (crate::server::ReplyView::Roster {
            players: members_view(players@),
            your_idx,
        }),
        r matches Reply::Starting { clock_unix_micros, players, your_idx } ==> r@
            == (crate::server::ReplyView::Starting {
            clock_unix_micros,
            players: starters_view(players@),
            your_idx,
        }),
        member matches Some(c) ==> member_view(member) == Some(c@),
        member is None ==> member_view(member) is None,
        players_view(room.players@) == room@.players,
{
}

/// What a lobby, its commands and what it tells say.
pub proof fn law_what_lobbies_say(l: Lobby, c: LobbyCommand, e: LobbyEvent, b: SessionBundle, i: int)
    ensures
        l@.wireless == l.wireless && l@.phase == l.phase && l@.dance == l.dance && l@.room_code
            == l.room_code@,
        l@.local_player == l.local_player && l@.stray.len() == l.stray@.len() && l@.players.len()
            == l.players@.len() && l@.ice_servers.len() == l.ice_servers@.len(),
        0 <= i < l.stray@.len() ==> l@.stray[i] == l.stray@[i]@,
        0 <= i < l.players@.len() ==> l@.players[i] == l.players@[i]@,
        c matches LobbyCommand::SetReady { ready } ==> c@
            == (crate::net::lobby::LobbyCommandView::SetReady { ready }),
        c matches LobbyCommand::Kick { seat } ==> c@
            == (crate::net::lobby::LobbyCommandView::Kick { seat }),
        c matches LobbyCommand::Boot(x) ==> c@ == crate::net::lobby::LobbyCommandView::Boot(x@),
        c is Start <==> c@ is Start,
        c is Dropped <==> c@ is Dropped,
        c is Leave <==> c@ is Leave,
        e matches LobbyEvent::Joined { code } ==> e@
            == (crate::net::lobby::LobbyEventView::Joined { code: code@ }),
        e matches LobbyEvent::Error(t) ==> e@ == crate::net::lobby::LobbyEventView::Error(t@),
        e matches LobbyEvent::Fatal(t) ==> e@ == crate::net::lobby::LobbyEventView::Fatal(t@),
        e matches LobbyEvent::Connecting(t) ==> e@ == crate::net::lobby::LobbyEventView::Connecting(
            t@,
        ),
        e matches LobbyEvent::MergeFailed(t) ==> e@
            == crate::net::lobby::LobbyEventView::MergeFailed(t@),
        e matches LobbyEvent::SessionReady(x) ==> e@ == bundle_view(x),
        e is Kicked <==> e@ is Kicked,
        e is Starting <==> e@ is Starting,
        bundle_view(b) matches crate::net::lobby::LobbyEventView::SessionReady {
            room_code,
            players,
            local_player,
            boots,
        } && room_code == b.room_code@ && local_player == b.local_player && players.len()
            == b.players@.len() && boots == boots_view(b.boots@),
        boots_view(b.boots@).len() == b.boots@.len(),
        0 <= i < b.boots@.len() ==> boots_view(b.boots@)[i] == b.boots@[i]@,
{
}

/// What a mesh and what peers send say.
pub proof fn law_what_meshes_and_peers_say(
    e: Edge,
    m: Mesh,
    b: BootBlob,
    c: PeerControl,
    s: PeerSignal,
    msgs: Seq<Vec<u8>>,
    i: int,
)
    ensures
        e@.player == e.player && e@.remote_description_set == e.remote_description_set && e@.up
            == e.up,
        e@.queued_candidates.len() == e.queued_candidates@.len(),
        0 <= i < e.queued_candidates@.len() ==> e@.queued_candidates[i] == e.queued_candidates@[i]@,
        m@.departed == m.departed@ && m@.over == m.over && m@.edges == edges_view(m.edges@),
        m@.edges.len() == m.edges@.len(),
        0 <= i < m.edges@.len() ==> m@.edges[i] == m.edges@[i]@,
        b@.state == b.state@ && b@.clock_unix_micros == b.clock_unix_micros,
        b.save matches Some(x) ==> b@.save == Some(x@),
        b.save is None ==> b@.save is None,
        c matches PeerControl::Hello { net_version } ==> c@
            == (crate::net::protocol::PeerControlView::Hello { net_version }),
        c matches PeerControl::Boot { len } ==> c@ == (crate::net::protocol::PeerControlView::Boot {
            len,
        }),
        c matches PeerControl::BootChunk(x) ==> c@
            == crate::net::protocol::PeerControlView::BootChunk(x@),
        c is Quit <==> c@ is Quit,
        s matches PeerSignal::Description { sdp_type, sdp } ==> s@
            == (crate::net::protocol::PeerSignalView::Description {
            sdp_type: sdp_type@,
            sdp: sdp@,
        }),
        s matches PeerSignal::Candidate { candidate } ==> s@
            == (crate::net::protocol::PeerSignalView::Candidate { candidate: candidate@ }),
        messages_view(msgs).len() == msgs.len(),
        0 <= i < msgs.len() ==> messages_view(msgs)[i] == msgs[i]@,
{
}

/// What the link panel says.
pub proof fn law_what_the_panel_says(u: LobbyUi, c: Cable, r: RoomRow, rows: Seq<RoomRow>, i: int)
    ensures
        u.code matches Some(t) ==> u@.code == Some(t@),
        u.code is None ==> u@.code is None,
        u.status matches Some(t) ==> u@.status == Some(t@),
        u.status is None ==> u@.status is None,
        u@.my_idx == u.my_idx && u@.starting == u.starting && u@.created == u.created,
        u@.players.len() == u.players@.len(),
        0 <= i < u.players@.len() ==> u@.players[i] == u.players@[i]@,
        c.ui matches Some(x) ==> c@.ui == Some(x@),
        c.ui is None ==> c@.ui is None,
        ui_view(c.ui) == c@.ui,
        c.notice matches Some(t) ==> c@.notice == Some(t@),
        c.notice is None ==> c@.notice is None,
        c@.panel_open == c.panel_open && c@.live == c.live,
        r matches RoomRow::Seat { name, game, note, kick } ==> r@
            == (crate::ui::cable::RoomRowView::Seat { name: name@, game: game@, note, kick }),
        r is Open <==> r@ is Open,
        room_rows_view(rows).len() == rows.len(),
        0 <= i < rows.len() ==> room_rows_view(rows)[i] == rows[i]@,
{
}

/// What the play screen says.
pub proof fn law_what_the_play_screen_says(
    f: Flashed,
    flashes: Seq<Flashed>,
    p: Picks,
    s: Screen,
    l: Launch,
    crc32: u32,
    i: int,
)
    ensures
        f@.slot == f.slot && f@.text == f.flash.text@ && f@.ok == f.flash.ok && f@.ms == f.ms,
        flashes_view(flashes).len() == flashes.len(),
        0 <= i < flashes.len() ==> flashes_view(flashes)[i] == flashes[i]@,
        p@.selected_game == p.selected_game && p@.last_game == p.last_game,
        p.selected_save matches Some(t) ==> p@.selected_save == Some(t@),
        p.selected_save is None ==> p@.selected_save is None,
        p@.last_saves.contains_key(crc32) == p.last_saves@.contains_key(crc32),
        p.last_saves@.contains_key(crc32) ==> p@.last_saves[crc32] == p.last_saves@[crc32]@,
        s@.picks == s.picks@ && s@.library_rev == s.library_rev && s@.saves_rev == s.saves_rev,
        s@.rename_value == s.editor.rename_value@,
        s.editor.rename_target matches Some(t) ==> s@.rename_target == Some(t@),
        s.editor.pending_delete matches Some(t) ==> s@.pending_save_delete == Some(t@),
        s.pending_delete matches Some(t) ==> s@.pending_delete == Some(t@),
        l@.rom == l.rom@ && l@.save_file == l.save_file@,
        l.save matches Some(b) ==> l@.save == Some(b@),
        l.save is None ==> l@.save is None,
{
}

/// What the other screens say.
pub proof fn law_what_the_other_screens_say(
    slot: SlotRow,
    slots: Seq<SlotRow>,
    c: Controls,
    content: Content,
    reading: Reading,
    editor: BindEditor,
    capture: Capture,
    entry: Entry,
    row: Row,
    i: int,
)
    ensures
        slot matches SlotRow::Taken { line, status, rom_title, missing_rom } ==> slot@
            == (crate::ui::lobby::SlotRowView::Taken {
            line: line@,
            status,
            rom_title: rom_title@,
            missing_rom,
        }),
        slot matches SlotRow::Open { label } ==> slot@ == (crate::ui::lobby::SlotRowView::Open {
            label: label@,
        }),
        slots_view(slots).len() == slots.len(),
        0 <= i < slots.len() ==> slots_view(slots)[i] == slots[i]@,
        c matches Controls::Host { can_start, hint } ==> c@
            == (crate::ui::lobby::ControlsView::Host { can_start, hint: hint@ }),
        c matches Controls::Guest { ready, can_toggle, hint } ==> c@
            == (crate::ui::lobby::ControlsView::Guest { ready, can_toggle, hint: hint@ }),
        c matches Controls::Starting { status } ==> c@
            == (crate::ui::lobby::ControlsView::Starting { status: status@ }),
        content matches Content::Room { slots: s, missing_rom, controls, status } ==> (
        content@ matches crate::ui::lobby::ContentView::Room {
            slots: v,
            missing_rom: m,
            controls: k,
            status: t,
        } && v == slots_view(s@) && m == missing_rom && k == controls@ && (status is Some <==> t
            is Some)),
        content matches Content::Connecting { status } ==> content@
            == (crate::ui::lobby::ContentView::Connecting { status: status@ }),
        reading@.value == reading.value@ && reading@.tone == reading.tone,
        editor@.selected == editor.selected && editor@.capture == editor.capture@,
        capture@.target == capture.target,
        capture.captured matches Some((key, input)) ==> capture@.captured == Some((key, input@)),
        capture.captured is None ==> capture@.captured is None,
        entry@.path == entry.path@ && entry@.metadata == entry.metadata@ && entry@.ticks
            == entry.ticks && entry@.complete == entry.complete,
        row@.players == row.players@ && row@.roms == row.roms@ && row@.watchable == row.watchable
            && row@.complete == row.complete,
{
}

} // verus!
