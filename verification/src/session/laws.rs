//! What holds of the state a session shares.
use vstd::prelude::*;
use crate::session::local::is_solo;
use crate::session::{
    end_unplugs, link_label, no_stats, not_positive, sampled, LinkKind, SessionDescriptor, SessionEnd,
    SessionKind, SharedSession, StatsView,
};

verus! {

/// Only the local player's quit and a dead emulator leave no machine to go on
/// with.
pub proof fn law_machines_survive_their_cables(end: SessionEnd)
    ensures
        end_unplugs(end) <==> end is Unplugged || end is PeerQuit || end is PeerDisconnected
            || end is Desync,
        !end_unplugs(end) <==> end is LocalQuit || end is Error,
{
}

/// A sample says what the statistics said at that moment: the pace reached and
/// the pace asked for, the skew, how far ahead the local player is, how deep
/// the last rollback was, and every peer's round trip in their order.
pub proof fn law_a_sample_says_what_was_measured(s: StatsView, i: int)
    requires
        s.queue_len <= i32::MAX,
    ensures
        sampled(s).tps == s.tps,
        sampled(s).fps_target == s.fps_target,
        sampled(s).skew == s.skew,
        sampled(s).lead == s.queue_len,
        sampled(s).depth == s.rolled_back,
        sampled(s).pings.len() == s.peers.len(),
        0 <= i < s.peers.len() ==> sampled(s).pings[i] == s.peers[i].rtt_micros,
{
}

/// A pace runs a session exactly where it is above zero or not a number: the
/// bits of a single order as the numbers they stand for, and a set sign bit
/// makes them negative up to the infinity.
pub proof fn law_a_session_runs_above_zero(bits: u32)
    ensures
        0 < bits <= 0x7fff_ffff ==> !not_positive(bits),
        bits == 0 || bits == 0x8000_0000 ==> not_positive(bits),
        0x8000_0001 <= bits <= 0xff80_0000 ==> not_positive(bits),
        bits > 0xff80_0000 ==> !not_positive(bits),
{
}

/// The two peripherals are told apart by what they are called.
pub proof fn law_peripherals_are_told_apart(a: LinkKind, b: LinkKind)
    ensures
        link_label(a) == link_label(b) <==> a == b,
        link_label(LinkKind::Cable) == "Link cable"@,
        link_label(LinkKind::Wireless) == "Wireless adapter"@,
{
    reveal_strlit("Link cable");
    reveal_strlit("Wireless adapter");
    assert("Link cable"@.len() != "Wireless adapter"@.len());
}

/// A session that has only begun shows a whole black frame nobody presented,
/// runs at no pace, and asks nothing of anyone.
pub proof fn law_a_fresh_session_is_quiet(
    s: SharedSession,
    present_delay: u32,
    view_player: usize,
    i: int,
)
    requires
        s.is_fresh(present_delay, view_player),
    ensures
        s.vbuf@.len() == 240 * 160 * 2,
        0 <= i < s.vbuf@.len() ==> s.vbuf@[i] == 0,
        s.vbuf_rev == 0,
        not_positive(s.fps_target),
        s.joyflags == 0,
        s.speed == 100,
        !s.paused && !s.quit && !s.unplug && !s.pace_reset_requested,
        s.end is None && s.handoff is None,
        s.present_delay == present_delay,
        s.view_player == view_player,
        s.stats@.tps == 0 && s.stats@.queue_len == 0 && s.stats@.frontier == 0
            && s.stats@.confirmed == 0 && s.stats@.rolled_back == 0 && s.stats@.skew == 0
            && s.stats@.slices_peak == 0 && s.stats@.fps_target == 0,
        s.stats@.peers.len() == 0,
        s.stats@ == no_stats(),
{
}

/// A solo session has one player, the first, on their own cart and peripheral,
/// and is in no room.
pub proof fn law_what_a_solo_session_is(d: SessionDescriptor, rom_crc32: u32, link: LinkKind)
    requires
        is_solo(d, rom_crc32, link),
    ensures
        d.kind == SessionKind::Local,
        d.local_player == 0,
        d.nicks@.len() == 1,
        d.nicks@[0]@ == "Player 1"@,
        d.room_code is None,
        d.rom_crc32 == Some(rom_crc32),
        d.link == link,
{
}

} // verus!
