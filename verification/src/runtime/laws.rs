//! What holds of the runtime, said of what it is given and what it leaves.
use vstd::prelude::*;
use crate::input::CaptureView;
use crate::runtime::{
    after_close, capture_error_text, edge_from, escaped, gated, input_taken, key_captured,
    key_route, menu_closed, menu_toggled, panel_toggled, persisted_into, presents, recorded_end,
    running, sampled_history, snapshot_of, unplug_text, with_sample, writes_back, CaptureError, Gate,
    KeyRoute, Overlays, PumpSource, Runtime, Session,
};
use crate::library::crc32_of;
use crate::session::{
    sampled, MetricSampleView, SessionEnd, SessionKind, SharedSession,
};
use crate::text::decimal;

verus! {

// ---------------------------------------------------------------------
// The pump
// ---------------------------------------------------------------------

proof fn lemma_or_keeps_bits(a: u32, b: u32, bit: u32)
    by (bit_vector)
    ensures
        ((a | b) & bit != 0) <==> (a & bit != 0 || b & bit != 0),
{
}

/// A key is held for the session exactly where it is held on the keyboard or
/// pad or on the touch screen. A solo session runs three times as fast while
/// the speed-up is held and at its own speed otherwise; netplay's speed is
/// nobody's to change. Nothing else of the session or the runtime changes.
pub proof fn law_held_keys_reach_the_session(rt: Runtime, mapped: u32, speed_up: bool, bit: u32)
    ensures
        rt.session is None ==> input_taken(rt, mapped, speed_up) == rt,
        rt.session matches Some(s) ==> {
            let after = input_taken(rt, mapped, speed_up);
            &&& after.session matches Some(t)
            &&& (t.shared.joyflags & bit != 0) <==> (mapped & bit != 0 || rt.touch_keys & bit != 0)
            &&& s.descriptor.kind == SessionKind::Local && speed_up ==> t.shared.speed == 300
            &&& s.descriptor.kind == SessionKind::Local && !speed_up ==> t.shared.speed == 100
            &&& s.descriptor.kind == SessionKind::Netplay ==> t.shared.speed == s.shared.speed
            &&& t == (Session {
                shared: SharedSession {
                    joyflags: t.shared.joyflags,
                    speed: t.shared.speed,
                    ..s.shared
                },
                ..s
            })
            &&& after == (Runtime { session: Some(t), ..rt })
        },
{
    lemma_or_keeps_bits(mapped, rt.touch_keys, bit);
}

/// A session is held exactly where it is paused, or plays alone on a page that
/// is hidden: netplay runs on. A held one is left without a pace; an open one
/// runs at the pace published, starting its cadence over exactly where that was
/// asked for, once.
pub proof fn law_when_a_session_is_held(rt: Runtime, hidden: bool)
    ensures
        rt.session is None ==> gated(rt, hidden) == (Gate::Empty, rt),
        rt.session matches Some(s) ==> {
            let held = s.shared.paused || (hidden && s.descriptor.kind == SessionKind::Local);
            let (gate, after) = gated(rt, hidden);
            &&& after.session matches Some(t)
            &&& held ==> gate == Gate::Held && t.shared.fps_target == 0 && t == (Session {
                shared: SharedSession { fps_target: 0, ..s.shared },
                ..s
            })
            &&& !held ==> gate == (Gate::Open {
                restart: s.shared.pace_reset_requested,
                pace: s.shared.fps_target,
            }) && t == (Session {
                shared: SharedSession { pace_reset_requested: false, ..s.shared },
                ..s
            })
            &&& after == (Runtime { session: Some(t), ..rt })
            &&& !held ==> (gated(after, hidden).0 matches Gate::Open { restart, .. } && !restart)
        },
{
}

/// A frame is put on the screen on an animation frame, where there is a
/// presenter and the session has presented something since.
pub proof fn law_when_a_frame_is_presented(rt: Runtime, source: PumpSource, presenter: bool)
    ensures
        presents(rt, source, presenter) <==> {
            &&& source == PumpSource::Raf
            &&& presenter
            &&& rt.session matches Some(s) && s.shared.vbuf_rev != 0 && s.shared.vbuf_rev
                != rt.presented_rev
        },
{
}

/// The history has the newest sample last and the others in front of it as they
/// were, but for the oldest where there are a hundred and eighty.
pub proof fn law_samples_join_at_the_end(h: Seq<MetricSampleView>, m: MetricSampleView, i: int)
    requires
        h.len() <= 180,
    ensures
        with_sample(h, m).last() == m,
        h.len() < 180 ==> with_sample(h, m).len() == h.len() + 1,
        h.len() == 180 ==> with_sample(h, m).len() == 180,
        0 <= i < h.len() && h.len() < 180 ==> with_sample(h, m)[i] == h[i],
        0 < i < h.len() && h.len() == 180 ==> with_sample(h, m)[i - 1] == h[i],
{
}

/// Only netplay is sampled, and only where a tick advanced: its statistics as
/// they stand join the history.
pub proof fn law_netplay_is_sampled(rt: Runtime, changed: bool)
    ensures
        ({
            let was = crate::runtime::history_view(rt.metric_history@);
            &&& !changed || running(rt.session) != Some(SessionKind::Netplay) ==> sampled_history(
                rt,
                changed,
            ) == was
            &&& changed && running(rt.session) == Some(SessionKind::Netplay) ==> sampled_history(
                rt,
                changed,
            ).last() == sampled(rt.session.unwrap().shared.stats@)
        }),
{
}

/// The input a capture takes is the first that is held now and was not before.
/// What was held all along binds nothing.
pub proof fn law_the_first_new_input_is_taken(active: Seq<u32>, prev: Seq<u32>, from: int)
    requires
        0 <= from <= active.len(),
    ensures
        match edge_from(active, prev, from) {
            Some(x) => !prev.contains(x) && exists|i: int|
                from <= i < active.len() && #[trigger] active[i] == x && forall|k: int|
                    from <= k < i ==> prev.contains(#[trigger] active[k]),
            None => forall|i: int|
                from <= i < active.len() ==> prev.contains(#[trigger] active[i]),
        },
    decreases active.len() - from,
{
    if from < active.len() {
        if prev.contains(active[from]) {
            law_the_first_new_input_is_taken(active, prev, from + 1);
            if edge_from(active, prev, from) is Some {
                let x = edge_from(active, prev, from).unwrap();
                let i = choose|i: int|
                    from + 1 <= i < active.len() && #[trigger] active[i] == x && forall|k: int|
                        from + 1 <= k < i ==> prev.contains(#[trigger] active[k]);
                assert(active[i] == x);
                assert forall|k: int| from <= k < i implies prev.contains(
                    #[trigger] active[k],
                ) by {}
            }
        } else {
            assert(active[from] == edge_from(active, prev, from).unwrap());
        }
    }
}

// ---------------------------------------------------------------------
// Saves
// ---------------------------------------------------------------------

/// A save is written exactly where there is somewhere to write it and it is
/// not what was written last; where there is somewhere, the file that holds it
/// is the one that is named.
pub proof fn law_when_saves_are_written(rt: Runtime, sram: Option<Vec<u8>>)
    ensures
        sram is None || !rt.has_storage || rt.save_file is None ==> !writes_back(rt, sram),
        sram matches Some(b) ==> rt.has_storage && rt.save_file is Some ==> (writes_back(rt, sram)
            <==> rt.saved_crc != Some(crc32_of(b@))),
        rt.has_storage && sram is Some ==> (rt.save_file matches Some(f) ==> persisted_into(
            rt,
            sram,
        ) == Some(f@)),
        sram is None ==> persisted_into(rt, sram) == crate::runtime::maybe_text(
            rt.last_persisted_save,
        ),
{
}

/// Closing a session counts as a change, and closing nothing does not.
pub proof fn law_closing_counts_as_a_change(rt: Runtime)
    requires
        rt.epoch < u64::MAX,
    ensures
        rt.session is Some ==> after_close(rt) == rt.epoch + 1,
        rt.session is None ==> after_close(rt) == rt.epoch,
{
}

/// The save of a session that is over is the one its machine was left with.
pub proof fn law_the_handoff_has_the_save(s: Session)
    ensures
        s.shared.handoff is None ==> snapshot_of(Some(s)) is None,
        s.shared.handoff matches Some(h) ==> (h.save matches Some(b) ==> snapshot_of(Some(s))
            == Some(b@)),
        s.shared.handoff matches Some(h) ==> (h.save is None ==> snapshot_of(Some(s)) is None),
        snapshot_of(None) is None,
        s.shared.end matches Some(e) ==> recorded_end(s.shared) == e,
        s.shared.end is None ==> recorded_end(s.shared) == SessionEnd::LocalQuit,
{
}

// ---------------------------------------------------------------------
// What is said
// ---------------------------------------------------------------------

/// What is said when a cable came out: who did it, counted from one, or at what
/// tick the machines parted.
pub proof fn law_what_is_said_of_an_unplugged_cable(player: usize, tick: u32)
    ensures
        unplug_text(SessionEnd::PeerQuit { player }) == "Player "@ + decimal(player as nat + 1)
            + " unplugged."@,
        unplug_text(SessionEnd::PeerDisconnected { player }) == "Connection to player "@ + decimal(
            player as nat + 1,
        ) + " lost."@,
        unplug_text(SessionEnd::Desync { tick }) == "Desync at tick "@ + decimal(tick as nat)
            + " — cable unplugged."@,
        unplug_text(SessionEnd::Unplugged) == "Unplugged."@,
{
}

/// What is said of a machine that cannot be captured.
pub proof fn law_what_is_said_of_a_failed_capture()
    ensures
        capture_error_text(CaptureError::GameEnded) == "the game ended"@,
        capture_error_text(CaptureError::NotSolo) == "this session's machine can't be captured"@,
        capture_error_text(CaptureError::Unavailable) == "machine unavailable"@,
{
}

// ---------------------------------------------------------------------
// Keys and overlays
// ---------------------------------------------------------------------

/// Where a key goes: to a pending capture, which takes every press; Escape to
/// the overlays of a running session, and to the browser otherwise; everything
/// else to the game.
pub proof fn law_where_a_key_goes(
    capturing: bool,
    code: Seq<char>,
    pressed: bool,
    running: bool,
)
    ensures
        capturing && pressed ==> key_route(capturing, code, pressed, running) == KeyRoute::Swallow,
        !(capturing && pressed) && code != "Escape"@ ==> key_route(
            capturing,
            code,
            pressed,
            running,
        ) == KeyRoute::Game,
        !(capturing && pressed) && code == "Escape"@ ==> key_route(
            capturing,
            code,
            pressed,
            running,
        ) == (if pressed && running {
            KeyRoute::Swallow
        } else {
            KeyRoute::Pass
        }),
{
}

/// A press ends a pending capture: Escape without a binding, any other key with
/// it bound to the control that waited. Releases, and presses nobody waits
/// for, change nothing.
pub proof fn law_what_a_press_captures(c: CaptureView, code: Seq<char>, pressed: bool)
    ensures
        !pressed || c.target is None ==> key_captured(c, code, pressed) == c,
        pressed && c.target is Some && code == "Escape"@ ==> key_captured(c, code, pressed) == (
        CaptureView { target: None, captured: c.captured }),
        pressed && c.target is Some && code != "Escape"@ ==> key_captured(c, code, pressed) == (
        CaptureView { target: None, captured: Some((c.target.unwrap(), code)) }),
{
}

/// Escape closes the panel where that is all that is open, and opens or closes
/// the menu otherwise. Opening the menu or the panel by its button closes the
/// other, and pressing it again closes it.
pub proof fn law_what_opens_and_closes(o: Overlays)
    ensures
        o.panel_open && !o.menu_open ==> !escaped(o).panel_open && !escaped(o).menu_open,
        !o.panel_open ==> escaped(o).menu_open == !o.menu_open && !escaped(o).panel_open,
        o.menu_open ==> !escaped(o).menu_open,
        !o.menu_open ==> menu_toggled(o).menu_open && !menu_toggled(o).panel_open,
        o.menu_open ==> !menu_toggled(o).menu_open && menu_toggled(o).panel_open == o.panel_open,
        !o.panel_open ==> panel_toggled(o).panel_open && !panel_toggled(o).menu_open,
        o.panel_open ==> !panel_toggled(o).panel_open && panel_toggled(o).menu_open == o.menu_open,
        menu_closed(o) == (Overlays { menu_open: false, panel_open: o.panel_open }),
{
}

} // verus!
