//! The connected cable's telemetry: what a reading is worth, and how it reads.
//! The clock metrics (skew, lead, rollback depth) are one shared reading for
//! the whole link, while ping is per-peer, so the panel grows with the number
//! of clients instead of assuming a single opponent.
use vstd::prelude::*;
use crate::session::{peer_stats_view, MetricSample, PeerStat, PeerStatView};
use crate::text::{decimal, push_decimal, same_text};
use crate::ui::play::maybe;

verus! {

/// Health tone for a reading, driving both the value colour and the sparkline
/// wash.
#[derive(Debug, Clone, Copy, PartialEq, Eq, Structural)]
pub enum Tone {
    Muted,
    Good,
    Warn,
    Bad,
}

/// A tone's colour.
pub open spec fn tone_color(t: Tone) -> Seq<char> {
    match t {
        Tone::Muted => "#565f89"@,
        Tone::Good => "#9ece6a"@,
        Tone::Warn => "#e0af68"@,
        Tone::Bad => "#f7768e"@,
    }
}

impl Tone {
    /// A tone's colour.
    pub fn css(self) -> (c: &'static str)
        ensures
            c@ == tone_color(self),
    {
        match self {
            Tone::Muted => "#565f89",
            Tone::Good => "#9ece6a",
            Tone::Warn => "#e0af68",
            Tone::Bad => "#f7768e",
        }
    }
}

/// How far a reading is from 0, in 32 bits with a sign: the lowest has no
/// counterpart and stays what it is.
pub open spec fn magnitude(v: i32) -> i32 {
    if v == i32::MIN || v >= 0 {
        v
    } else {
        (-v) as i32
    }
}

/// The tone of a reading by how far it is from 0.
pub open spec fn tone_by_distance(v: i32, good: i32, warn: i32) -> Tone {
    if magnitude(v) <= good {
        Tone::Good
    } else if magnitude(v) <= warn {
        Tone::Warn
    } else {
        Tone::Bad
    }
}

/// The tone of a reading by how far it is from 0.
pub fn tone_for_abs(v: i32, good: i32, warn: i32) -> (t: Tone)
    ensures
        t == tone_by_distance(v, good, warn),
{
    let v: i32 = if v == i32::MIN || v >= 0 {
        v
    } else {
        -v
    };
    if v <= good {
        Tone::Good
    } else if v <= warn {
        Tone::Warn
    } else {
        Tone::Bad
    }
}

/// The tone of a round trip, in microseconds.
pub fn tone_for_ping(micros: u64) -> (t: Tone)
    ensures
        t == (if micros < 80_000 {
            Tone::Good
        } else if micros < 140_000 {
            Tone::Warn
        } else {
            Tone::Bad
        }),
{
    if micros < 80_000 {
        Tone::Good
    } else if micros < 140_000 {
        Tone::Warn
    } else {
        Tone::Bad
    }
}

/// Per-seat identity colours: the lobby roster's dots and the shared ping
/// graph's traces, both indexed by player seat so they agree. Deliberately
/// disjoint from the health tones so identity never reads as a judgement.
pub const PEER_COLORS: [&'static str; 5] = ["#7dcfff", "#bb9af7", "#73daca", "#ff9e64", "#7aa2f7"];

/// A seat's identity colour. A room can seat more players than there are
/// colours; they cycle.
pub fn seat_color(player: usize) -> (c: &'static str)
    ensures
        c == PEER_COLORS@[player as int % 5],
{
    PEER_COLORS[player % 5]
}

/// The signal-strength glyph for the cable chip.
#[derive(Debug, Clone, Copy, PartialEq, Eq, Structural)]
pub enum Signal {
    High,
    Medium,
    Low,
}

/// The signal strength of a skew.
pub open spec fn signal_of(skew: int) -> Signal {
    if -3 <= skew <= 3 {
        Signal::High
    } else if -7 <= skew <= 7 {
        Signal::Medium
    } else {
        Signal::Low
    }
}

/// The signal-strength glyph for the cable chip, keyed off skew.
pub fn signal_icon(skew: i32) -> (s: Signal)
    ensures
        s == signal_of(skew as int),
{
    if -3 <= skew && skew <= 3 {
        Signal::High
    } else if -7 <= skew && skew <= 7 {
        Signal::Medium
    } else {
        Signal::Low
    }
}

/// The chip glyph's colour for a skew reading (the tone scale of the skew
/// metric).
pub fn skew_tone_css(skew: i32) -> (c: &'static str)
    ensures
        c@ == tone_color(tone_by_distance(skew, 3, 7)),
{
    tone_for_abs(skew, 3, 7).css()
}

// ---------------------------------------------------------------------
// The card
// ---------------------------------------------------------------------

/// Which face of the connected card is up.
#[derive(Debug, Clone, Copy, PartialEq, Eq, Structural)]
pub enum TeleTab {
    Stats,
    Room,
}

/// What the connected card shows. The room stays live while the session runs:
/// the code keeps inviting and the roster keeps changing.
#[derive(Debug, Clone, Copy, PartialEq, Eq, Structural)]
pub enum CardBody {
    Stats,
    Room,
    /// The room is gone; the session plays on.
    RoomGone,
}

/// What the connected card shows.
pub fn card_body(tab: TeleTab, in_room: bool) -> (b: CardBody)
    ensures
        b == (match tab {
            TeleTab::Stats => CardBody::Stats,
            TeleTab::Room => if in_room {
                CardBody::Room
            } else {
                CardBody::RoomGone
            },
        }),
{
    match tab {
        TeleTab::Stats => CardBody::Stats,
        TeleTab::Room => if in_room {
            CardBody::Room
        } else {
            CardBody::RoomGone
        },
    }
}

/// The way out. Leaving covers both the room and the link; with the room
/// already gone, only the link remains to let go of.
pub fn leave_label(in_room: bool) -> (t: &'static str)
    ensures
        t@ == (if in_room {
            "Leave the room"@
        } else {
            "Disconnect"@
        }),
{
    if in_room {
        "Leave the room"
    } else {
        "Disconnect"
    }
}

// ---------------------------------------------------------------------
// Readings
// ---------------------------------------------------------------------

/// A metric's newest reading.
#[derive(Debug)]
pub struct Reading {
    pub value: String,
    pub tone: Tone,
}

/// What a [`Reading`] says.
#[verifier::ext_equal]
pub struct ReadingView {
    pub value: Seq<char>,
    pub tone: Tone,
}

impl View for Reading {
    type V = ReadingView;

    open spec fn view(&self) -> ReadingView {
        ReadingView { value: self.value@, tone: self.tone }
    }
}

/// A whole number in decimal, with its sign where it is below 0.
pub open spec fn signed(v: int) -> Seq<char> {
    if v < 0 {
        "-"@ + decimal((-v) as nat)
    } else {
        decimal(v as nat)
    }
}

/// A whole number in decimal, always with its sign.
pub open spec fn always_signed(v: int) -> Seq<char> {
    if v < 0 {
        signed(v)
    } else {
        "+"@ + decimal(v as nat)
    }
}

fn push_signed(t: &mut String, v: i32)
    ensures
        final(t)@ == old(t)@ + signed(v as int),
{
    let wide: i64 = v as i64;
    if wide < 0 {
        t.append("-");
        push_decimal(t, (-wide) as u64);
    } else {
        push_decimal(t, wide as u64);
    }
    assert(t@ =~= old(t)@ + signed(v as int));
}

/// What is read before anything was sampled.
pub open spec fn no_reading() -> ReadingView {
    ReadingView { value: "—"@, tone: Tone::Muted }
}

/// The reading of the skew.
pub open spec fn skew_reading_of(latest: Option<i32>) -> ReadingView {
    match latest {
        Some(v) => ReadingView {
            value: always_signed(v as int),
            tone: tone_by_distance(v, 3, 7),
        },
        None => no_reading(),
    }
}

/// The reading of the lead.
pub open spec fn lead_reading_of(latest: Option<i32>) -> ReadingView {
    match latest {
        Some(v) => ReadingView { value: signed(v as int), tone: tone_by_distance(v, 8, 16) },
        None => no_reading(),
    }
}

/// The reading of the misprediction depth.
pub open spec fn depth_reading_of(latest: Option<u32>) -> ReadingView {
    match latest {
        Some(v) => ReadingView {
            value: decimal(v as nat),
            tone: tone_by_distance(v as i32, 2, 5),
        },
        None => no_reading(),
    }
}

fn nothing_read() -> (r: Reading)
    ensures
        r@ == no_reading(),
{
    Reading { value: "—".to_owned(), tone: Tone::Muted }
}

fn empty_text() -> (t: String)
    ensures
        t@.len() == 0,
{
    proof {
        reveal_strlit("");
    }
    "".to_owned()
}

/// The reading of the skew.
pub fn skew_reading(latest: Option<&MetricSample>) -> (r: Reading)
    ensures
        r@ == skew_reading_of(
            match latest {
                Some(s) => Some(s.skew),
                None => None,
            },
        ),
{
    match latest {
        Some(s) => {
            let mut value = empty_text();
            if s.skew >= 0 {
                value.append("+");
            }
            push_signed(&mut value, s.skew);
            assert(value@ =~= always_signed(s.skew as int));
            Reading { value, tone: tone_for_abs(s.skew, 3, 7) }
        },
        None => nothing_read(),
    }
}

/// The reading of the lead.
pub fn lead_reading(latest: Option<&MetricSample>) -> (r: Reading)
    ensures
        r@ == lead_reading_of(
            match latest {
                Some(s) => Some(s.lead),
                None => None,
            },
        ),
{
    match latest {
        Some(s) => {
            let mut value = empty_text();
            push_signed(&mut value, s.lead);
            assert(value@ =~= signed(s.lead as int));
            Reading { value, tone: tone_for_abs(s.lead, 8, 16) }
        },
        None => nothing_read(),
    }
}

/// The reading of the misprediction depth.
pub fn depth_reading(latest: Option<&MetricSample>) -> (r: Reading)
    ensures
        r@ == depth_reading_of(
            match latest {
                Some(s) => Some(s.depth),
                None => None,
            },
        ),
{
    match latest {
        Some(s) => {
            let mut value = empty_text();
            push_decimal(&mut value, s.depth as u64);
            assert(value@ =~= decimal(s.depth as nat));
            Reading { value, tone: tone_for_abs(s.depth as i32, 2, 5) }
        },
        None => nothing_read(),
    }
}

/// A peer's newest round trip, where the sample knows one.
pub fn latest_ping(latest: Option<&MetricSample>, slot: usize) -> (p: Option<u64>)
    ensures
        p == (match latest {
            Some(s) if slot < s.pings@.len() => s.pings@[slot as int],
            _ => None,
        }),
{
    match latest {
        Some(s) => {
            if slot < s.pings.len() {
                s.pings[slot]
            } else {
                None
            }
        },
        None => None,
    }
}

// ---------------------------------------------------------------------
// The present delay
// ---------------------------------------------------------------------

/// The longest present delay, in ticks.
pub const MAX_PRESENT_DELAY: u32 = 10;

/// The longest round trip among the peers, or 0 where none is known.
pub open spec fn worst_ping_of(peers: Seq<PeerStatView>) -> u64
    decreases peers.len(),
{
    if peers.len() == 0 {
        0
    } else {
        let rest = worst_ping_of(peers.drop_last());
        match peers.last().rtt_micros {
            Some(r) if r > rest => r,
            _ => rest,
        }
    }
}

/// The longest round trip among the peers.
pub fn worst_ping(peers: &Vec<PeerStat>) -> (w: u64)
    ensures
        w == worst_ping_of(peer_stats_view(peers@)),
{
    let ghost pv = peer_stats_view(peers@);
    let mut w: u64 = 0;
    let mut i: usize = 0;
    while i < peers.len()
        invariant
            i <= peers@.len(),
            pv == peer_stats_view(peers@),
            w == worst_ping_of(pv.take(i as int)),
        decreases peers@.len() - i,
    {
        proof {
            assert(pv.take(i + 1).drop_last() =~= pv.take(i as int));
            assert(pv.take(i + 1).last() == peers@[i as int]@);
        }
        match peers[i].rtt_micros {
            Some(r) => {
                if r > w {
                    w = r;
                }
            },
            None => {},
        }
        i = i + 1;
    }
    assert(pv.take(i as int) =~= pv);
    w
}

/// A present delay as it can be chosen.
pub fn clamp_delay(v: u32) -> (d: u32)
    ensures
        d == if v < MAX_PRESENT_DELAY {
            v
        } else {
            MAX_PRESENT_DELAY
        },
{
    if v < MAX_PRESENT_DELAY {
        v
    } else {
        MAX_PRESENT_DELAY
    }
}

// ---------------------------------------------------------------------
// The room's code
// ---------------------------------------------------------------------

/// The code copied by itself when its room was created. The panel unmounts and
/// remounts as it closes and reopens, and only the creation should touch the
/// clipboard.
#[derive(Debug)]
pub struct AutoCopy {
    pub copied: Option<String>,
}

impl AutoCopy {
    /// Whether to copy a code now, the room being our own or not.
    pub fn due(&mut self, code: &str, created: bool) -> (b: bool)
        ensures
            b == (created && maybe(old(self).copied) != Some(code@)),
            maybe(final(self).copied) == (if b {
                Some(code@)
            } else {
                maybe(old(self).copied)
            }),
    {
        let same = match &self.copied {
            Some(c) => same_text(c.as_str(), code),
            None => false,
        };
        if created && !same {
            self.copied = Some(code.to_owned());
            true
        } else {
            false
        }
    }
}

// ---------------------------------------------------------------------
// Laws
// ---------------------------------------------------------------------

/// No peer's round trip is longer than the longest.
pub proof fn law_the_worst_ping_is_the_worst(peers: Seq<PeerStatView>, i: int)
    requires
        0 <= i < peers.len(),
    ensures
        peers[i].rtt_micros matches Some(r) ==> r <= worst_ping_of(peers),
    decreases peers.len(),
{
    if i < peers.len() - 1 {
        law_the_worst_ping_is_the_worst(peers.drop_last(), i);
    }
}

/// Up to as many seats as there are colours, no two share one.
pub proof fn law_seats_are_told_apart(a: usize, b: usize)
    requires
        a < 5,
        b < 5,
        a != b,
    ensures
        PEER_COLORS@[a as int % 5]@ != PEER_COLORS@[b as int % 5]@,
{
    reveal_strlit("#7dcfff");
    reveal_strlit("#bb9af7");
    reveal_strlit("#73daca");
    reveal_strlit("#ff9e64");
    reveal_strlit("#7aa2f7");
    assert("#7dcfff"@[1] == '7' && "#7dcfff"@[2] == 'd');
    assert("#bb9af7"@[1] == 'b');
    assert("#73daca"@[1] == '7' && "#73daca"@[2] == '3');
    assert("#ff9e64"@[1] == 'f');
    assert("#7aa2f7"@[1] == '7' && "#7aa2f7"@[2] == 'a');
}

} // verus!
