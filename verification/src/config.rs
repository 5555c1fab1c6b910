//! App configuration, and the signaling server it points at.
use vstd::prelude::*;
use crate::input::{default_slots, slots_view, Mapping};

verus! {

/// The signaling server every build points at; overridden per page load by a
/// query parameter (there is no settings knob).
pub const DEFAULT_SIGNALING: &'static str = "wss://gbaroll-signaling.farts.fyi";

/// The query parameter that overrides the signaling server.
pub const SIGNALING_PARAM: &'static str = "signaling_server_addr";

/// Where the configuration is kept.
pub const KEY: &'static str = "gbaroll.config";

/// The signaling server for a page load, by what the page's query gives as
/// [`SIGNALING_PARAM`].
pub fn signaling_server(param: Option<String>) -> (url: String)
    ensures
        url@ == (match param {
            Some(v) if v@.len() > 0 => v@,
            _ => DEFAULT_SIGNALING@,
        }),
{
    match param {
        Some(v) => {
            let chars = crate::text::chars_of(v.as_str());
            if chars.len() > 0 {
                v
            } else {
                DEFAULT_SIGNALING.to_owned()
            }
        },
        None => DEFAULT_SIGNALING.to_owned(),
    }
}

#[derive(Debug)]
pub struct Config {
    pub nick: String,
    /// How many ticks behind the input frontier to present (the input delay
    /// and rollback depth tradeoff), adjustable live in-session.
    pub present_delay: u32,
    /// Master volume, from 0 to 1, as the bits of an IEEE single.
    pub volume: u32,
    /// Snap the game image to integer multiples of its size.
    pub integer_scaling: bool,
    /// The library's last-picked game, restored on load.
    pub last_game: Option<u32>,
    pub mapping: Mapping,
}

/// What a [`Config`] is before anything was set: full volume is the bits of 1.
pub open spec fn is_default(c: Config) -> bool {
    &&& c.nick@ == "player"@
    &&& c.present_delay == 2
    &&& c.volume == 0x3f80_0000
    &&& c.integer_scaling
    &&& c.last_game is None
    &&& c.mapping.wf()
    &&& slots_view(c.mapping.slots@) == default_slots()
}

impl Default for Config {
    fn default() -> (c: Config)
        ensures
            is_default(c),
    {
        Config {
            nick: "player".to_owned(),
            present_delay: 2,
            volume: 0x3f80_0000,
            integer_scaling: true,
            last_game: None,
            mapping: Mapping::default(),
        }
    }
}

impl Config {
    /// The configuration to start with: what was kept, where it can be read.
    pub fn load(kept: Option<Config>) -> (c: Config)
        ensures
            match kept {
                Some(k) => c == k,
                None => is_default(c),
            },
    {
        match kept {
            Some(k) => k,
            None => Config::default(),
        }
    }
}

/// What the configuration is before anyone changes it: a nick, a delay of two
/// ticks, full volume, whole pixels, and no game to come back to. Whoever names
/// no server of their own is sent to the usual one.
pub proof fn law_what_the_configuration_is_at_first(c: Config)
    requires
        is_default(c),
    ensures
        c.nick@ == "player"@,
        c.present_delay == 2,
        c.volume == 0x3f80_0000,
        c.integer_scaling,
        c.last_game is None,
        slots_view(c.mapping.slots@) == default_slots(),
        DEFAULT_SIGNALING@ == "wss://gbaroll-signaling.farts.fyi"@,
{
}

} // verus!
