//! Static configuration, read-only at run time: the connection settings for
//! each boost source and effect transmitter, and the list of configured
//! toggles (effect triggers).
//!
//! The surrounding process reads these from its configuration file and hands
//! them in as plain values.

use vstd::prelude::*;

verus! {

/// Common filter fields for boost sources, as written in the configuration:
/// timestamps still as decimal strings.
#[derive(Clone, Debug)]
pub struct BoostFiltersConfig {
    pub load_since: Option<String>,
    pub after: Option<String>,
    pub before: Option<String>,
    pub podcasts: Option<Vec<String>>,
    pub episode_guids: Option<Vec<String>>,
    pub event_guids: Option<Vec<String>>,
}

#[derive(Clone, Debug)]
pub struct BoostBoard {
    pub relay_addrs: Vec<String>,
    pub pubkey: String,
    pub filters: BoostFiltersConfig,
}

#[derive(Clone, Debug)]
pub struct NWC {
    pub uri: String,
    pub filters: BoostFiltersConfig,
}

#[derive(Clone, Debug)]
pub struct Zaps {
    pub relay_addrs: Vec<String>,
    pub naddr: String,
    pub load_since: Option<String>,
}

#[derive(Clone, Debug)]
pub struct OSC {
    pub address: String,
}

#[derive(Clone, Debug)]
pub struct ArtNet {
    pub broadcast_address: String,
    pub local_address: Option<String>,
    pub universe: Option<u16>,
}

#[derive(Clone, Debug)]
pub struct Sacn {
    pub broadcast_address: String,
    pub universe: Option<u16>,
}

#[derive(Clone, Debug)]
pub struct WLed {
    pub host: String,
    pub boost_playlist: String,
    pub brightness: u64,
    pub segments: Option<Vec<WLedSegment>>,
    pub presets: Option<Vec<WLedPreset>>,
    pub playlists: Option<Vec<WLedPlaylist>>,
    pub setup: bool,
    pub force: bool,
}

#[derive(Clone, Debug)]
pub struct WLedSegment {
    pub name: String,
    pub start: u64,
    pub stop: u64,
    pub reverse: Option<bool>,
    pub grouping: Option<u64>,
}

#[derive(Clone, Debug)]
pub struct WLedPreset {
    pub name: String,
    pub speed: Option<u64>,
    pub intensity: Option<u64>,
    pub colors: Vec<Vec<u64>>,
    pub colors2: Option<Vec<Vec<u64>>>,
    pub colors3: Option<Vec<Vec<u64>>>,
    pub effects: Vec<String>,
}

#[derive(Clone, Debug)]
pub struct WLedPlaylist {
    pub name: String,
    pub presets: Vec<String>,
    pub durations: Vec<u64>,
    pub transitions: Vec<u64>,
    pub repeat: u64,
    pub end: String,
}

/// An argument carried by an OSC toggle.  A fractional argument is rendered
/// to its text form before it reaches the engine.
#[derive(Clone, Debug)]
pub enum OscArgValue {
    Int(i64),
    Text(String),
}

#[derive(Clone, Debug)]
pub struct ToggleOsc {
    pub path: String,
    pub arg_value: OscArgValue,
}

#[derive(Clone, Debug)]
pub struct ToggleArtNet {
    pub universe: Option<u16>,
    pub channel: u16,
    pub value: u8,
}

#[derive(Clone, Debug)]
pub struct ToggleSacn {
    pub universe: Option<u16>,
    pub channel: u16,
    pub value: u8,
}

#[derive(Clone, Debug)]
pub struct ToggleWled {
    pub preset: String,
}

/// One configured effect trigger.
///
/// `threshold` of 0 means the toggle is not threshold-based.  `use_total`
/// compares the threshold against the cumulative total rather than the
/// individual boost amount.  `trigger_multiple` fires on every multiple of
/// the threshold rather than once.  `endswith_range` bounds the last decimal
/// digit of the individual boost's sats, inclusively.
#[derive(Clone, Debug)]
pub struct Toggle {
    pub threshold: i64,
    pub output: String,
    pub is_default: bool,
    pub use_total: bool,
    pub trigger_multiple: bool,
    pub endswith_range: Option<(u8, u8)>,
    pub osc: Option<ToggleOsc>,
    pub artnet: Option<ToggleArtNet>,
    pub sacn: Option<ToggleSacn>,
    pub wled: Option<ToggleWled>,
}

/// The value `trigger_multiple` takes when the configuration leaves it out.
pub fn default_true() -> (r: bool)
    ensures
        r == true,
{
    true
}

/// The whole configuration.
#[derive(Clone, Debug)]
pub struct Config {
    pub nwc: Option<NWC>,
    pub boostboard: Option<BoostBoard>,
    pub zaps: Option<Zaps>,
    pub osc: Option<OSC>,
    pub artnet: Option<ArtNet>,
    pub sacn: Option<Sacn>,
    pub wled: Option<WLed>,
    pub toggles: Option<Vec<Toggle>>,
}

} // verus!
