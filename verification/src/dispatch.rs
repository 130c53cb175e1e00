//! Effect dispatch planning: mapping a fired toggle to the parameters of a
//! call on the matching effect transmitter, and describing a fired toggle
//! for the observer.  The transmitters themselves live outside the engine;
//! a failure of one dispatch never stops the remaining toggles.

use vstd::prelude::*;
use vstd::string::*;

use crate::config::{Config, OscArgValue, Toggle};
use crate::errors::EngineError;
use crate::strutil::{decimal_int_of, decimal_of, fmt_i64, fmt_u64, seq_eq_ci, str_eq_ci};

verus! {

/// The parameters of one call on an effect transmitter.
pub enum ToggleCommand {
    Osc { address: String, path: String, arg: OscArgValue },
    ArtNet {
        broadcast_address: String,
        local_address: Option<String>,
        universe: u16,
        channel: u16,
        value: u8,
    },
    Sacn { broadcast_address: String, universe: u16, channel: u16, value: u8 },
    Wled { host: String, preset: String },
}

/// Whether a toggle can be dispatched at all: its output kind is known, the
/// matching transmitter is configured, and the toggle carries the matching
/// settings.
pub open spec fn spec_plannable(config: Config, t: Toggle) -> bool {
    if seq_eq_ci(t.output@, "osc"@) {
        config.osc is Some && t.osc is Some
    } else if seq_eq_ci(t.output@, "artnet"@) {
        config.artnet is Some && t.artnet is Some
    } else if seq_eq_ci(t.output@, "sacn"@) {
        config.sacn is Some && t.sacn is Some
    } else if seq_eq_ci(t.output@, "wled"@) {
        config.wled is Some && t.wled is Some
    } else {
        false
    }
}

/// The planned transmitter call of a dispatchable toggle.
pub open spec fn spec_command(config: Config, t: Toggle) -> ToggleCommand
    recommends
        spec_plannable(config, t),
{
    if seq_eq_ci(t.output@, "osc"@) {
        ToggleCommand::Osc {
            address: config.osc->Some_0.address,
            path: t.osc->Some_0.path,
            arg: t.osc->Some_0.arg_value,
        }
    } else if seq_eq_ci(t.output@, "artnet"@) {
        ToggleCommand::ArtNet {
            broadcast_address: config.artnet->Some_0.broadcast_address,
            local_address: config.artnet->Some_0.local_address,
            universe: match t.artnet->Some_0.universe {
                Some(u) => u,
                None => match config.artnet->Some_0.universe {
                    Some(u) => u,
                    None => 0u16,
                },
            },
            channel: t.artnet->Some_0.channel,
            value: t.artnet->Some_0.value,
        }
    } else if seq_eq_ci(t.output@, "sacn"@) {
        ToggleCommand::Sacn {
            broadcast_address: config.sacn->Some_0.broadcast_address,
            universe: match t.sacn->Some_0.universe {
                Some(u) => u,
                None => match config.sacn->Some_0.universe {
                    Some(u) => u,
                    None => 1u16,
                },
            },
            channel: t.sacn->Some_0.channel,
            value: t.sacn->Some_0.value,
        }
    } else {
        ToggleCommand::Wled { host: config.wled->Some_0.host, preset: t.wled->Some_0.preset }
    }
}

fn clone_opt_string(s: &Option<String>) -> (r: Option<String>)
    ensures
        r == *s,
{
    match s {
        Some(v) => Some(v.clone()),
        None => None,
    }
}

/// Plan the transmitter call for one fired toggle.  A toggle whose output
/// kind is unknown, whose transmitter is not configured, or which lacks the
/// matching settings is a configuration mismatch: reported and skipped, not
/// fatal, and the remaining toggles still fire.
pub fn plan_dispatch(config: &Config, toggle: &Toggle) -> (r: Result<ToggleCommand, EngineError>)
    ensures
        r is Ok <==> spec_plannable(*config, *toggle),
        r matches Ok(c) ==> c == spec_command(*config, *toggle),
        r matches Err(e) ==> e is ConfigMismatchError,
{
    if str_eq_ci(toggle.output.as_str(), "osc") {
        let osc_cfg = match &config.osc {
            Some(c) => c,
            None => {
                return Err(
                    EngineError::ConfigMismatchError(
                        String::from_str("an OSC toggle is configured but OSC is not"),
                    ),
                );
            },
        };
        match &toggle.osc {
            Some(t) => Ok(
                ToggleCommand::Osc {
                    address: osc_cfg.address.clone(),
                    path: t.path.clone(),
                    arg: match &t.arg_value {
                        OscArgValue::Int(i) => OscArgValue::Int(*i),
                        OscArgValue::Text(s) => OscArgValue::Text(s.clone()),
                    },
                },
            ),
            None => Err(
                EngineError::ConfigMismatchError(
                    String::from_str("an OSC toggle is missing its OSC settings"),
                ),
            ),
        }
    } else if str_eq_ci(toggle.output.as_str(), "artnet") {
        let artnet_cfg = match &config.artnet {
            Some(c) => c,
            None => {
                return Err(
                    EngineError::ConfigMismatchError(
                        String::from_str("an Art-Net toggle is configured but Art-Net is not"),
                    ),
                );
            },
        };
        match &toggle.artnet {
            Some(t) => Ok(
                ToggleCommand::ArtNet {
                    broadcast_address: artnet_cfg.broadcast_address.clone(),
                    local_address: clone_opt_string(&artnet_cfg.local_address),
                    universe: match t.universe {
                        Some(u) => u,
                        None => match artnet_cfg.universe {
                            Some(u) => u,
                            None => 0,
                        },
                    },
                    channel: t.channel,
                    value: t.value,
                },
            ),
            None => Err(
                EngineError::ConfigMismatchError(
                    String::from_str("an Art-Net toggle is missing its Art-Net settings"),
                ),
            ),
        }
    } else if str_eq_ci(toggle.output.as_str(), "sacn") {
        let sacn_cfg = match &config.sacn {
            Some(c) => c,
            None => {
                return Err(
                    EngineError::ConfigMismatchError(
                        String::from_str("an sACN toggle is configured but sACN is not"),
                    ),
                );
            },
        };
        match &toggle.sacn {
            Some(t) => Ok(
                ToggleCommand::Sacn {
                    broadcast_address: sacn_cfg.broadcast_address.clone(),
                    universe: match t.universe {
                        Some(u) => u,
                        None => match sacn_cfg.universe {
                            Some(u) => u,
                            None => 1,
                        },
                    },
                    channel: t.channel,
                    value: t.value,
                },
            ),
            None => Err(
                EngineError::ConfigMismatchError(
                    String::from_str("an sACN toggle is missing its sACN settings"),
                ),
            ),
        }
    } else if str_eq_ci(toggle.output.as_str(), "wled") {
        let wled_cfg = match &config.wled {
            Some(c) => c,
            None => {
                return Err(
                    EngineError::ConfigMismatchError(
                        String::from_str("a WLED toggle is configured but WLED is not"),
                    ),
                );
            },
        };
        match &toggle.wled {
            Some(t) => Ok(
                ToggleCommand::Wled { host: wled_cfg.host.clone(), preset: t.preset.clone() },
            ),
            None => Err(
                EngineError::ConfigMismatchError(
                    String::from_str("a WLED toggle is missing its WLED settings"),
                ),
            ),
        }
    } else {
        Err(EngineError::ConfigMismatchError(String::from_str("unknown toggle output kind")))
    }
}

/// The text an OSC argument shows in a description: a quoted string, or the
/// number's digits.
pub open spec fn spec_osc_arg_text(v: OscArgValue) -> Seq<char> {
    match v {
        OscArgValue::Int(i) => decimal_int_of(i as int),
        OscArgValue::Text(s) => seq!['"'] + s@ + seq!['"'],
    }
}

/// The description of a fired toggle, as the observer shows it.
pub open spec fn spec_toggle_description(t: Toggle) -> Seq<char> {
    if seq_eq_ci(t.output@, "osc"@) {
        match t.osc {
            Some(o) => "OSC "@ + o.path@ + ": "@ + spec_osc_arg_text(o.arg_value),
            None => "OSC"@,
        }
    } else if seq_eq_ci(t.output@, "artnet"@) {
        match t.artnet {
            Some(a) => "Art-Net ch"@ + decimal_of(a.channel as int) + ": "@ + decimal_of(
                a.value as int,
            ),
            None => "Art-Net"@,
        }
    } else if seq_eq_ci(t.output@, "sacn"@) {
        match t.sacn {
            Some(s) => "sACN ch"@ + decimal_of(s.channel as int) + ": "@ + decimal_of(
                s.value as int,
            ),
            None => "sACN"@,
        }
    } else if seq_eq_ci(t.output@, "wled"@) {
        match t.wled {
            Some(w) => "WLED: "@ + w.preset@,
            None => "WLED"@,
        }
    } else {
        t.output@
    }
}

/// Describe a fired toggle for the observer.
pub fn format_toggle_description(toggle: &Toggle) -> (r: String)
    ensures
        r@ == spec_toggle_description(*toggle),
{
    if str_eq_ci(toggle.output.as_str(), "osc") {
        match &toggle.osc {
            Some(o) => {
                let mut text = String::from_str("OSC ");
                text.append(o.path.as_str());
                text.append(": ");
                match &o.arg_value {
                    OscArgValue::Int(i) => {
                        let digits = fmt_i64(*i);
                        text.append(digits.as_str());
                    },
                    OscArgValue::Text(s) => {
                        text.append("\"");
                        text.append(s.as_str());
                        text.append("\"");
                        proof {
                            reveal_strlit("\"");
                            assert("\""@ =~= seq!['"']);
                        }
                    },
                }
                text
            },
            None => String::from_str("OSC"),
        }
    } else if str_eq_ci(toggle.output.as_str(), "artnet") {
        match &toggle.artnet {
            Some(a) => {
                let mut text = String::from_str("Art-Net ch");
                let channel = fmt_u64(a.channel as u64);
                text.append(channel.as_str());
                text.append(": ");
                let value = fmt_u64(a.value as u64);
                text.append(value.as_str());
                text
            },
            None => String::from_str("Art-Net"),
        }
    } else if str_eq_ci(toggle.output.as_str(), "sacn") {
        match &toggle.sacn {
            Some(s) => {
                let mut text = String::from_str("sACN ch");
                let channel = fmt_u64(s.channel as u64);
                text.append(channel.as_str());
                text.append(": ");
                let value = fmt_u64(s.value as u64);
                text.append(value.as_str());
                text
            },
            None => String::from_str("sACN"),
        }
    } else if str_eq_ci(toggle.output.as_str(), "wled") {
        match &toggle.wled {
            Some(w) => {
                let mut text = String::from_str("WLED: ");
                text.append(w.preset.as_str());
                text
            },
            None => String::from_str("WLED"),
        }
    } else {
        let mut text = String::new();
        text.append(toggle.output.as_str());
        text
    }
}

} // verus!
