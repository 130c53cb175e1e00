use blinkyboosts::config::{
    ArtNet, Config, OscArgValue, Sacn as SacnConfig, Toggle, ToggleArtNet, ToggleOsc, ToggleSacn,
    ToggleWled, WLed as WLedConfig, OSC,
};
use blinkyboosts::dispatch::{format_toggle_description, plan_dispatch, ToggleCommand};
use blinkyboosts::dmx::{artnet_sats_data, channel_dmx_data, sats_dmx_levels};
use blinkyboosts::errors::EngineError;
use blinkyboosts::sacn::Sacn;
use blinkyboosts::wled::{choose_boost_preset, Effect, Preset, WLed};

fn bare_toggle(output: &str) -> Toggle {
    Toggle {
        threshold: 0,
        output: output.to_string(),
        is_default: true,
        use_total: false,
        trigger_multiple: true,
        endswith_range: None,
        osc: None,
        artnet: None,
        sacn: None,
        wled: None,
    }
}

fn empty_config() -> Config {
    Config {
        nwc: None,
        boostboard: None,
        zaps: None,
        osc: None,
        artnet: None,
        sacn: None,
        wled: None,
        toggles: None,
    }
}

#[test]
fn sats_levels_follow_base_256_digits() {
    assert_eq!(sats_dmx_levels(0), vec![1, 1, 1, 1]);
    assert_eq!(sats_dmx_levels(300), vec![255, 44, 1, 1]);
    assert_eq!(sats_dmx_levels(1_000_000), vec![255, 64, 66, 15]);
    assert_eq!(sats_dmx_levels(255), vec![255, 255, 1, 1]);
}

#[test]
fn channel_data_addresses_one_channel() {
    let d = channel_dmx_data(3, 77).unwrap();
    assert_eq!(d, vec![0, 0, 77]);
    assert!(matches!(channel_dmx_data(0, 1), Err(EngineError::DispatchError(_))));
    assert!(matches!(channel_dmx_data(513, 1), Err(EngineError::DispatchError(_))));
    let d = channel_dmx_data(512, 9).unwrap();
    assert_eq!(d.len(), 512);
    assert_eq!(d[511], 9);
}

#[test]
fn artnet_data_carries_a_start_code() {
    assert_eq!(artnet_sats_data(300), vec![0, 255, 44, 1, 1]);
}

#[test]
fn sacn_frames_prepend_a_missing_start_code() {
    let s = Sacn::new(None);
    assert_eq!(s.universe, 1);
    assert_eq!(s.priority, 100);
    assert_eq!(s.send_dmx(&vec![5, 6]).unwrap(), vec![0, 5, 6]);
    assert_eq!(s.send_dmx(&vec![0, 5, 6]).unwrap(), vec![0, 5, 6]);
    assert_eq!(s.send_dmx(&vec![]).unwrap(), vec![0]);
    assert!(matches!(s.send_dmx(&vec![1; 514]), Err(EngineError::DispatchError(_))));
    assert_eq!(s.trigger_for_sats(300).unwrap(), vec![0, 255, 44, 1, 1]);
    // channel 1 holds a non-zero level, so the start code is prepended:
    assert_eq!(s.trigger_channel(1, 40).unwrap(), vec![0, 40]);
    assert_eq!(s.trigger_channel(2, 40).unwrap(), vec![0, 40]);
}

#[test]
fn sacn_toggle_picks_its_universe() {
    let mut t = bare_toggle("sacn");
    t.sacn = Some(ToggleSacn { universe: None, channel: 2, value: 10 });
    let (universe, frame) = Sacn::trigger_toggle(&t, 7).unwrap();
    assert_eq!(universe, 7);
    assert_eq!(frame, vec![0, 10]);
    t.sacn = Some(ToggleSacn { universe: Some(3), channel: 2, value: 10 });
    let (universe, _) = Sacn::trigger_toggle(&t, 7).unwrap();
    assert_eq!(universe, 3);
    t.sacn = None;
    assert!(matches!(Sacn::trigger_toggle(&t, 7), Err(EngineError::ConfigMismatchError(_))));
}

#[test]
fn plan_dispatch_builds_the_matching_command() {
    let mut config = empty_config();
    config.osc = Some(OSC { address: "10.0.0.2:9000".to_string() });
    config.artnet = Some(ArtNet {
        broadcast_address: "10.0.0.255".to_string(),
        local_address: None,
        universe: Some(4),
    });

    let mut t = bare_toggle("OSC");
    t.osc = Some(ToggleOsc { path: "/light".to_string(), arg_value: OscArgValue::Int(5) });
    match plan_dispatch(&config, &t).unwrap() {
        ToggleCommand::Osc { address, path, arg } => {
            assert_eq!(address, "10.0.0.2:9000");
            assert_eq!(path, "/light");
            assert!(matches!(arg, OscArgValue::Int(5)));
        }
        _ => panic!("expected an OSC command"),
    }

    let mut t = bare_toggle("artnet");
    t.artnet = Some(ToggleArtNet { universe: None, channel: 3, value: 255 });
    match plan_dispatch(&config, &t).unwrap() {
        ToggleCommand::ArtNet { universe, channel, value, .. } => {
            assert_eq!(universe, 4);
            assert_eq!(channel, 3);
            assert_eq!(value, 255);
        }
        _ => panic!("expected an Art-Net command"),
    }
}

#[test]
fn plan_dispatch_reports_configuration_mismatches() {
    let config = empty_config();
    let mut t = bare_toggle("osc");
    t.osc = Some(ToggleOsc { path: "/x".to_string(), arg_value: OscArgValue::Int(1) });
    // the sink is not configured:
    assert!(matches!(plan_dispatch(&config, &t), Err(EngineError::ConfigMismatchError(_))));
    // the toggle lacks its settings:
    let mut config = empty_config();
    config.wled = Some(WLedConfig {
        host: "wled.local".to_string(),
        boost_playlist: "BOOST".to_string(),
        brightness: 128,
        segments: None,
        presets: None,
        playlists: None,
        setup: false,
        force: false,
    });
    let t = bare_toggle("wled");
    assert!(matches!(plan_dispatch(&config, &t), Err(EngineError::ConfigMismatchError(_))));
    // an unknown output kind:
    let t = bare_toggle("laser");
    assert!(matches!(plan_dispatch(&config, &t), Err(EngineError::ConfigMismatchError(_))));
}

#[test]
fn plan_dispatch_defaults_sacn_universe_to_one() {
    let mut config = empty_config();
    config.sacn = Some(SacnConfig { broadcast_address: "10.0.0.255".to_string(), universe: None });
    let mut t = bare_toggle("sACN");
    t.sacn = Some(ToggleSacn { universe: None, channel: 2, value: 10 });
    match plan_dispatch(&config, &t).unwrap() {
        ToggleCommand::Sacn { universe, .. } => assert_eq!(universe, 1),
        _ => panic!("expected an sACN command"),
    }
}

#[test]
fn toggle_descriptions_render_their_parameters() {
    let mut t = bare_toggle("osc");
    t.osc = Some(ToggleOsc { path: "/light".to_string(), arg_value: OscArgValue::Int(5) });
    assert_eq!(format_toggle_description(&t), "OSC /light: 5");
    t.osc = Some(ToggleOsc { path: "/x".to_string(), arg_value: OscArgValue::Text("on".to_string()) });
    assert_eq!(format_toggle_description(&t), "OSC /x: \"on\"");
    t.osc = Some(ToggleOsc { path: "/neg".to_string(), arg_value: OscArgValue::Int(-42) });
    assert_eq!(format_toggle_description(&t), "OSC /neg: -42");
    t.osc = None;
    assert_eq!(format_toggle_description(&t), "OSC");

    let mut t = bare_toggle("Artnet");
    t.artnet = Some(ToggleArtNet { universe: None, channel: 3, value: 255 });
    assert_eq!(format_toggle_description(&t), "Art-Net ch3: 255");

    let mut t = bare_toggle("sacn");
    t.sacn = Some(ToggleSacn { universe: None, channel: 2, value: 10 });
    assert_eq!(format_toggle_description(&t), "sACN ch2: 10");

    let mut t = bare_toggle("wled");
    t.wled = Some(ToggleWled { preset: "Sunset".to_string() });
    assert_eq!(format_toggle_description(&t), "WLED: Sunset");

    let t = bare_toggle("relay");
    assert_eq!(format_toggle_description(&t), "relay");
}

fn catalog() -> WLed {
    let mut w = WLed::new();
    w.set_catalog(
        "wled.local".to_string(),
        vec![
            Preset { id: 1, name: "BOOST-1002".to_string() },
            Preset { id: 2, name: "BOOST-2".to_string() },
            Preset { id: 7, name: "Fallback".to_string() },
        ],
        vec![Effect { id: 0, name: "Solid".to_string() }, Effect { id: 9, name: "Rainbow".to_string() }],
    );
    w
}

#[test]
fn wled_lookups_find_first_match_by_name() {
    let w = catalog();
    assert_eq!(w.get_preset("BOOST-2").unwrap().id, 2);
    assert!(w.get_preset("BOOST-3").is_none());
    assert_eq!(w.get_effect("Rainbow").unwrap().id, 9);
    assert_eq!(w.get_effect_id("Rainbow"), 9);
    assert_eq!(w.get_effect_id("No Such Effect"), 0);
}

#[test]
fn wled_preset_id_allocates_past_the_highest() {
    let w = catalog();
    assert_eq!(w.get_preset_id("Fallback"), 7);
    assert_eq!(w.get_preset_id("Unknown"), 8);
    let empty = WLed::new();
    assert_eq!(empty.get_preset_id("Anything"), 1);
}

#[test]
fn boost_preset_is_chosen_by_specificity() {
    let w = catalog();
    // the exact amount wins:
    assert_eq!(choose_boost_preset(&w, 1002, "Fallback").unwrap().id, 1);
    // else the last digit:
    assert_eq!(choose_boost_preset(&w, 32, "Fallback").unwrap().id, 2);
    // else the configured playlist:
    assert_eq!(choose_boost_preset(&w, 555, "Fallback").unwrap().id, 7);
    // else nothing:
    assert!(choose_boost_preset(&w, 555, "Missing").is_none());
}
