use blinkyboosts::boost_filter::{parse_load_since, BoostFilters};
use blinkyboosts::boosts::Boostagram;
use blinkyboosts::config::BoostFiltersConfig;
use blinkyboosts::errors::EngineError;

fn boost(podcast: &str, episode_guid: &str, event_guid: &str, ts: i64) -> Boostagram {
    Boostagram {
        boost_type: String::new(),
        action: "boost".to_string(),
        identifier: String::new(),
        creation_date: ts,
        sender_name: String::new(),
        app_name: String::new(),
        podcast: podcast.to_string(),
        episode: String::new(),
        sats: 100,
        message: String::new(),
        event_guid: event_guid.to_string(),
        episode_guid: episode_guid.to_string(),
        remote_feed: None,
        remote_item: None,
        is_old: false,
    }
}

fn empty_filters() -> BoostFilters {
    BoostFilters { podcasts: None, episode_guids: None, event_guids: None, after: None, before: None }
}

#[test]
fn no_content_filters_match_everything() {
    let f = empty_filters();
    assert!(f.matches(&boost("Anything", "g1", "g2", 5)));
}

#[test]
fn podcast_filter_is_case_insensitive_substring() {
    let f = BoostFilters { podcasts: Some(vec!["linux".to_string()]), ..empty_filters() };
    assert!(f.matches_boost(&boost("LINUX Unplugged", "", "", 0)));
    assert!(f.matches_boost(&boost("My Linux Show", "", "", 0)));
    assert!(!f.matches_boost(&boost("Rust Radio", "", "", 0)));
}

#[test]
fn guid_filters_are_exact() {
    let f = BoostFilters {
        episode_guids: Some(vec!["ep-1".to_string()]),
        event_guids: Some(vec!["ev-9".to_string()]),
        ..empty_filters()
    };
    assert!(f.matches_boost(&boost("", "ep-1", "", 0)));
    assert!(f.matches_boost(&boost("", "", "ev-9", 0)));
    assert!(!f.matches_boost(&boost("", "ep-2", "ev-8", 0)));
    assert!(!f.matches_boost(&boost("", "EP-1", "", 0)));
}

#[test]
fn any_configured_filter_kind_admits() {
    let f = BoostFilters {
        podcasts: Some(vec!["radio".to_string()]),
        episode_guids: Some(vec!["ep-1".to_string()]),
        ..empty_filters()
    };
    // fails the podcast filter but passes the episode-guid filter:
    assert!(f.matches_boost(&boost("Other Show", "ep-1", "", 0)));
}

#[test]
fn timestamp_bounds_are_strict() {
    let f = BoostFilters { after: Some(10), before: Some(20), ..empty_filters() };
    assert!(!f.matches_timestamp(10));
    assert!(f.matches_timestamp(11));
    assert!(f.matches_timestamp(19));
    assert!(!f.matches_timestamp(20));
}

#[test]
fn missing_bound_is_unconstrained() {
    let f = BoostFilters { after: Some(10), ..empty_filters() };
    assert!(f.matches_timestamp(i64::MAX));
    let f = BoostFilters { before: Some(10), ..empty_filters() };
    assert!(f.matches_timestamp(i64::MIN));
}

fn filters_config(after: Option<&str>, before: Option<&str>) -> BoostFiltersConfig {
    BoostFiltersConfig {
        load_since: None,
        after: after.map(|s| s.to_string()),
        before: before.map(|s| s.to_string()),
        podcasts: Some(vec!["abc".to_string()]),
        episode_guids: None,
        event_guids: None,
    }
}

#[test]
fn from_config_parses_decimal_bounds() {
    let f = BoostFilters::from_config(filters_config(Some("100"), Some("+2000"))).unwrap();
    assert_eq!(f.after, Some(100));
    assert_eq!(f.before, Some(2000));
    assert_eq!(f.podcasts, Some(vec!["abc".to_string()]));
}

#[test]
fn from_config_rejects_malformed_bound() {
    let r = BoostFilters::from_config(filters_config(Some("2025-01-11"), None));
    assert!(matches!(r, Err(EngineError::FilterParseError(_))));
    let r = BoostFilters::from_config(filters_config(None, Some("")));
    assert!(matches!(r, Err(EngineError::FilterParseError(_))));
}

#[test]
fn from_config_rejects_out_of_range_bound() {
    // one past i64::MAX
    let r = BoostFilters::from_config(filters_config(Some("9223372036854775808"), None));
    assert!(matches!(r, Err(EngineError::FilterParseError(_))));
}

#[test]
fn load_since_falls_back_on_missing_or_bad_input() {
    assert_eq!(parse_load_since(None, 777), 777);
    let s = "not a timestamp".to_string();
    assert_eq!(parse_load_since(Some(&s), 777), 777);
    let s = "1736553600".to_string();
    assert_eq!(parse_load_since(Some(&s), 777), 1736553600);
    // a value past u64::MAX cannot be used:
    let s = "18446744073709551616".to_string();
    assert_eq!(parse_load_since(Some(&s), 777), 777);
    let s = "+42".to_string();
    assert_eq!(parse_load_since(Some(&s), 777), 42);
}
