use blinkyboosts::boosts::Boostagram;
use blinkyboosts::errors::EngineError;
use blinkyboosts::nwc::{
    advance_poll_cursor, boost_payload_from_notification, boost_payload_from_tlv_records,
    sort_transactions, subscription_start, wants_live_notifications, GetInfoResult,
    PayNotification, PayNotificationMetadata, TlvRecord, WalletTransaction, BOOST_TLV_TYPE,
};
use blinkyboosts::status::ComponentStatus;
use blinkyboosts::zaps::{zap_from_event, zap_sats};

fn record(tlv_type: u64, value: &str) -> TlvRecord {
    TlvRecord { tlv_type, value: value.to_string() }
}

#[test]
fn boost_payload_is_the_first_decodable_boost_record() {
    // 7b7d is "{}": the hex wrapper must really decode, not echo.
    let records = vec![record(1, "00"), record(BOOST_TLV_TYPE, "7b7d")];
    assert_eq!(boost_payload_from_tlv_records(&records), Some(b"{}".to_vec()));
    // an undecodable boost record is skipped in favour of a later one:
    let records = vec![record(BOOST_TLV_TYPE, "xyz"), record(BOOST_TLV_TYPE, "48690a")];
    assert_eq!(boost_payload_from_tlv_records(&records), Some(b"Hi\n".to_vec()));
    // an odd length does not decode:
    let records = vec![record(BOOST_TLV_TYPE, "7b7")];
    assert_eq!(boost_payload_from_tlv_records(&records), None);
    // other types are ignored:
    let records = vec![record(5, "7b7d")];
    assert_eq!(boost_payload_from_tlv_records(&records), None);
    // mixed-case hex decodes:
    let records = vec![record(BOOST_TLV_TYPE, "4A6b")];
    assert_eq!(boost_payload_from_tlv_records(&records), Some(vec![0x4a, 0x6b]));
}

#[test]
fn notification_payload_needs_metadata() {
    let n = PayNotification { metadata: None };
    assert_eq!(boost_payload_from_notification(&n), None);
    let n = PayNotification {
        metadata: Some(PayNotificationMetadata {
            tlv_records: vec![record(BOOST_TLV_TYPE, "7b7d")],
        }),
    };
    assert_eq!(boost_payload_from_notification(&n), Some(b"{}".to_vec()));
}

#[test]
fn wallet_info_decides_listening_against_polling() {
    let info = GetInfoResult { notifications: vec!["payment_sent".to_string()] };
    assert!(!wants_live_notifications(&info));
    let info = GetInfoResult {
        notifications: vec!["payment_sent".to_string(), "payment_received".to_string()],
    };
    assert!(wants_live_notifications(&info));
}

#[test]
fn backfill_is_ordered_by_creation_time() {
    let tx = |created_at: u64| WalletTransaction { created_at, tlv_records: vec![] };
    let sorted = sort_transactions(vec![tx(30), tx(10), tx(20), tx(10)]);
    let times: Vec<u64> = sorted.iter().map(|t| t.created_at).collect();
    assert_eq!(times, vec![10, 10, 20, 30]);
}

#[test]
fn subscription_resumes_after_the_last_historical_boost() {
    assert_eq!(subscription_start(Some(1000), 500), 1001);
    assert_eq!(subscription_start(None, 500), 500);
}

#[test]
fn poll_cursor_only_moves_forward() {
    assert_eq!(advance_poll_cursor(100, 150), 151);
    assert_eq!(advance_poll_cursor(100, 100), 100);
    assert_eq!(advance_poll_cursor(100, 50), 100);
}

#[test]
fn zap_amount_comes_from_the_invoice() {
    // a standard test invoice over 2500 micro-bitcoin = 250 000 000 msat
    let invoice = "lnbc2500u1pvjluezsp5zyg3zyg3zyg3zyg3zyg3zyg3zyg3zyg3zyg3zyg3zyg3zyg3zygspp5qqqsyqcyq5rqwzqfqqqsyqcyq5rqwzqfqqqsyqcyq5rqwzqfqypqdq5xysxxatsyp3k7enxv4jsxqzpu9qrsgquk0rl77nj30yxdy8j9vdx85fkpmdla2087ne0xh8nhedh8w27kyke0lp53ut353s06fv3qfegext0eh0ymjpf39tuven09sam30g4vgpfna3rh";
    let z = zap_from_event("{\"pubkey\":\"abc123\"}", invoice, "great show".to_string());
    assert_eq!(z.value_msat_total, 250_000_000);
    assert_eq!(zap_sats(&z), 250_000);
    assert_eq!(z.sender_name.as_deref(), Some("abc123"));
    assert_eq!(z.message.as_deref(), Some("great show"));
}

#[test]
fn zap_without_invoice_or_sender_degrades() {
    let z = zap_from_event("not json", "", "hi".to_string());
    assert_eq!(z.value_msat_total, 0);
    assert_eq!(zap_sats(&z), 0);
    assert_eq!(z.sender_name.as_deref(), Some(""));
    let z = zap_from_event("{\"other\":1}", "junk-invoice", "hi".to_string());
    assert_eq!(z.value_msat_total, 0);
    assert_eq!(z.sender_name.as_deref(), Some(""));
}

#[test]
fn zap_sats_truncate_millisats() {
    let z = zap_from_event("x", "", String::new());
    assert_eq!(z.value_msat_total, 0);
    let z = blinkyboosts::zaps::Zap {
        sender_name: None,
        message: None,
        value_msat_total: 1999,
    };
    assert_eq!(zap_sats(&z), 1);
}

#[test]
fn boost_action_gates_counting() {
    let mut b = Boostagram {
        boost_type: String::new(),
        action: "boost".to_string(),
        identifier: String::new(),
        creation_date: 0,
        sender_name: String::new(),
        app_name: String::new(),
        podcast: String::new(),
        episode: String::new(),
        sats: 10,
        message: String::new(),
        event_guid: String::new(),
        episode_guid: String::new(),
        remote_feed: None,
        remote_item: None,
        is_old: false,
    };
    assert!(b.counts());
    b.action = "stream".to_string();
    assert!(!b.counts());
}

#[test]
fn component_status_labels() {
    assert_eq!(ComponentStatus::Disabled.text(), "Disabled");
    assert_eq!(ComponentStatus::Enabled.text(), "Enabled");
    assert_eq!(ComponentStatus::Running.text(), "Running");
    assert_eq!(ComponentStatus::Error("boom".to_string()).text(), "Error");
}

#[test]
fn engine_errors_carry_kind_and_detail() {
    let e = EngineError::ConnectionError("relay unreachable".to_string());
    assert_eq!(e.kind_text(), "connection error");
    assert_eq!(e.detail().as_str(), "relay unreachable");
    let e = EngineError::StreamError("eof".to_string());
    assert_eq!(e.kind_text(), "stream error");
    let e = EngineError::DispatchError("udp".to_string());
    assert_eq!(e.kind_text(), "dispatch error");
    let e = EngineError::ConfigMismatchError("no sink".to_string());
    assert_eq!(e.kind_text(), "config mismatch");
    let e = EngineError::FilterParseError("bad".to_string());
    assert_eq!(e.kind_text(), "filter parse error");
}
