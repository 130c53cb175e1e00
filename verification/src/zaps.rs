//! The zap source's computational half: building a zap record from the
//! parts of a zap-receipt event.  The relay subscription happens outside
//! the engine, which receives the event's description tag, invoice tag and
//! content as plain strings.

use vstd::prelude::*;
use vstd::string::*;

verus! {

/// One zap: who sent it, what they said, and its amount in millisats.
#[derive(Clone, Debug)]
pub struct Zap {
    pub sender_name: Option<String>,
    pub message: Option<String>,
    pub value_msat_total: i64,
}

/// What lightning_invoice's parser reads as the amount of an invoice
/// string: a function of the string alone.  `None` when the string is not a
/// valid invoice or carries no amount.
pub uninterp spec fn bolt11_msat_of(s: Seq<char>) -> Option<u64>;

/// Relies on lightning_invoice's Bolt11Invoice parser and its
/// `amount_milli_satoshis` accessor: the amount read from an invoice string
/// depends on the string alone.
#[verifier::external_body]
fn bolt11_msat(s: &str) -> (r: Option<u64>)
    ensures
        r == bolt11_msat_of(s@),
{
    match s.parse::<lightning_invoice::Bolt11Invoice>() {
        Ok(invoice) => invoice.amount_milli_satoshis(),
        Err(_) => None,
    }
}

/// What serde_json reads as the "pubkey" field of a JSON object: a function
/// of the text alone.  `None` when the text is not a JSON object or the
/// field is not a string.
pub uninterp spec fn json_pubkey_of(s: Seq<char>) -> Option<Seq<char>>;

/// Relies on serde_json::from_str: whether a text parses as a JSON object,
/// and what its "pubkey" field holds, depend on the text alone.
#[verifier::external_body]
fn json_pubkey(s: &str) -> (r: Option<String>)
    ensures
        match r {
            Some(p) => json_pubkey_of(s@) == Some(p@),
            None => json_pubkey_of(s@) is None,
        },
{
    match serde_json::from_str::<serde_json::Value>(s) {
        Ok(serde_json::Value::Object(req)) => match req.get("pubkey") {
            Some(serde_json::Value::String(pk)) => Some(pk.clone()),
            _ => None,
        },
        _ => None,
    }
}

/// The amount a zap event carries: the invoice's amount in millisats, when
/// the invoice tag is present, parses and names one; otherwise 0.  An
/// amount beyond `i64::MAX` is pinned there.
pub open spec fn spec_zap_msat(bolt11: Seq<char>) -> int {
    if bolt11.len() == 0 {
        0
    } else {
        match bolt11_msat_of(bolt11) {
            Some(v) => if v <= i64::MAX {
                v as int
            } else {
                i64::MAX as int
            },
            None => 0,
        }
    }
}

/// Build a zap from the parts of a zap-receipt event: the description
/// tag's JSON (whose "pubkey" names the sender), the invoice tag, and the
/// event's content as the message.
pub fn zap_from_event(description: &str, bolt11: &str, content: String) -> (z: Zap)
    ensures
        z.value_msat_total as int == spec_zap_msat(bolt11@),
        z.value_msat_total >= 0,
        z.message == Some(content),
        match json_pubkey_of(description@) {
            Some(p) => z.sender_name matches Some(n) && n@ == p,
            None => z.sender_name matches Some(n) && n@.len() == 0,
        },
{
    let value_msat_total: i64 = if bolt11.unicode_len() == 0 {
        0
    } else {
        match bolt11_msat(bolt11) {
            Some(v) => {
                if v <= i64::MAX as u64 {
                    v as i64
                } else {
                    i64::MAX
                }
            },
            None => 0,
        }
    };
    let pubkey = match json_pubkey(description) {
        Some(p) => p,
        None => String::new(),
    };
    Zap { sender_name: Some(pubkey), message: Some(content), value_msat_total }
}

/// A zap's amount in whole sats.
pub fn zap_sats(z: &Zap) -> (r: i64)
    requires
        z.value_msat_total >= 0,
    ensures
        r == z.value_msat_total as int / 1000,
{
    z.value_msat_total / 1000
}

} // verus!
