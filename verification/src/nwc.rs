//! The wallet-notification source's computational half: reading the boost
//! payload out of a payment's TLV records, ordering a backfill of past
//! transactions, and the cursor arithmetic of the polling loop.  The relay
//! connection, decryption and JSON framing happen outside the engine, which
//! receives notifications and transactions as plain values.

use vstd::prelude::*;

use crate::strutil::str_eq;

verus! {

/// The TLV type under which a payment carries a boost record.
pub const BOOST_TLV_TYPE: u64 = 7629169;

/// What a wallet reports it can do.
#[derive(Clone, Debug)]
pub struct GetInfoResult {
    pub notifications: Vec<String>,
}

/// One TLV record of a payment's metadata: a numeric type and a hex-encoded
/// value.
#[derive(Clone, Debug)]
pub struct TlvRecord {
    pub tlv_type: u64,
    pub value: String,
}

/// A payment notification: its metadata, when the wallet sent any.
#[derive(Clone, Debug)]
pub struct PayNotification {
    pub metadata: Option<PayNotificationMetadata>,
}

/// The metadata of a payment notification.
#[derive(Clone, Debug)]
pub struct PayNotificationMetadata {
    pub tlv_records: Vec<TlvRecord>,
}

/// One past transaction, as the backfill reads it: when it was created, and
/// its TLV records.
#[derive(Clone, Debug)]
pub struct WalletTransaction {
    pub created_at: u64,
    pub tlv_records: Vec<TlvRecord>,
}

/// A hex digit: 0-9, a-f or A-F.
pub open spec fn is_hex_digit(c: char) -> bool {
    ||| (48 <= c as u32 && c as u32 <= 57)
    ||| (97 <= c as u32 && c as u32 <= 102)
    ||| (65 <= c as u32 && c as u32 <= 70)
}

/// A hex digit's value.
pub open spec fn hex_val(c: char) -> int
    recommends
        is_hex_digit(c),
{
    if 48 <= c as u32 && c as u32 <= 57 {
        c as u32 - 48
    } else if 97 <= c as u32 && c as u32 <= 102 {
        c as u32 - 87
    } else {
        c as u32 - 55
    }
}

/// A decodable hex string: an even number of hex digits.
pub open spec fn is_hex_string(s: Seq<char>) -> bool {
    s.len() % 2 == 0 && forall|i: int| 0 <= i < s.len() ==> is_hex_digit(#[trigger] s[i])
}

/// The bytes a hex string encodes, two digits per byte, high digit first.
pub open spec fn hex_bytes(s: Seq<char>) -> Seq<u8>
    recommends
        is_hex_string(s),
{
    Seq::new((s.len() / 2) as nat, |i: int| (hex_val(s[2 * i]) * 16 + hex_val(s[2 * i + 1])) as u8)
}

/// Relies on hex::decode: it fails exactly on an odd length or a character
/// outside 0-9, a-f and A-F, and otherwise reads two digits per byte, the
/// high digit first.
#[verifier::external_body]
fn hex_decode(s: &str) -> (r: Option<Vec<u8>>)
    ensures
        r is Some <==> is_hex_string(s@),
        r matches Some(v) ==> v@ == hex_bytes(s@),
{
    hex::decode(s).ok()
}

/// The payload of the first TLV record that carries a boost: its type is
/// `BOOST_TLV_TYPE` and its value decodes as hex.
pub open spec fn spec_boost_payload(records: Seq<TlvRecord>) -> Option<Seq<u8>>
    decreases records.len(),
{
    if records.len() == 0 {
        None
    } else if records[0].tlv_type == BOOST_TLV_TYPE && is_hex_string(records[0].value@) {
        Some(hex_bytes(records[0].value@))
    } else {
        spec_boost_payload(records.subrange(1, records.len() as int))
    }
}

/// Find and decode the boost payload among a payment's TLV records.  The
/// caller parses the returned bytes as a boost record.
pub fn boost_payload_from_tlv_records(records: &Vec<TlvRecord>) -> (r: Option<Vec<u8>>)
    ensures
        match r {
            Some(v) => spec_boost_payload(records@) == Some(v@),
            None => spec_boost_payload(records@) is None,
        },
{
    let n = records.len();
    proof {
        assert(records@.subrange(0, n as int) =~= records@);
    }
    let mut i: usize = 0;
    while i < n
        invariant
            i <= n,
            n == records@.len(),
            spec_boost_payload(records@) == spec_boost_payload(
                records@.subrange(i as int, n as int),
            ),
        decreases n - i,
    {
        proof {
            assert(records@.subrange(i as int, n as int)[0] == records@[i as int]);
            assert(records@.subrange(i as int, n as int).subrange(1, n - i as int)
                =~= records@.subrange(i + 1, n as int));
        }
        if records[i].tlv_type == BOOST_TLV_TYPE {
            if let Some(bytes) = hex_decode(records[i].value.as_str()) {
                return Some(bytes);
            }
        }
        i += 1;
    }
    None
}

/// The payload of a payment notification, when it carries one.
pub fn boost_payload_from_notification(notification: &PayNotification) -> (r: Option<Vec<u8>>)
    ensures
        match notification.metadata {
            Some(meta) => match r {
                Some(v) => spec_boost_payload(meta.tlv_records@) == Some(v@),
                None => spec_boost_payload(meta.tlv_records@) is None,
            },
            None => r is None,
        },
{
    match &notification.metadata {
        Some(meta) => boost_payload_from_tlv_records(&meta.tlv_records),
        None => None,
    }
}

/// Whether the wallet pushes payment notifications, so that the engine can
/// listen instead of polling.
pub fn wants_live_notifications(info: &GetInfoResult) -> (r: bool)
    ensures
        r == exists|i: int|
            0 <= i < info.notifications@.len() && (#[trigger] info.notifications@[i])@
                == "payment_received"@,
{
    let n = info.notifications.len();
    let mut i: usize = 0;
    while i < n
        invariant
            i <= n,
            n == info.notifications@.len(),
            forall|j: int|
                0 <= j < i ==> (#[trigger] info.notifications@[j])@ != "payment_received"@,
        decreases n - i,
    {
        if str_eq(info.notifications[i].as_str(), "payment_received") {
            proof {
                assert((#[trigger] info.notifications@[i as int])@ == "payment_received"@);
            }
            return true;
        }
        i += 1;
    }
    false
}

/// Backfill transactions in chronological order.
pub open spec fn sorted_by_created(txs: Seq<WalletTransaction>) -> bool {
    forall|i: int, j: int|
        0 <= i < j < txs.len() ==> (#[trigger] txs[i]).created_at <= (#[trigger] txs[j]).created_at
}

/// Order a backfill by creation time, keeping exactly the given
/// transactions.
pub fn sort_transactions(txs: Vec<WalletTransaction>) -> (r: Vec<WalletTransaction>)
    ensures
        sorted_by_created(r@),
        r@.to_multiset() == txs@.to_multiset(),
        r@.len() == txs@.len(),
{
    broadcast use vstd::seq_lib::group_to_multiset_ensures;

    let mut input = txs;
    let ghost orig = input@;
    let mut out: Vec<WalletTransaction> = Vec::new();
    proof {
        assert(out@.to_multiset().add(input@.to_multiset()) =~= orig.to_multiset());
    }
    while input.len() > 0
        invariant
            out@.to_multiset().add(input@.to_multiset()) =~= orig.to_multiset(),
            out@.len() + input@.len() == orig.len(),
            sorted_by_created(out@),
            forall|a: int, b: int|
                0 <= a < out@.len() && 0 <= b < input@.len() ==> (#[trigger] out@[a]).created_at
                    <= (#[trigger] input@[b]).created_at,
        decreases input@.len(),
    {
        let n = input.len();
        let mut min_idx: usize = 0;
        let mut i: usize = 1;
        while i < n
            invariant
                n == input@.len(),
                min_idx < i <= n,
                forall|j: int|
                    0 <= j < i ==> input@[min_idx as int].created_at <= (
                    #[trigger] input@[j]).created_at,
            decreases n - i,
        {
            if input[i].created_at < input[min_idx].created_at {
                min_idx = i;
            }
            i += 1;
        }
        let ghost before = input@;
        let item = input.remove(min_idx);
        out.push(item);
        proof {
            broadcast use vstd::seq_lib::group_to_multiset_ensures;

            assert(before.remove(min_idx as int).to_multiset() =~= before.to_multiset().remove(
                item,
            ));
            assert(before.to_multiset().count(item) > 0) by {
                assert(before[min_idx as int] == item);
                assert(before.contains(item));
            }
            assert(out@.to_multiset().add(input@.to_multiset()) =~= orig.to_multiset());
            assert forall|a: int, b: int|
                0 <= a < out@.len() && 0 <= b < input@.len() implies (
            #[trigger] out@[a]).created_at <= (#[trigger] input@[b]).created_at by {
                let b0 = if b < min_idx { b } else { b + 1 };
                assert(input@[b] == before[b0]);
                if a < out@.len() - 1 {
                } else {
                    assert(out@[a] == item);
                }
            }
        }
    }
    out
}

/// Where the live subscription begins: just after the last historical
/// boost, or at the backfill cutoff when the history was empty.
pub fn subscription_start(latest: Option<u64>, load_since: u64) -> (r: u64)
    requires
        latest matches Some(t) ==> t < u64::MAX,
    ensures
        r as int == match latest {
            Some(t) => t + 1,
            None => load_since as int,
        },
{
    match latest {
        Some(t) => t + 1,
        None => load_since,
    }
}

/// Advance the polling cursor past a transaction that was just seen.
pub fn advance_poll_cursor(last: u64, created_at: u64) -> (r: u64)
    requires
        created_at < u64::MAX,
    ensures
        r as int == if created_at > last {
            created_at + 1
        } else {
            last as int
        },
{
    if created_at > last {
        created_at + 1
    } else {
        last
    }
}

} // verus!
