//! DMX payloads: the channel levels sent to the lighting transmitters,
//! computed from a boost's sats or from a configured channel and value.
//! The transmitters themselves (UDP, HTTP) live outside the engine.

use vstd::prelude::*;

use crate::errors::EngineError;
use vstd::string::*;

verus! {

/// A level floored at 1, so that a triggered channel is never dark.
pub open spec fn at_least_one(v: int) -> int {
    if v < 1 {
        1
    } else {
        v
    }
}

/// The first level: the sats clamped into 1..=255.
pub open spec fn clamped_sats(sats: int) -> int {
    at_least_one(
        if sats > 255 {
            255
        } else {
            sats
        },
    )
}

/// The four levels derived from a boost's sats: the clamped amount, then
/// the low, middle and high base-256 digits, each floored at 1.
pub open spec fn sats_levels(sats: int) -> Seq<u8>
    recommends
        sats >= 0,
{
    seq![
        clamped_sats(sats) as u8,
        at_least_one(sats % 256) as u8,
        at_least_one((sats / 256) % 256) as u8,
        at_least_one((sats / 65536) % 256) as u8,
    ]
}

/// Compute the four sats-derived levels.
pub fn sats_dmx_levels(sats: i64) -> (r: Vec<u8>)
    requires
        sats >= 0,
    ensures
        r@ =~= sats_levels(sats as int),
{
    let first = if sats > 255 {
        255u8
    } else if sats < 1 {
        1u8
    } else {
        sats as u8
    };
    let low = sats % 256;
    let low = if low < 1 {
        1u8
    } else {
        low as u8
    };
    let mid = (sats / 256) % 256;
    let mid = if mid < 1 {
        1u8
    } else {
        mid as u8
    };
    let high = (sats / 65536) % 256;
    let high = if high < 1 {
        1u8
    } else {
        high as u8
    };
    let mut r: Vec<u8> = Vec::new();
    r.push(first);
    r.push(low);
    r.push(mid);
    r.push(high);
    r
}

/// A payload that addresses one channel: zeroes up to the channel, whose
/// own level is `value`.
pub open spec fn channel_levels(channel: int, value: u8) -> Seq<u8> {
    Seq::new(
        channel as nat,
        |i: int|
            if i == channel - 1 {
                value
            } else {
                0u8
            },
    )
}

/// Compute a single-channel payload.  Channels run from 1 to 512.
pub fn channel_dmx_data(channel: u16, value: u8) -> (r: Result<Vec<u8>, EngineError>)
    ensures
        r is Ok <==> 1 <= channel <= 512,
        r matches Ok(v) ==> v@ =~= channel_levels(channel as int, value),
{
    if channel == 0 || channel > 512 {
        return Err(
            EngineError::DispatchError(String::from_str("channel must be between 1 and 512")),
        );
    }
    let mut data: Vec<u8> = Vec::new();
    let n = channel as usize;
    let mut i: usize = 0;
    while i < n
        invariant
            i <= n,
            data@.len() == i,
            forall|j: int| 0 <= j < i ==> data@[j] == 0u8,
        decreases n - i,
    {
        data.push(0u8);
        i += 1;
    }
    data[n - 1] = value;
    Ok(data)
}

/// The payload the Art-Net transmitter sends for a boost: a zero start
/// code, then the four sats-derived levels.
pub fn artnet_sats_data(sats: i64) -> (r: Vec<u8>)
    requires
        sats >= 0,
    ensures
        r@ =~= seq![0u8] + sats_levels(sats as int),
{
    let mut r: Vec<u8> = Vec::new();
    r.push(0u8);
    let mut levels = sats_dmx_levels(sats);
    r.append(&mut levels);
    r
}

} // verus!
