//! The sACN transmitter's computational half: which universe is addressed
//! and which bytes are sent.  The socket work happens outside the engine;
//! it receives the prepared frame.

use vstd::prelude::*;
use vstd::string::*;

use crate::config::Toggle;
use crate::dmx::{channel_dmx_data, channel_levels, sats_dmx_levels, sats_levels};
use crate::errors::EngineError;

verus! {

/// A frame as the sACN source sends it: the data must begin with a zero
/// start code, which is prepended when missing.
pub open spec fn framed(data: Seq<u8>) -> Seq<u8> {
    if data.len() == 0 || data[0] != 0 {
        seq![0u8] + data
    } else {
        data
    }
}

/// The sACN transmitter's settings: its universe and sending priority.
pub struct Sacn {
    pub universe: u16,
    pub priority: u8,
}

impl Sacn {
    /// The configured universe (1 when unset) at the default priority.
    pub fn new(universe: Option<u16>) -> (r: Sacn)
        ensures
            r.universe == (match universe {
                Some(u) => u,
                None => 1u16,
            }),
            r.priority == 100u8,
    {
        let universe = match universe {
            Some(u) => u,
            None => 1,
        };
        Sacn { universe, priority: 100 }
    }

    /// Frame a DMX payload for sending: at most 513 bytes including the
    /// start code, which is prepended when the data does not begin with 0.
    pub fn send_dmx(&self, data: &Vec<u8>) -> (r: Result<Vec<u8>, EngineError>)
        ensures
            r is Ok <==> data@.len() <= 513,
            r matches Ok(v) ==> v@ =~= framed(data@),
    {
        if data.len() > 513 {
            return Err(
                EngineError::DispatchError(
                    String::from_str("DMX data cannot exceed 513 bytes (including start code)"),
                ),
            );
        }
        if data.len() == 0 || data[0] != 0 {
            let mut with_start_code: Vec<u8> = Vec::new();
            with_start_code.push(0u8);
            let n = data.len();
            let mut i: usize = 0;
            while i < n
                invariant
                    i <= n,
                    n == data@.len(),
                    with_start_code@ =~= seq![0u8] + data@.take(i as int),
                decreases n - i,
            {
                with_start_code.push(data[i]);
                proof {
                    assert(with_start_code@ =~= seq![0u8] + data@.take(i + 1));
                }
                i += 1;
            }
            proof {
                assert(data@.take(n as int) =~= data@);
            }
            Ok(with_start_code)
        } else {
            let mut copy: Vec<u8> = Vec::new();
            let n = data.len();
            let mut i: usize = 0;
            while i < n
                invariant
                    i <= n,
                    n == data@.len(),
                    copy@ =~= data@.take(i as int),
                decreases n - i,
            {
                copy.push(data[i]);
                proof {
                    assert(copy@ =~= data@.take(i + 1));
                }
                i += 1;
            }
            proof {
                assert(data@.take(n as int) =~= data@);
            }
            Ok(copy)
        }
    }

    /// The frame sent for a boost of `sats`.
    pub fn trigger_for_sats(&self, sats: i64) -> (r: Result<Vec<u8>, EngineError>)
        requires
            sats >= 0,
        ensures
            r matches Ok(v) && v@ =~= framed(sats_levels(sats as int)),
    {
        let data = sats_dmx_levels(sats);
        self.send_dmx(&data)
    }

    /// The frame sent for one channel set to one value.
    pub fn trigger_channel(&self, channel: u16, value: u8) -> (r: Result<Vec<u8>, EngineError>)
        ensures
            r is Ok <==> 1 <= channel <= 512,
            r matches Ok(v) ==> v@ =~= framed(channel_levels(channel as int, value)),
    {
        let data = match channel_dmx_data(channel, value) {
            Ok(d) => d,
            Err(e) => {
                return Err(e);
            },
        };
        self.send_dmx(&data)
    }

    /// The universe and frame for an sACN toggle: the toggle must carry its
    /// sACN settings, whose channel must be in range.
    pub fn trigger_toggle(toggle: &Toggle, default_universe: u16) -> (r: Result<
        (u16, Vec<u8>),
        EngineError,
    >)
        ensures
            r is Ok <==> (toggle.sacn matches Some(c) && 1 <= c.channel <= 512),
            r matches Ok(p) ==> (toggle.sacn matches Some(c) && p.0 == (match c.universe {
                Some(u) => u,
                None => default_universe,
            }) && p.1@ =~= framed(channel_levels(c.channel as int, c.value))),
    {
        let cfg = match &toggle.sacn {
            Some(c) => c,
            None => {
                return Err(
                    EngineError::ConfigMismatchError(
                        String::from_str("sACN toggle is missing its sACN settings"),
                    ),
                );
            },
        };
        let universe = match cfg.universe {
            Some(u) => u,
            None => default_universe,
        };
        let sacn = Sacn::new(Some(universe));
        match sacn.trigger_channel(cfg.channel, cfg.value) {
            Ok(frame) => Ok((universe, frame)),
            Err(e) => Err(e),
        }
    }
}

} // verus!
