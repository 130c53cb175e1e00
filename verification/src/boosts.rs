//! The boost event itself: a discrete payment carrying an amount in sats
//! and optional metadata, immutable once constructed.

use vstd::prelude::*;

use crate::strutil::str_eq;

verus! {

/// One boost event as delivered by a producer.  Empty strings stand for
/// unknown fields.  `is_old` marks a boost replayed from history rather
/// than received live.
#[derive(Clone, Debug)]
pub struct Boostagram {
    pub boost_type: String,
    pub action: String,
    pub identifier: String,
    pub creation_date: i64,
    pub sender_name: String,
    pub app_name: String,
    pub podcast: String,
    pub episode: String,
    pub sats: i64,
    pub message: String,
    pub event_guid: String,
    pub episode_guid: String,
    pub remote_feed: Option<String>,
    pub remote_item: Option<String>,
    pub is_old: bool,
}

impl Boostagram {
    /// Only events whose action is exactly "boost" count towards the totals
    /// and the toggles.
    pub fn counts(&self) -> (r: bool)
        ensures
            r == (self.action@ == "boost"@),
    {
        str_eq(self.action.as_str(), "boost")
    }
}

} // verus!
