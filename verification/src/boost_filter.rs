//! The boost filter: a pure predicate deciding whether a boost's content
//! and timestamp match a configured filter set.
//!
//! When no content filter (podcasts, episode guids, event guids) is
//! configured, every boost content-matches; otherwise a boost matches if it
//! satisfies any configured content filter — a case-insensitive substring
//! match for podcast names, an exact match for guids.  Timestamp matching
//! is independent and is required as well: strictly after `after` and
//! strictly before `before`, a missing bound being unconstrained.

use vstd::prelude::*;
use vstd::string::*;

use crate::boosts::Boostagram;
use crate::config::BoostFiltersConfig;
use crate::errors::EngineError;
use crate::strutil::{
    contains_ci, decimal_digits_of, digits_value, is_decimal_string, parse_u64, str_contains_ci,
    str_eq,
};

verus! {

/// A parsed filter set: timestamps as unix seconds.
#[derive(Clone, Debug)]
pub struct BoostFilters {
    pub podcasts: Option<Vec<String>>,
    pub episode_guids: Option<Vec<String>>,
    pub event_guids: Option<Vec<String>>,
    pub after: Option<i64>,
    pub before: Option<i64>,
}

/// A configured timestamp string is usable when it is decimal and fits.
pub open spec fn timestamp_parses(s: Seq<char>) -> bool {
    is_decimal_string(s) && digits_value(decimal_digits_of(s)) <= i64::MAX
}

/// The value of a usable timestamp string.
pub open spec fn timestamp_value(s: Seq<char>) -> int {
    digits_value(decimal_digits_of(s))
}

/// Whether an optional configured timestamp is absent or usable.
pub open spec fn optional_timestamp_ok(s: Option<String>) -> bool {
    match s {
        None => true,
        Some(text) => timestamp_parses(text@),
    }
}

impl BoostFilters {
    /// `after < ts < before`, strict, with a missing bound unconstrained.
    pub open spec fn spec_matches_timestamp(&self, ts: int) -> bool {
        &&& match self.after {
            Some(a) => a < ts,
            None => true,
        }
        &&& match self.before {
            Some(b) => ts < b,
            None => true,
        }
    }

    /// Whether any content filter is configured at all.
    pub open spec fn content_filters_configured(&self) -> bool {
        self.podcasts is Some || self.episode_guids is Some || self.event_guids is Some
    }

    /// The podcast filter: any configured name occurring case-insensitively
    /// in the boost's podcast name.
    pub open spec fn spec_podcast_matches(&self, podcast: Seq<char>) -> bool {
        match self.podcasts {
            Some(list) => exists|i: int|
                0 <= i < list@.len() && contains_ci(podcast, (#[trigger] list@[i])@),
            None => false,
        }
    }

    /// A guid filter: any configured guid equal to the boost's.
    pub open spec fn spec_guid_matches(list: Option<Vec<String>>, guid: Seq<char>) -> bool {
        match list {
            Some(l) => exists|i: int| 0 <= i < l@.len() && (#[trigger] l@[i])@ == guid,
            None => false,
        }
    }

    /// Content matching: everything matches when nothing is configured,
    /// otherwise any configured filter kind may admit the boost.
    pub open spec fn spec_matches_boost(&self, b: Boostagram) -> bool {
        ||| !self.content_filters_configured()
        ||| self.spec_podcast_matches(b.podcast@)
        ||| Self::spec_guid_matches(self.episode_guids, b.episode_guid@)
        ||| Self::spec_guid_matches(self.event_guids, b.event_guid@)
    }

    /// The whole filter: content and timestamp both.
    pub open spec fn spec_matches(&self, b: Boostagram) -> bool {
        self.spec_matches_timestamp(b.creation_date as int) && self.spec_matches_boost(b)
    }

    /// Check the timestamp bounds.
    pub fn matches_timestamp(&self, ts: i64) -> (r: bool)
        ensures
            r == self.spec_matches_timestamp(ts as int),
    {
        let after_ok = match &self.after {
            Some(a) => *a < ts,
            None => true,
        };
        let before_ok = match &self.before {
            Some(b) => ts < *b,
            None => true,
        };
        after_ok && before_ok
    }

    /// Check the content filters.
    pub fn matches_boost(&self, b: &Boostagram) -> (r: bool)
        ensures
            r == self.spec_matches_boost(*b),
    {
        if self.podcasts.is_none() && self.episode_guids.is_none() && self.event_guids.is_none() {
            return true;
        }
        if let Some(list) = &self.podcasts {
            let n = list.len();
            let mut i: usize = 0;
            while i < n
                invariant
                    i <= n,
                    n == list@.len(),
                    self.podcasts == Some(*list),
                    forall|j: int|
                        0 <= j < i ==> !contains_ci(b.podcast@, (#[trigger] list@[j])@),
                decreases n - i,
            {
                if str_contains_ci(b.podcast.as_str(), list[i].as_str()) {
                    proof {
                        let l = self.podcasts->Some_0;
                        assert(l@[i as int] == list@[i as int]);
                        assert(contains_ci(b.podcast@, (#[trigger] l@[i as int])@));
                        assert(self.spec_podcast_matches(b.podcast@));
                    }
                    return true;
                }
                i += 1;
            }
        }
        if let Some(list) = &self.episode_guids {
            let n = list.len();
            let mut i: usize = 0;
            while i < n
                invariant
                    i <= n,
                    n == list@.len(),
                    self.episode_guids == Some(*list),
                    forall|j: int| 0 <= j < i ==> (#[trigger] list@[j])@ != b.episode_guid@,
                decreases n - i,
            {
                if str_eq(list[i].as_str(), b.episode_guid.as_str()) {
                    proof {
                        let l = self.episode_guids->Some_0;
                        assert(l@[i as int] == list@[i as int]);
                        assert((#[trigger] l@[i as int])@ == b.episode_guid@);
                        assert(Self::spec_guid_matches(self.episode_guids, b.episode_guid@));
                    }
                    return true;
                }
                i += 1;
            }
        }
        if let Some(list) = &self.event_guids {
            let n = list.len();
            let mut i: usize = 0;
            while i < n
                invariant
                    i <= n,
                    n == list@.len(),
                    self.event_guids == Some(*list),
                    forall|j: int| 0 <= j < i ==> (#[trigger] list@[j])@ != b.event_guid@,
                decreases n - i,
            {
                if str_eq(list[i].as_str(), b.event_guid.as_str()) {
                    proof {
                        let l = self.event_guids->Some_0;
                        assert(l@[i as int] == list@[i as int]);
                        assert((#[trigger] l@[i as int])@ == b.event_guid@);
                        assert(Self::spec_guid_matches(self.event_guids, b.event_guid@));
                    }
                    return true;
                }
                i += 1;
            }
        }
        false
    }

    /// The full predicate: timestamp and content.
    pub fn matches(&self, b: &Boostagram) -> (r: bool)
        ensures
            r == self.spec_matches(*b),
    {
        self.matches_timestamp(b.creation_date) && self.matches_boost(b)
    }

    /// Build a filter set from the configuration.  A present timestamp
    /// string that is not plain decimal seconds, or does not fit, is a
    /// filter parse error and the source fails to start.
    pub fn from_config(cfg: BoostFiltersConfig) -> (r: Result<BoostFilters, EngineError>)
        ensures
            r is Ok <==> optional_timestamp_ok(cfg.after) && optional_timestamp_ok(cfg.before),
            r matches Ok(f) ==> {
                &&& f.podcasts == cfg.podcasts
                &&& f.episode_guids == cfg.episode_guids
                &&& f.event_guids == cfg.event_guids
                &&& f.after == (match cfg.after {
                    None => None::<i64>,
                    Some(s) => Some(timestamp_value(s@) as i64),
                })
                &&& f.before == (match cfg.before {
                    None => None::<i64>,
                    Some(s) => Some(timestamp_value(s@) as i64),
                })
            },
            r matches Err(e) ==> e is FilterParseError,
    {
        let after: Option<i64> = match &cfg.after {
            None => None,
            Some(s) => match parse_u64(s.as_str()) {
                Some(v) => {
                    if v <= i64::MAX as u64 {
                        Some(v as i64)
                    } else {
                        return Err(
                            EngineError::FilterParseError(
                                String::from_str("the after bound is out of range"),
                            ),
                        );
                    }
                },
                None => {
                    return Err(
                        EngineError::FilterParseError(
                            String::from_str("the after bound is not a unix timestamp"),
                        ),
                    );
                },
            },
        };
        let before: Option<i64> = match &cfg.before {
            None => None,
            Some(s) => match parse_u64(s.as_str()) {
                Some(v) => {
                    if v <= i64::MAX as u64 {
                        Some(v as i64)
                    } else {
                        return Err(
                            EngineError::FilterParseError(
                                String::from_str("the before bound is out of range"),
                            ),
                        );
                    }
                },
                None => {
                    return Err(
                        EngineError::FilterParseError(
                            String::from_str("the before bound is not a unix timestamp"),
                        ),
                    );
                },
            },
        };
        Ok(
            BoostFilters {
                podcasts: cfg.podcasts,
                episode_guids: cfg.episode_guids,
                event_guids: cfg.event_guids,
                after,
                before,
            },
        )
    }
}

/// The configured "load since" moment: the given decimal timestamp when it
/// is present and usable, else the fallback.
pub open spec fn spec_load_since(load_since: Option<Seq<char>>, fallback: int) -> int {
    match load_since {
        None => fallback,
        Some(s) => if is_decimal_string(s) && digits_value(decimal_digits_of(s)) <= u64::MAX {
            digits_value(decimal_digits_of(s))
        } else {
            fallback
        },
    }
}

/// Parse the configured "load since" timestamp, falling back to a default
/// (the present moment, by the caller's choice) when it is missing or bad.
pub fn parse_load_since(load_since: Option<&String>, fallback: u64) -> (r: u64)
    ensures
        r as int == spec_load_since(
            match load_since {
                None => None::<Seq<char>>,
                Some(s) => Some(s@),
            },
            fallback as int,
        ),
{
    match load_since {
        None => fallback,
        Some(s) => match parse_u64(s.as_str()) {
            Some(v) => v,
            None => fallback,
        },
    }
}

} // verus!
