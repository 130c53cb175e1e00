//! The engine's error taxonomy.  Errors local to one source's task never
//! propagate to other sources: they are converted to status observations.

use vstd::prelude::*;

verus! {

/// What can go wrong around the engine.
///
/// `ConnectionError`: a producer is unreachable, terminal for that source.
/// `StreamError`: a mid-subscription fault, terminal for that source.
/// `FilterParseError`: malformed filter configuration, the source fails to
/// start.  `DispatchError`: one effect-sink call failed; the remaining
/// toggles still fire.  `ConfigMismatchError`: a toggle references an output
/// kind with no configured sink; skipped, not fatal.
#[derive(Clone, Debug)]
pub enum EngineError {
    ConnectionError(String),
    StreamError(String),
    FilterParseError(String),
    DispatchError(String),
    ConfigMismatchError(String),
}

impl EngineError {
    /// A short label for the error's kind.
    pub fn kind_text(&self) -> (r: &str)
        ensures
            match self {
                EngineError::ConnectionError(_) => r@ == "connection error"@,
                EngineError::StreamError(_) => r@ == "stream error"@,
                EngineError::FilterParseError(_) => r@ == "filter parse error"@,
                EngineError::DispatchError(_) => r@ == "dispatch error"@,
                EngineError::ConfigMismatchError(_) => r@ == "config mismatch"@,
            },
    {
        match self {
            EngineError::ConnectionError(_) => "connection error",
            EngineError::StreamError(_) => "stream error",
            EngineError::FilterParseError(_) => "filter parse error",
            EngineError::DispatchError(_) => "dispatch error",
            EngineError::ConfigMismatchError(_) => "config mismatch",
        }
    }

    /// The detail message the error was raised with.
    pub fn detail(&self) -> (r: &String)
        ensures
            match self {
                EngineError::ConnectionError(s) => r@ == s@,
                EngineError::StreamError(s) => r@ == s@,
                EngineError::FilterParseError(s) => r@ == s@,
                EngineError::DispatchError(s) => r@ == s@,
                EngineError::ConfigMismatchError(s) => r@ == s@,
            },
    {
        match self {
            EngineError::ConnectionError(s) => s,
            EngineError::StreamError(s) => s,
            EngineError::FilterParseError(s) => s,
            EngineError::DispatchError(s) => s,
            EngineError::ConfigMismatchError(s) => s,
        }
    }
}

} // verus!
