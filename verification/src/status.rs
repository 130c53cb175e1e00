//! The observer interface: status and activity messages that the engine's
//! surroundings (a status display, a log) receive.  Purely informational.

use vstd::prelude::*;

verus! {

/// The reported condition of one component (a boost source or an effect
/// transmitter).
#[derive(Clone, Debug)]
pub enum ComponentStatus {
    Disabled,
    Enabled,
    Running,
    Error(String),
}

impl ComponentStatus {
    /// The short label of the status.
    pub fn text(&self) -> (r: &str)
        ensures
            match self {
                ComponentStatus::Disabled => r@ == "Disabled"@,
                ComponentStatus::Enabled => r@ == "Enabled"@,
                ComponentStatus::Running => r@ == "Running"@,
                ComponentStatus::Error(_) => r@ == "Error"@,
            },
    {
        match self {
            ComponentStatus::Disabled => "Disabled",
            ComponentStatus::Enabled => "Enabled",
            ComponentStatus::Running => "Running",
            ComponentStatus::Error(_) => "Error",
        }
    }
}

/// One message on the observer channel: a status change, a boost observed
/// with the descriptions of the toggles it fired, a changed total, or a
/// command from the surroundings back to the engine.
pub enum GuiMessage {
    UpdateStatus(String, ComponentStatus),
    BoostReceived(String, i64, Vec<String>),
    TestTrigger(i64),
    UpdateSatTotal(i64),
    StartListener(String),
    StopListener(String),
}

} // verus!
