//! Calendar provider contracts.
use crate::schedule::{CalendarBusyBlock, ScheduledTask};
use crate::task::TimeBlock;
use vstd::prelude::*;

verus! {

#[derive(Debug, Clone, Copy, PartialEq, Eq, Structural)]
pub enum CalendarProviderKind {
    AppleEventKit,
    Google,
    CalDav,
}

#[derive(Debug, Clone, PartialEq, Eq)]
pub enum CalendarError {
    PermissionDenied,
    Provider(String),
}

pub trait CalendarProvider {
    fn kind(&self) -> CalendarProviderKind;

    fn list_busy_blocks(&self, window: TimeBlock) -> Result<Vec<CalendarBusyBlock>, CalendarError>;

    fn create_task_event(&self, scheduled: &ScheduledTask) -> Result<String, CalendarError>;
}

} // verus!
