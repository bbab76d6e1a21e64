//! The event-level to output-severity mapping.

use vstd::prelude::*;

verus! {

/// The level an event was emitted at, as the instrumentation framework
/// reports it.
#[derive(Clone, Copy, PartialEq, Eq, Structural, Debug)]
pub enum EventLevel {
    Trace,
    Debug,
    Info,
    Warn,
    Error,
}

/// The severity of an output record. Trace-level events carry no
/// severity at all, so `Trace` has no counterpart here.
#[derive(Clone, Copy, PartialEq, Eq, Structural, Debug)]
pub enum Severity {
    Debug,
    Info,
    Warning,
    Error,
}

/// The fixed severity mapping: trace maps to no severity field rather
/// than to a literal lowest value.
pub fn severity_of(level: EventLevel) -> (r: Option<Severity>)
    ensures
        r == spec_severity_of(level),
{
    match level {
        EventLevel::Trace => None,
        EventLevel::Debug => Some(Severity::Debug),
        EventLevel::Info => Some(Severity::Info),
        EventLevel::Warn => Some(Severity::Warning),
        EventLevel::Error => Some(Severity::Error),
    }
}

pub open spec fn spec_severity_of(level: EventLevel) -> Option<Severity> {
    match level {
        EventLevel::Trace => None,
        EventLevel::Debug => Some(Severity::Debug),
        EventLevel::Info => Some(Severity::Info),
        EventLevel::Warn => Some(Severity::Warning),
        EventLevel::Error => Some(Severity::Error),
    }
}

} // verus!
