//! The error taxonomy of the scanner: configuration and capture failures
//! abort a session, recognition and parse failures are isolated to one
//! item, and channel/interrupt conditions are normal terminal signals.

use vstd::prelude::*;

verus! {

/// The recognized field a per-item failure belongs to.
#[derive(Clone, Copy, PartialEq, Eq, Structural, Debug)]
pub enum ScanField {
    Title,
    MainStatName,
    MainStatValue,
    SubStat1,
    SubStat2,
    SubStat3,
    SubStat4,
    Level,
    Equip,
    ItemCount,
}

/// What went wrong, and at which level of the session.
#[derive(Clone, Copy, PartialEq, Eq, Structural, Debug)]
pub enum ScanError {
    /// No matching calibration for the live window: fatal before scanning.
    Configuration,
    /// A screen capture failed: fatal for the current session.
    Capture,
    /// Text recognition failed for one field: the item is dropped and the
    /// session continues.
    Recognition(ScanField),
    /// A recognized text failed structured parsing: same per-item policy.
    Parse(ScanField),
    /// The peer end of the pipeline is gone: the normal end-of-stream
    /// signal, not a failure.
    ChannelClosed,
    /// The user interrupted the traversal: a normal terminal status.
    Interrupted,
}

impl ScanError {
    /// A short human-readable description.
    pub fn message(&self) -> (s: &'static str)
        ensures
            s@.len() > 0,
    {
        proof {
            reveal_strlit("no matching window calibration");
            reveal_strlit("screen capture failed");
            reveal_strlit("text recognition failed");
            reveal_strlit("recognized text failed to parse");
            reveal_strlit("channel closed");
            reveal_strlit("interrupted by user");
        }
        match self {
            ScanError::Configuration => "no matching window calibration",
            ScanError::Capture => "screen capture failed",
            ScanError::Recognition(_) => "text recognition failed",
            ScanError::Parse(_) => "recognized text failed to parse",
            ScanError::ChannelClosed => "channel closed",
            ScanError::Interrupted => "interrupted by user",
        }
    }
}

} // verus!
