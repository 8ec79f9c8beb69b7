//! How a run treats its events.

use vstd::prelude::*;
use crate::desync::DesyncMode;
use crate::wire::{ascii_lower, to_lowercase};

verus! {

/// What the library does with the events of a run.
#[derive(Debug, Clone, Copy, PartialEq, Eq, Structural)]
pub enum RRMode {
    /// Every event is written to the log.
    Record,
    /// Every event follows the log.
    Replay,
    /// Events are neither written nor checked.
    NoRR,
}

/// The name of a mode in lower case.
pub open spec fn lower_name(value: Seq<char>) -> Seq<char> {
    value.map_values(|c: char| ascii_lower(c))
}

/// The mode of that name, whatever the case of its letters. Fails with the name in lower case if
/// there is no such mode.
pub fn parse_rr_mode(value: &str) -> (mode: Result<RRMode, String>)
    ensures
        match mode {
            Ok(RRMode::Record) => lower_name(value@) == "record"@,
            Ok(RRMode::Replay) => lower_name(value@) == "replay"@,
            Ok(RRMode::NoRR) => lower_name(value@) == "norr"@,
            Err(unknown) => {
                &&& unknown@ == lower_name(value@)
                &&& unknown@ != "record"@
                &&& unknown@ != "replay"@
                &&& unknown@ != "norr"@
            },
        },
{
    let lower = to_lowercase(value);
    if lower == "record".to_string() {
        Ok(RRMode::Record)
    } else if lower == "replay".to_string() {
        Ok(RRMode::Replay)
    } else if lower == "norr".to_string() {
        Ok(RRMode::NoRR)
    } else {
        Err(lower)
    }
}

/// What to do on a desynchronization: unless told to keep going, give up.
pub fn parse_desync_mode(value: Option<String>) -> (mode: DesyncMode)
    ensures
        mode == match value {
            Some(name) => if name@ == "keep_going"@ {
                DesyncMode::KeepGoing
            } else {
                DesyncMode::Panic
            },
            None => DesyncMode::Panic,
        },
{
    match value {
        Some(name) => if name == "keep_going".to_string() {
            DesyncMode::KeepGoing
        } else {
            DesyncMode::Panic
        },
        None => DesyncMode::Panic,
    }
}

} // verus!
