//! The level of the log that the bridge writes.

use log::LevelFilter;
use vstd::prelude::*;

verus! {

/// `log::LevelFilter`, the six levels that a log can be limited to, from
/// `Off` to `Trace`. The declaration leaves the enum open: its variants are
/// read from the crate itself, and nothing is claimed of them.
#[verifier::external_type_specification]
pub struct ExLevelFilter(LevelFilter);

/// The level that the number `level` of the host stands for: the levels in
/// their order from zero, and `Off` for any other number.
pub open spec fn level_filter(level: int) -> LevelFilter {
    if level == 1 {
        LevelFilter::Error
    } else if level == 2 {
        LevelFilter::Warn
    } else if level == 3 {
        LevelFilter::Info
    } else if level == 4 {
        LevelFilter::Debug
    } else if level == 5 {
        LevelFilter::Trace
    } else {
        LevelFilter::Off
    }
}

/// The level to set the log to for the number `level`.
pub fn set_log_level(level: i32) -> (filter: LevelFilter)
    ensures
        filter == level_filter(level as int),
{
    match level {
        0 => LevelFilter::Off,
        1 => LevelFilter::Error,
        2 => LevelFilter::Warn,
        3 => LevelFilter::Info,
        4 => LevelFilter::Debug,
        5 => LevelFilter::Trace,
        _ => LevelFilter::Off,
    }
}

} // verus!
