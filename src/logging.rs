use vstd::prelude::*;

verus! {

/// How much is logged, from nothing to everything.
#[derive(Clone, Copy, Debug, PartialEq, Eq, Structural)]
pub enum LogLevel {
    Off,
    Error,
    Warn,
    Info,
    Debug,
    Trace,
}

/// The level a build logs at: `Debug` for a debug build, `Info` otherwise.
pub open spec fn level_for(debug_build: bool) -> LogLevel {
    if debug_build {
        LogLevel::Debug
    } else {
        LogLevel::Info
    }
}

/// Relies on log::set_max_level to make the level the most verbose one that
/// log records pass from then on; it only stores the level.
#[verifier::external_body]
fn install_max_level(level: LogLevel) {
    log::set_max_level(
        match level {
            LogLevel::Off => log::LevelFilter::Off,
            LogLevel::Error => log::LevelFilter::Error,
            LogLevel::Warn => log::LevelFilter::Warn,
            LogLevel::Info => log::LevelFilter::Info,
            LogLevel::Debug => log::LevelFilter::Debug,
            LogLevel::Trace => log::LevelFilter::Trace,
        },
    );
}

/// Sets the logging level for the build and returns it.
pub fn setup_logger(debug_build: bool) -> (r: LogLevel)
    ensures
        r == level_for(debug_build),
{
    let level = if debug_build {
        LogLevel::Debug
    } else {
        LogLevel::Info
    };
    install_max_level(level);
    level
}

} // verus!
