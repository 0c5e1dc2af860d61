//! How the process logs: level, format and what each line shows.
use vstd::prelude::*;

verus! {

/// The least severe level that is logged.
#[derive(Clone, Copy, Debug, PartialEq, Eq, Structural)]
pub enum LogLevel {
    Error,
    Warn,
    Info,
    Debug,
    Trace,
}

/// The format of log lines.
#[derive(Clone, Copy, Debug, PartialEq, Eq, Structural)]
pub enum LogFormat {
    Json,
    Pretty,
    Compact,
}

/// Where log lines go.
#[derive(Clone, Debug, PartialEq, Eq)]
pub enum LogOutput {
    Stdout,
    Stderr,
    File(String),
}

/// The logging section of the configuration.
#[derive(Clone, Debug, PartialEq, Eq)]
pub struct LoggingConfig {
    pub level: LogLevel,
    pub format: LogFormat,
    pub output: LogOutput,
}

/// How log lines are laid out.
#[derive(Clone, Copy, Debug, PartialEq, Eq, Structural)]
pub enum LogStyle {
    Json,
    Pretty,
    Compact,
    Full,
}

/// How the process logs.
#[derive(Clone, Copy, Debug, PartialEq, Eq, Structural)]
pub struct LogPlan {
    pub level: LogLevel,
    pub style: LogStyle,
    /// Whether a line names the module it comes from.
    pub with_target: bool,
    /// Whether a line names the file and line it comes from.
    pub with_location: bool,
}

impl LogLevel {
    /// The name of the level.
    pub open spec fn spec_name(self) -> Seq<char> {
        match self {
            LogLevel::Error => "error"@,
            LogLevel::Warn => "warn"@,
            LogLevel::Info => "info"@,
            LogLevel::Debug => "debug"@,
            LogLevel::Trace => "trace"@,
        }
    }

    /// The name of the level.
    pub fn name(self) -> (r: &'static str)
        ensures
            r@ == self.spec_name(),
    {
        match self {
            LogLevel::Error => "error",
            LogLevel::Warn => "warn",
            LogLevel::Info => "info",
            LogLevel::Debug => "debug",
            LogLevel::Trace => "trace",
        }
    }

    /// Whether the level shows everything from the code's point of view.
    pub open spec fn verbose(self) -> bool {
        self == LogLevel::Debug || self == LogLevel::Trace
    }
}

/// The level: the verbosity of the command line overrides the configured level;
/// without a configuration the build decides what no verbosity means.
pub open spec fn chosen_level(
    verbose_level: u8,
    configured: Option<LogLevel>,
    debug_build: bool,
) -> LogLevel {
    match configured {
        Some(level) => if verbose_level == 0 {
            level
        } else if verbose_level == 1 {
            LogLevel::Debug
        } else {
            LogLevel::Trace
        },
        None => {
            let step = if debug_build {
                verbose_level + 1
            } else {
                verbose_level as int
            };
            if step == 0 {
                LogLevel::Warn
            } else if step == 1 {
                LogLevel::Info
            } else if step == 2 {
                LogLevel::Debug
            } else {
                LogLevel::Trace
            }
        },
    }
}

/// How the process logs. Without a configuration a release build without
/// verbosity shows bare compact lines.
pub open spec fn planned(
    verbose_level: u8,
    configured: Option<(LogLevel, LogFormat)>,
    debug_build: bool,
) -> LogPlan {
    match configured {
        Some((level, format)) => LogPlan {
            level: chosen_level(verbose_level, Some(level), debug_build),
            style: match format {
                LogFormat::Json => LogStyle::Json,
                LogFormat::Pretty => LogStyle::Pretty,
                LogFormat::Compact => LogStyle::Compact,
            },
            with_target: true,
            with_location: format != LogFormat::Json && (verbose_level > 1 || level.verbose()),
        },
        None => {
            let bare = verbose_level == 0 && !debug_build;
            LogPlan {
                level: chosen_level(verbose_level, None, debug_build),
                style: if bare {
                    LogStyle::Compact
                } else {
                    LogStyle::Full
                },
                with_target: !bare,
                with_location: verbose_level > 1,
            }
        },
    }
}

/// How the process logs, from the verbosity of the command line, the
/// configuration and the kind of build.
pub fn log_plan(
    verbose_level: u8,
    config: &Option<LoggingConfig>,
    debug_build: bool,
) -> (r: LogPlan)
    ensures
        r == planned(
            verbose_level,
            match config {
                Some(c) => Some((c.level, c.format)),
                None => None,
            },
            debug_build,
        ),
{
    match config {
        Some(c) => {
            let level = match verbose_level {
                0 => c.level,
                1 => LogLevel::Debug,
                _ => LogLevel::Trace,
            };
            let details = verbose_level > 1 || c.level == LogLevel::Debug || c.level
                == LogLevel::Trace;
            let style = match c.format {
                LogFormat::Json => LogStyle::Json,
                LogFormat::Pretty => LogStyle::Pretty,
                LogFormat::Compact => LogStyle::Compact,
            };
            LogPlan {
                level,
                style,
                with_target: true,
                with_location: c.format != LogFormat::Json && details,
            }
        },
        None => {
            let level = if debug_build {
                match verbose_level {
                    0 => LogLevel::Info,
                    1 => LogLevel::Debug,
                    _ => LogLevel::Trace,
                }
            } else {
                match verbose_level {
                    0 => LogLevel::Warn,
                    1 => LogLevel::Info,
                    2 => LogLevel::Debug,
                    _ => LogLevel::Trace,
                }
            };
            let bare = verbose_level == 0 && !debug_build;
            LogPlan {
                level,
                style: if bare {
                    LogStyle::Compact
                } else {
                    LogStyle::Full
                },
                with_target: !bare,
                with_location: verbose_level > 1,
            }
        },
    }
}

/// Verbosity on the command line overrides the configured level.
pub proof fn law_verbosity_overrides(
    verbose_level: u8,
    a: (LogLevel, LogFormat),
    b: (LogLevel, LogFormat),
    debug_build: bool,
)
    requires
        verbose_level > 0,
    ensures
        planned(verbose_level, Some(a), debug_build).level == planned(
            verbose_level,
            Some(b),
            debug_build,
        ).level,
{
}

/// Without verbosity on the command line, the configured level is the level.
/// Each step of verbosity shows one level more, up to everything, and a debug
/// build is one step ahead of a release build where nothing is configured.
pub proof fn law_verbosity_steps(verbose_level: u8, configured: LogLevel, debug_build: bool)
    ensures
        chosen_level(0, Some(configured), debug_build) == configured,
        chosen_level(0, None, false) == LogLevel::Warn,
        verbose_level < 255 ==> ({
            let more = (verbose_level + 1) as u8;
            &&& chosen_level(verbose_level, None, true) == chosen_level(more, None, false)
            &&& chosen_level(more, None, debug_build) == match chosen_level(
                verbose_level,
                None,
                debug_build,
            ) {
                LogLevel::Error => LogLevel::Warn,
                LogLevel::Warn => LogLevel::Info,
                LogLevel::Info => LogLevel::Debug,
                LogLevel::Debug => LogLevel::Trace,
                LogLevel::Trace => LogLevel::Trace,
            }
            &&& verbose_level >= 1 ==> chosen_level(more, Some(configured), debug_build)
                == LogLevel::Trace
        }),
        chosen_level(1, Some(configured), debug_build) == LogLevel::Debug,
{
}

/// What lines show: the place in the code at high verbosity or, outside JSON, at
/// a configured level that is for developers; the module unless a release build
/// runs without configuration and verbosity.
pub proof fn law_what_lines_show(
    verbose_level: u8,
    level: LogLevel,
    format: LogFormat,
    debug_build: bool,
)
    ensures
        ({
            let p = planned(verbose_level, Some((level, format)), debug_build);
            &&& p.with_target
            &&& p.style == match format {
                LogFormat::Json => LogStyle::Json,
                LogFormat::Pretty => LogStyle::Pretty,
                LogFormat::Compact => LogStyle::Compact,
            }
            &&& format == LogFormat::Json ==> !p.with_location
            &&& format != LogFormat::Json ==> (p.with_location <==> verbose_level >= 2 || level
                == LogLevel::Debug || level == LogLevel::Trace)
            &&& p.level == chosen_level(verbose_level, Some(level), debug_build)
        }),
        ({
            let p = planned(verbose_level, None, debug_build);
            let bare = verbose_level == 0 && !debug_build;
            &&& p.with_target == !bare
            &&& bare ==> p.style == LogStyle::Compact
            &&& !bare ==> p.style == LogStyle::Full
            &&& p.with_location <==> verbose_level >= 2
            &&& p.level == chosen_level(verbose_level, None, debug_build)
        }),
{
}

} // verus!
