//! Where the log goes, and how a message names its place in the program.

use crate::cmd_args::{LogLevel, Options};
use crate::text::{decimal, decimal_text};
use vstd::prelude::*;
use vstd::string::StringExecFns;

verus! {

/// The size in bytes from which a log file is rotated.
pub const MAX_LOG_SIZE: u64 = 2 * 1024 * 1024;

/// The number of log files that are kept.
pub const MAX_LOG_FILES: usize = 10;

/// The path that stands for the standard output.
pub const STDOUT_PATH: &'static str = "-";

/// What stands for a file name that is not known.
pub const UNKNOWN_FILE: &'static str = "?????";

/// What stands for a line number that is not known.
pub const UNKNOWN_LINE: &'static str = "???";

/// What is found at the path of the log.
#[derive(Clone, Copy, Debug, PartialEq, Eq, Structural)]
pub struct PathProbe {
    /// There is something at the path.
    pub exists: bool,
    /// It is a file.
    pub is_file: bool,
    /// It is a directory.
    pub is_dir: bool,
    /// The name at the end of the path has an extension.
    pub has_extension: bool,
}

/// The kind of place that the log goes to.
#[derive(Clone, Copy, Debug, PartialEq, Eq, Structural)]
pub enum LogTarget {
    /// The standard output.
    Stdout,
    /// One file, which is made if it is not there.
    File,
    /// A directory of files that are rotated.
    Directory,
}

/// How the log is set up.
#[derive(Debug)]
pub struct LogPlan {
    pub target: LogTarget,
    pub level: LogLevel,
    pub path: String,
    pub tee: bool,
}

/// What is at the path of the log is neither a file nor a directory.
#[derive(Clone, Copy, Debug, PartialEq, Eq, Structural)]
pub struct InvalidLogPath;

/// The kind of place that a path stands for: the standard output for `-`;
/// what is there, where something is there; else a file where the name has
/// an extension, and a directory where it has none.
pub open spec fn target_of(path: Seq<char>, probe: PathProbe) -> Result<LogTarget, InvalidLogPath> {
    if path == STDOUT_PATH@ {
        Ok(LogTarget::Stdout)
    } else if probe.exists {
        if probe.is_file {
            Ok(LogTarget::File)
        } else if probe.is_dir {
            Ok(LogTarget::Directory)
        } else {
            Err(InvalidLogPath)
        }
    } else if probe.has_extension {
        Ok(LogTarget::File)
    } else {
        Ok(LogTarget::Directory)
    }
}

/// Decides how the log is set up, from the options and from what is found
/// at the path of the log.
pub fn init(opts: &Options, probe: &PathProbe) -> (r: Result<LogPlan, InvalidLogPath>)
    ensures
        match r {
            Ok(plan) => target_of(
                match opts.log_output {
                    Some(path) => path@,
                    None => opts.defaults.log_path@,
                },
                *probe,
            ) == Ok::<LogTarget, InvalidLogPath>(plan.target) && plan.level == match opts.log_level {
                Some(level) => level,
                None => LogLevel::Info,
            } && plan.path@ == match opts.log_output {
                Some(path) => path@,
                None => opts.defaults.log_path@,
            } && plan.tee == opts.log_tee,
            Err(_) => target_of(
                match opts.log_output {
                    Some(path) => path@,
                    None => opts.defaults.log_path@,
                },
                *probe,
            ) is Err,
        },
{
    let level = opts.log_level();
    let path = opts.log_output();
    let stdout = STDOUT_PATH.to_owned();
    let target = if path == stdout {
        LogTarget::Stdout
    } else if probe.exists {
        if probe.is_file {
            LogTarget::File
        } else if probe.is_dir {
            LogTarget::Directory
        } else {
            return Err(InvalidLogPath);
        }
    } else if probe.has_extension {
        LogTarget::File
    } else {
        LogTarget::Directory
    };
    Ok(LogPlan { target, level, path, tee: opts.log_tee() })
}

/// The place in the program that a message comes from: the name of the
/// file and the number of the line, with marks where they are not known.
pub open spec fn source_text(file: Option<Seq<char>>, line: Option<u32>) -> Seq<char> {
    (match file {
        Some(name) => name,
        None => UNKNOWN_FILE@,
    }) + ":"@ + (match line {
        Some(number) => decimal_text(number as nat),
        None => UNKNOWN_LINE@,
    })
}

/// The place in the program that a message comes from. `file` is the name
/// of the file without its directories.
pub fn source_info(file: Option<&str>, line: Option<u32>) -> (r: String)
    ensures
        r@ == source_text(
            match file {
                Some(name) => Some(name@),
                None => None,
            },
            line,
        ),
{
    let mut r = String::new();
    match file {
        Some(name) => r.append(name),
        None => r.append(UNKNOWN_FILE),
    }
    r.append(":");
    match line {
        Some(number) => r.append(decimal(number).as_str()),
        None => r.append(UNKNOWN_LINE),
    }
    assert(r@ =~= source_text(
        match file {
            Some(name) => Some(name@),
            None => None,
        },
        line,
    ));
    r
}

} // verus!
