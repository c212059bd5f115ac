//! What the logging settings mean: the level, the directory, the sizes and
//! the way old log files are kept, each read from the text that the
//! configuration file holds.

use crate::settings::{ExplorerLog, Settings};
use crate::text::{
    begins_with, chars_of, ends_with, find, finishes_with, first_occurrence, read_signed,
    read_unsigned, signed_number, starts_with, unsigned_number,
};
use vstd::prelude::*;

verus! {

/// How much is logged.
#[derive(Debug, Clone, Copy, PartialEq, Eq, Structural)]
pub enum LogLevel {
    Error,
    Warn,
    Info,
    Debug,
    Trace,
}

/// A size of a log file, in a unit.
#[derive(Debug, Clone, Copy, PartialEq, Eq, Structural)]
pub enum LogSize {
    KB(usize),
    MB(usize),
    GB(usize),
}

/// Which old log files stay.
#[derive(Debug, Clone, Copy, PartialEq, Eq, Structural)]
pub enum RollingType {
    /// All of them.
    All,
    /// Those younger than so many seconds.
    KeepTime(u64),
    /// The newest so many.
    KeepNum(i64),
}

/// The size of a log file where the setting names no unit.
pub const DEFAULT_SIZE_MB: usize = 100;

/// The level that `name` stands for: `error`, `warn`, `trace` and `debug`
/// for themselves, anything else for `Info`.
pub open spec fn level_of(name: Seq<char>) -> LogLevel {
    if name == "error"@ {
        LogLevel::Error
    } else if name == "warn"@ {
        LogLevel::Warn
    } else if name == "trace"@ {
        LogLevel::Trace
    } else if name == "debug"@ {
        LogLevel::Debug
    } else {
        LogLevel::Info
    }
}

/// The directory `dir` with a `/` at its end.
pub open spec fn dir_of(dir: Seq<char>) -> Seq<char> {
    if ends_with(dir, "/"@) {
        dir
    } else {
        dir + "/"@
    }
}

/// The size that `text` writes with the unit `unit`: the number that
/// stands before the first `unit` in it.
pub open spec fn size_in_unit(text: Seq<char>, unit: Seq<char>) -> Option<int> {
    match first_occurrence(text, unit) {
        Some(end) => unsigned_number(text.subrange(0, end), usize::MAX as int),
        None => None,
    }
}

/// The size that `text` writes. A text that ends in `MB`, `KB` or `GB` is
/// a number in that unit, and no size where there is no such number before
/// the unit; any other text is the default size.
pub open spec fn size_of(text: Seq<char>) -> Option<LogSize> {
    if ends_with(text, "MB"@) {
        match size_in_unit(text, "MB"@) {
            Some(n) => Some(LogSize::MB(n as usize)),
            None => None,
        }
    } else if ends_with(text, "KB"@) {
        match size_in_unit(text, "KB"@) {
            Some(n) => Some(LogSize::KB(n as usize)),
            None => None,
        }
    } else if ends_with(text, "GB"@) {
        match size_in_unit(text, "GB"@) {
            Some(n) => Some(LogSize::GB(n as usize)),
            None => None,
        }
    } else {
        Some(LogSize::MB(DEFAULT_SIZE_MB))
    }
}

/// What stands in `text` between the opening `word` and the first `)`.
pub open spec fn in_brackets(text: Seq<char>, word: Seq<char>) -> Option<Seq<char>> {
    match first_occurrence(text, ")"@) {
        Some(end) => if word.len() <= end {
            Some(text.subrange(word.len() as int, end))
        } else {
            None
        },
        None => None,
    }
}

/// The way of keeping old files that `text` writes: `KeepNum(n)` keeps the
/// newest `n`, `KeepTime(s)` those younger than `s` seconds, and any text
/// that begins otherwise keeps all. There is none where the bracket is not
/// closed or holds no number.
pub open spec fn rolling_of(text: Seq<char>) -> Option<RollingType> {
    if starts_with(text, "KeepNum("@) {
        match in_brackets(text, "KeepNum("@) {
            Some(number) => match signed_number(number, i64::MIN as int, i64::MAX as int) {
                Some(n) => Some(RollingType::KeepNum(n as i64)),
                None => None,
            },
            None => None,
        }
    } else if starts_with(text, "KeepTime("@) {
        match in_brackets(text, "KeepTime("@) {
            Some(number) => match unsigned_number(number, u64::MAX as int) {
                Some(n) => Some(RollingType::KeepTime(n as u64)),
                None => None,
            },
            None => None,
        }
    } else {
        Some(RollingType::All)
    }
}

/// The level that the setting `arg` names.
pub fn log_level(arg: &str) -> (level: LogLevel)
    ensures
        level == level_of(arg@),
{
    let name = chars_of(arg);
    if same_text(&name, "error") {
        LogLevel::Error
    } else if same_text(&name, "warn") {
        LogLevel::Warn
    } else if same_text(&name, "trace") {
        LogLevel::Trace
    } else if same_text(&name, "debug") {
        LogLevel::Debug
    } else {
        LogLevel::Info
    }
}

/// Whether `text` is the word `word`.
fn same_text(text: &Vec<char>, word: &str) -> (same: bool)
    ensures
        same == (text@ == word@),
{
    let letters = chars_of(word);
    if letters.len() != text.len() {
        return false;
    }
    let same = begins_with(text, &letters);
    proof {
        assert(text@.subrange(0, text@.len() as int) =~= text@);
    }
    same
}

/// The directory that the setting `arg` names, with a `/` at its end.
pub fn log_dir(arg: &str) -> (dir: String)
    ensures
        dir@ == dir_of(arg@),
{
    let text = chars_of(arg);
    let slash = chars_of("/");
    let mut dir = String::from_str(arg);
    if !finishes_with(&text, &slash) {
        dir.append("/");
    }
    dir
}

/// The number that stands in `text` before the first `unit`.
fn number_before(text: &Vec<char>, unit: &str) -> (number: Option<usize>)
    ensures
        number matches Some(n) ==> size_in_unit(text@, unit@) == Some(n as int),
        number is None ==> size_in_unit(text@, unit@) is None,
{
    let word = chars_of(unit);
    match find(text, &word) {
        Some(end) => match read_unsigned(text, 0, end, usize::MAX as u64) {
            Some(n) => Some(n as usize),
            None => None,
        },
        None => None,
    }
}

/// The size that the setting `arg` writes, or `None` where it ends in a
/// unit with no number before it.
pub fn file_size(arg: &str) -> (size: Option<LogSize>)
    ensures
        size == size_of(arg@),
{
    let text = chars_of(arg);
    if finishes_with(&text, &chars_of("MB")) {
        match number_before(&text, "MB") {
            Some(n) => Some(LogSize::MB(n)),
            None => None,
        }
    } else if finishes_with(&text, &chars_of("KB")) {
        match number_before(&text, "KB") {
            Some(n) => Some(LogSize::KB(n)),
            None => None,
        }
    } else if finishes_with(&text, &chars_of("GB")) {
        match number_before(&text, "GB") {
            Some(n) => Some(LogSize::GB(n)),
            None => None,
        }
    } else {
        Some(LogSize::MB(DEFAULT_SIZE_MB))
    }
}

/// Where the content of the bracket that `word` opens ends in `text`: at
/// the first `)`.
fn bracket_end(text: &Vec<char>, word: &Vec<char>) -> (end: Option<usize>)
    ensures
        end matches Some(at) ==> word.len() <= at <= text.len() && in_brackets(text@, word@)
            == Some(text@.subrange(word.len() as int, at as int)),
        end is None ==> in_brackets(text@, word@) is None,
{
    match find(text, &chars_of(")")) {
        Some(end) => if word.len() <= end {
            Some(end)
        } else {
            None
        },
        None => None,
    }
}

/// The way of keeping old files that the setting `arg` writes, or `None`
/// where its bracket is not closed or holds no number.
pub fn rolling_type(arg: &str) -> (rolling: Option<RollingType>)
    ensures
        rolling == rolling_of(arg@),
{
    let text = chars_of(arg);
    let keep_num = chars_of("KeepNum(");
    let keep_time = chars_of("KeepTime(");
    if begins_with(&text, &keep_num) {
        match bracket_end(&text, &keep_num) {
            Some(end) => match read_signed(&text, keep_num.len(), end) {
                Some(n) => Some(RollingType::KeepNum(n)),
                None => None,
            },
            None => None,
        }
    } else if begins_with(&text, &keep_time) {
        match bracket_end(&text, &keep_time) {
            Some(end) => match read_unsigned(&text, keep_time.len(), end, u64::MAX) {
                Some(n) => Some(RollingType::KeepTime(n)),
                None => None,
            },
            None => None,
        }
    } else {
        Some(RollingType::All)
    }
}

/// All that the logging settings decide.
#[derive(Debug, Clone, PartialEq, Eq)]
pub struct LogPlan {
    /// The directory of the split log files, with a `/` at its end.
    pub dir: String,
    /// The size at which a split log file is closed.
    pub temp_size: LogSize,
    /// Which closed log files stay.
    pub rolling: RollingType,
    /// How much is logged.
    pub level: LogLevel,
    /// The size at which the service's own log file starts over.
    pub max_size: LogSize,
}

impl ExplorerLog {
    /// What the logging settings in `settings` decide, or `None` where a
    /// size or the way of keeping old files cannot be read.
    pub fn plan(settings: &Settings) -> (plan: Option<LogPlan>)
        ensures
            match (
                size_of(settings.log.temp_size@),
                rolling_of(settings.log.rolling_type@),
                size_of(settings.log.max_size@),
            ) {
                (Some(temp_size), Some(rolling), Some(max_size)) => plan matches Some(p) && p.dir@
                    == dir_of(settings.log.log_dir@) && p.temp_size == temp_size && p.rolling
                    == rolling && p.level == level_of(settings.log.level@) && p.max_size
                    == max_size,
                _ => plan is None,
            },
    {
        let max_size = match file_size(settings.log.max_size.as_str()) {
            Some(size) => size,
            None => { return None; },
        };
        let temp_size = match file_size(settings.log.temp_size.as_str()) {
            Some(size) => size,
            None => { return None; },
        };
        let rolling = match rolling_type(settings.log.rolling_type.as_str()) {
            Some(rolling) => rolling,
            None => { return None; },
        };
        Some(
            LogPlan {
                dir: log_dir(settings.log.log_dir.as_str()),
                temp_size,
                rolling,
                level: log_level(settings.log.level.as_str()),
                max_size,
            },
        )
    }
}

} // verus!
