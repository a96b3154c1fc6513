//! The settings of one run, checked before any file is touched.

use vstd::prelude::*;
use crate::take_value::{parse_spec, TakeValue};

verus! {

/// The settings of one run.
#[derive(Debug)]
pub struct Args {
    /// The files, in the order in which they are written.
    pub files: Vec<String>,
    /// The count of line mode.
    pub lines: TakeValue,
    /// The count of byte mode; where it is set, `lines` is not used.
    pub bytes: Option<TakeValue>,
    /// No headers, however many files there are.
    pub quiet: bool,
}

/// Why the settings cannot be used.
#[derive(Debug, Clone, Copy, PartialEq, Eq, Structural)]
pub enum UsageError {
    /// The count of line mode is no count.
    InvalidLines,
    /// The count of byte mode is no count.
    InvalidBytes,
    /// Both a line count and a byte count were given.
    LinesWithBytes,
    /// No file was named.
    NoFiles,
}

/// The line count that is used where none was given: the last ten lines.
pub const DEFAULT_LINES: i64 = -10;

/// The line count that the settings hold for a given text, or for none.
pub open spec fn lines_setting(lines: Option<Seq<char>>) -> Result<TakeValue, UsageError> {
    match lines {
        None => Ok(TakeValue::TakeNum(DEFAULT_LINES)),
        Some(text) => match parse_spec(text) {
            Ok(value) => Ok(value),
            Err(_) => Err(UsageError::InvalidLines),
        },
    }
}

/// The byte count that the settings hold for a given text, or for none.
pub open spec fn bytes_setting(bytes: Option<Seq<char>>) -> Result<Option<TakeValue>, UsageError> {
    match bytes {
        None => Ok(None),
        Some(text) => match parse_spec(text) {
            Ok(value) => Ok(Some(value)),
            Err(_) => Err(UsageError::InvalidBytes),
        },
    }
}

/// The first fault of the settings, if they have one: a count that cannot be
/// read comes before a clash of the two modes, and that before a missing file.
pub open spec fn usage_error(
    files: Seq<String>,
    lines: Option<Seq<char>>,
    bytes: Option<Seq<char>>,
) -> Option<UsageError> {
    if lines_setting(lines) is Err {
        Some(UsageError::InvalidLines)
    } else if bytes_setting(bytes) is Err {
        Some(UsageError::InvalidBytes)
    } else if lines is Some && bytes is Some {
        Some(UsageError::LinesWithBytes)
    } else if files.len() == 0 {
        Some(UsageError::NoFiles)
    } else {
        None
    }
}

pub open spec fn text_of(text: Option<&str>) -> Option<Seq<char>> {
    match text {
        None => None,
        Some(s) => Some(s@),
    }
}

impl Args {
    /// Settings that a run can use: they name a file at least.
    pub open spec fn well_formed(&self) -> bool {
        self.files@.len() > 0
    }
}

/// The settings that the command line asks for, or its first fault.
pub open spec fn settings(
    files: Vec<String>,
    lines: Option<Seq<char>>,
    bytes: Option<Seq<char>>,
    quiet: bool,
) -> Result<Args, UsageError> {
    match usage_error(files@, lines, bytes) {
        Some(error) => Err(error),
        None => Ok(
            Args {
                files,
                lines: lines_setting(lines)->Ok_0,
                bytes: bytes_setting(bytes)->Ok_0,
                quiet,
            },
        ),
    }
}

/// Builds the settings from what the command line gave: the files, the text of
/// each count where one was given, and whether headers are left out.
pub fn get_args(files: Vec<String>, lines: Option<&str>, bytes: Option<&str>, quiet: bool) -> (res:
    Result<Args, UsageError>)
    ensures
        res == settings(files, text_of(lines), text_of(bytes), quiet),
        res is Ok ==> res->Ok_0.well_formed(),
{
    let lines_value = match lines {
        None => TakeValue::TakeNum(DEFAULT_LINES),
        Some(text) => match TakeValue::from_str(text) {
            Ok(value) => value,
            Err(_) => {
                return Err(UsageError::InvalidLines);
            },
        },
    };
    let bytes_value = match bytes {
        None => None,
        Some(text) => match TakeValue::from_str(text) {
            Ok(value) => Some(value),
            Err(_) => {
                return Err(UsageError::InvalidBytes);
            },
        },
    };
    if lines.is_some() && bytes.is_some() {
        return Err(UsageError::LinesWithBytes);
    }
    if files.len() == 0 {
        return Err(UsageError::NoFiles);
    }
    Ok(Args { files, lines: lines_value, bytes: bytes_value, quiet })
}

} // verus!
