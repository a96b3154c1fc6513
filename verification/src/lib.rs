//! Start-of-output selection for a `tail`-like tool: parsing a signed count,
//! resolving it against a file's totals, and choosing what is written.

pub mod take_value;
pub mod index;
pub mod count;
pub mod select;
pub mod args;
pub mod run;

pub use crate::args::{get_args, Args, UsageError};
pub use crate::count::{count_lines_bytes, read_until_line_end, Totals};
pub use crate::index::{get_start_index, magnitude};
pub use crate::run::{diagnostic, file_actions, header, run, select, Action, Source};
pub use crate::select::{bytes_from, lines_from, seek_line, tail_bytes, tail_lines, LineEmitter};
pub use crate::take_value::{ParseError, TakeValue};
