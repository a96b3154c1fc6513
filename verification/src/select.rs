//! What is written of one file: everything from the selected line or byte on.

use vstd::prelude::*;
use vstd::slice::slice_subrange;
use crate::count::{
    chunk_len, lemma_chunk_len, lemma_no_terminator_between, lemma_terminator_count_split,
    lemma_terminator_count_step, line_count, read_until_line_end, terminator_count,
};
use crate::index::{get_start_index, start_index};
use crate::take_value::TakeValue;

verus! {

/// The place in `data` where the line of zero-based number `line` starts; the
/// end of `data` for a line that is not there.
pub open spec fn line_start(data: Seq<u8>, line: nat) -> nat
    decreases line,
{
    if line == 0 {
        0
    } else {
        let before = line_start(data, (line - 1) as nat);
        before + chunk_len(data, before as int)
    }
}

/// Once a line starts at the end of the data, so do all after it.
pub proof fn lemma_line_start_past_end(data: Seq<u8>, line: nat, later: nat)
    requires
        line <= later,
        line_start(data, line) == data.len(),
    ensures
        line_start(data, later) == data.len(),
    decreases later,
{
    if line < later {
        lemma_line_start_past_end(data, line, (later - 1) as nat);
    }
}

/// The state of writing a file from a line on, while it is read line by
/// line from the front: the lines before that line are passed over.
#[derive(Debug, Clone, Copy, PartialEq, Eq, Structural)]
pub struct LineEmitter {
    /// The lines that are still to be passed over.
    pub to_skip: u64,
}

impl LineEmitter {
    /// The state before the first line was read, for output from the line of
    /// zero-based number `start_line` on.
    pub fn new(start_line: u64) -> (emitter: LineEmitter)
        ensures
            emitter.to_skip == start_line,
    {
        LineEmitter { to_skip: start_line }
    }

    /// Takes in the line that was read, and says whether it is written: the
    /// first `start_line` lines are not, every line after them is.
    pub fn next_line(&mut self) -> (written: bool)
        ensures
            written == (old(self).to_skip == 0),
            written ==> final(self).to_skip == 0,
            !written ==> final(self).to_skip == old(self).to_skip - 1,
    {
        if self.to_skip == 0 {
            true
        } else {
            self.to_skip = self.to_skip - 1;
            false
        }
    }
}

/// Finds where line `start_line` starts, reading line by line from the front.
pub fn seek_line(data: &[u8], start_line: u64) -> (at: usize)
    ensures
        at == line_start(data@, start_line as nat),
        at <= data@.len(),
{
    let mut emitter = LineEmitter::new(start_line);
    let mut at: usize = 0;
    while at < data.len()
        invariant
            emitter.to_skip <= start_line,
            at <= data@.len(),
            at == line_start(data@, (start_line - emitter.to_skip) as nat),
        decreases data@.len() - at,
    {
        if emitter.next_line() {
            return at;
        }
        let bytes_read = read_until_line_end(data, at);
        proof {
            lemma_chunk_len(data@, at as int);
        }
        at = at + bytes_read;
    }
    proof {
        lemma_line_start_past_end(
            data@,
            (start_line - emitter.to_skip) as nat,
            start_line as nat,
        );
    }
    at
}

/// What is written of `data` from the line of number `start_line` on.
pub open spec fn lines_after(data: Seq<u8>, start_line: int) -> Seq<u8> {
    data.skip(line_start(data, start_line as nat) as int)
}

/// What is written of `data` from the byte at `start_byte` on: nothing where
/// the data ends before it.
pub open spec fn bytes_after(data: Seq<u8>, start_byte: int) -> Seq<u8> {
    if start_byte <= data.len() {
        data.skip(start_byte)
    } else {
        Seq::<u8>::empty()
    }
}

/// What line mode writes of `data`, for a file counted at `total_lines` lines.
pub open spec fn selected_lines(data: Seq<u8>, num_lines: TakeValue, total_lines: int) -> Seq<u8> {
    match start_index(num_lines, total_lines) {
        None => Seq::<u8>::empty(),
        Some(start) => lines_after(data, start),
    }
}

/// What byte mode writes of `data`, for a file counted at `total_bytes` bytes.
pub open spec fn selected_bytes(data: Seq<u8>, num_bytes: TakeValue, total_bytes: int) -> Seq<u8> {
    match start_index(num_bytes, total_bytes) {
        None => Seq::<u8>::empty(),
        Some(start) => bytes_after(data, start),
    }
}

/// The lines of `data` from the line of number `start_line` to the end, each
/// as it stands.
pub fn lines_from<'a>(data: &'a [u8], start_line: u64) -> (out: &'a [u8])
    ensures
        out@ == lines_after(data@, start_line as int),
{
    let at = seek_line(data, start_line);
    slice_subrange(data, at, data.len())
}

/// The bytes of `data` from the byte at `start_byte` to the end.
pub fn bytes_from<'a>(data: &'a [u8], start_byte: u64) -> (out: &'a [u8])
    ensures
        out@ == bytes_after(data@, start_byte as int),
{
    let len = data.len();
    if start_byte <= len as u64 {
        slice_subrange(data, start_byte as usize, len)
    } else {
        slice_subrange(data, len, len)
    }
}

/// The lines of `data` from the selected line to the end.
pub fn tail_lines<'a>(data: &'a [u8], num_lines: &TakeValue, total_lines: u64) -> (out: &'a [u8])
    ensures
        out@ == selected_lines(data@, *num_lines, total_lines as int),
{
    match get_start_index(num_lines, total_lines) {
        None => slice_subrange(data, 0, 0),
        Some(start) => lines_from(data, start),
    }
}

/// The bytes of `data` from the selected byte to the end.
pub fn tail_bytes<'a>(data: &'a [u8], num_bytes: &TakeValue, total_bytes: u64) -> (out: &'a [u8])
    ensures
        out@ == selected_bytes(data@, *num_bytes, total_bytes as int),
{
    match get_start_index(num_bytes, total_bytes) {
        None => slice_subrange(data, 0, 0),
        Some(start) => bytes_from(data, start),
    }
}

/// A line that is there starts after as many line ends as its number says;
/// the line after the last starts at the end of the data.
pub proof fn lemma_line_start_counts(data: Seq<u8>, line: nat)
    requires
        line <= line_count(data),
    ensures
        line_start(data, line) <= data.len(),
        line_start(data, line) < data.len() ==> terminator_count(
            data.take(line_start(data, line) as int),
        ) == line,
        line_start(data, line) == data.len() ==> line == line_count(data),
    decreases line,
{
    if line == 0 {
    } else {
        let before = line_start(data, (line - 1) as nat) as int;
        let start = line_start(data, line) as int;
        lemma_line_start_counts(data, (line - 1) as nat);
        lemma_chunk_len(data, before);
        lemma_no_terminator_between(data, before, start - 1);
        lemma_terminator_count_step(data, start - 1);
    }
}

/// From the start of a line on, the data holds the lines that are left.
pub proof fn lemma_lines_after_start(data: Seq<u8>, line: nat)
    requires
        line <= line_count(data),
    ensures
        line_count(data.skip(line_start(data, line) as int)) == line_count(data) - line,
{
    let start = line_start(data, line) as int;
    lemma_line_start_counts(data, line);
    if start < data.len() {
        lemma_terminator_count_split(data, start);
    } else {
        assert(data.skip(start) =~= Seq::<u8>::empty());
    }
}

/// Line mode writes the lines from the selected one to the last, and no other:
/// as many as the file holds from there on.
pub proof fn lemma_selected_line_count(data: Seq<u8>, num_lines: TakeValue)
    ensures
        line_count(selected_lines(data, num_lines, line_count(data) as int)) == match start_index(
            num_lines,
            line_count(data) as int,
        ) {
            None => 0,
            Some(start) => line_count(data) - start,
        },
{
    match start_index(num_lines, line_count(data) as int) {
        None => {},
        Some(start) => {
            lemma_lines_after_start(data, start as nat);
        },
    }
}

/// A negative count within the file selects that many lines, the last ones.
pub proof fn lemma_last_lines(data: Seq<u8>, num: i64)
    requires
        num < 0,
        -num <= line_count(data),
    ensures
        line_count(selected_lines(data, TakeValue::TakeNum(num), line_count(data) as int))
            == -num,
{
    lemma_selected_line_count(data, TakeValue::TakeNum(num));
}

/// A negative count within the file selects that many bytes, the last ones.
pub proof fn lemma_last_bytes(data: Seq<u8>, num: i64)
    requires
        num < 0,
        -num <= data.len(),
    ensures
        selected_bytes(data, TakeValue::TakeNum(num), data.len() as int) == data.skip(
            data.len() + num,
        ),
        selected_bytes(data, TakeValue::TakeNum(num), data.len() as int).len() == -num,
{
}

/// A count larger than the file, from the end, selects the whole file.
pub proof fn lemma_count_beyond_start(data: Seq<u8>, num: i64)
    requires
        num < 0,
        data.len() > 0,
    ensures
        -num >= line_count(data) ==> selected_lines(
            data,
            TakeValue::TakeNum(num),
            line_count(data) as int,
        ) == data,
        -num >= data.len() ==> selected_bytes(data, TakeValue::TakeNum(num), data.len() as int)
            == data,
{
}

} // verus!
