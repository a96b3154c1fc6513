//! Lines and bytes of a file, counted in one pass from the front.

use vstd::prelude::*;

verus! {

/// The byte that ends a line.
pub const LINE_END: u8 = 10;

/// How many line ends `data` holds.
pub open spec fn terminator_count(data: Seq<u8>) -> nat
    decreases data.len(),
{
    if data.len() == 0 {
        0
    } else {
        terminator_count(data.drop_last()) + if data.last() == LINE_END {
            1nat
        } else {
            0nat
        }
    }
}

/// How many lines `data` holds: a last line with no line end counts as one.
pub open spec fn line_count(data: Seq<u8>) -> nat {
    if data.len() > 0 && data.last() != LINE_END {
        terminator_count(data) + 1
    } else {
        terminator_count(data)
    }
}

/// The length of the line that starts at `from`, its line end included; what
/// is left of `data` where no line end follows.
pub open spec fn chunk_len(data: Seq<u8>, from: int) -> nat
    decreases data.len() - from,
{
    if from < 0 || from >= data.len() {
        0
    } else if data[from] == LINE_END {
        1
    } else {
        1 + chunk_len(data, from + 1)
    }
}

/// A chunk stays inside the data, is empty only at the end of the data, and
/// holds a line end in its last place or nowhere.
pub proof fn lemma_chunk_len(data: Seq<u8>, from: int)
    requires
        0 <= from <= data.len(),
    ensures
        from + chunk_len(data, from) <= data.len(),
        from < data.len() ==> chunk_len(data, from) > 0,
        forall|i: int| from <= i < from + chunk_len(data, from) - 1 ==> data[i] != LINE_END,
        from + chunk_len(data, from) < data.len() ==> data[from + chunk_len(data, from) - 1]
            == LINE_END,
    decreases data.len() - from,
{
    if from < data.len() && data[from] != LINE_END {
        lemma_chunk_len(data, from + 1);
    }
}

/// Line ends up to `to` are those up to `from`, where none stands between.
pub proof fn lemma_no_terminator_between(data: Seq<u8>, from: int, to: int)
    requires
        0 <= from <= to <= data.len(),
        forall|i: int| from <= i < to ==> data[i] != LINE_END,
    ensures
        terminator_count(data.take(to)) == terminator_count(data.take(from)),
    decreases to - from,
{
    if from < to {
        lemma_no_terminator_between(data, from, to - 1);
        assert(data.take(to).drop_last() =~= data.take(to - 1));
    }
}

/// One byte more adds one line end where that byte is one.
pub proof fn lemma_terminator_count_step(data: Seq<u8>, to: int)
    requires
        0 <= to < data.len(),
    ensures
        terminator_count(data.take(to + 1)) == terminator_count(data.take(to)) + if data[to]
            == LINE_END {
            1nat
        } else {
            0nat
        },
{
    assert(data.take(to + 1).drop_last() =~= data.take(to));
}

/// The line ends of the whole are those before a place and those from it on.
pub proof fn lemma_terminator_count_split(data: Seq<u8>, at: int)
    requires
        0 <= at <= data.len(),
    ensures
        terminator_count(data) == terminator_count(data.take(at)) + terminator_count(
            data.skip(at),
        ),
    decreases data.len(),
{
    if at == data.len() {
        assert(data.take(at) =~= data);
        assert(data.skip(at) =~= Seq::<u8>::empty());
    } else {
        lemma_terminator_count_split(data.drop_last(), at);
        assert(data.drop_last().take(at) =~= data.take(at));
        assert(data.skip(at).drop_last() =~= data.drop_last().skip(at));
    }
}

/// The running totals of a scan: the lines and bytes seen so far.
#[derive(Debug, Clone, Copy, PartialEq, Eq, Structural)]
pub struct Totals {
    pub lines: u64,
    pub bytes: u64,
}

impl Totals {
    /// Every line holds a byte at least.
    pub open spec fn well_formed(&self) -> bool {
        self.lines <= self.bytes
    }

    /// The totals before anything was read.
    pub fn new() -> (totals: Totals)
        ensures
            totals.lines == 0,
            totals.bytes == 0,
            totals.well_formed(),
    {
        Totals { lines: 0, bytes: 0 }
    }

    /// Takes in one line of `bytes_read` bytes, its line end counted.
    pub fn add_line(&mut self, bytes_read: usize)
        requires
            old(self).well_formed(),
            bytes_read > 0,
            old(self).bytes + bytes_read <= u64::MAX,
        ensures
            final(self).lines == old(self).lines + 1,
            final(self).bytes == old(self).bytes + bytes_read,
            final(self).well_formed(),
    {
        self.lines = self.lines + 1;
        self.bytes = self.bytes + bytes_read as u64;
    }
}

/// The length of the line that starts at `from`: up to the next line end and
/// with it, or to the end of `data`.
pub fn read_until_line_end(data: &[u8], from: usize) -> (bytes_read: usize)
    requires
        from <= data@.len(),
    ensures
        bytes_read == chunk_len(data@, from as int),
{
    let mut at: usize = from;
    while at < data.len()
        invariant
            from <= at <= data@.len(),
            chunk_len(data@, from as int) == (at - from) + chunk_len(data@, at as int),
        decreases data@.len() - at,
    {
        if data[at] == LINE_END {
            return at - from + 1;
        }
        at = at + 1;
    }
    at - from
}

/// The lines and the bytes of `data`.
pub fn count_lines_bytes(data: &[u8]) -> (totals: (u64, u64))
    ensures
        totals.0 == line_count(data@),
        totals.1 == data@.len(),
{
    let mut totals = Totals::new();
    let mut at: usize = 0;
    while at < data.len()
        invariant
            at <= data@.len(),
            totals.well_formed(),
            totals.bytes == at,
            at < data@.len() ==> totals.lines == terminator_count(data@.take(at as int)),
            at == data@.len() ==> totals.lines == line_count(data@),
        decreases data@.len() - at,
    {
        let bytes_read = read_until_line_end(data, at);
        proof {
            let next = at + bytes_read;
            lemma_chunk_len(data@, at as int);
            lemma_no_terminator_between(data@, at as int, next - 1);
            lemma_terminator_count_step(data@, next - 1);
        }
        totals.add_line(bytes_read);
        at = at + bytes_read;
    }
    (totals.lines, totals.bytes)
}

} // verus!
