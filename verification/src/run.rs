//! One run over the files: what is written, in which order, and where it stops.

use vstd::prelude::*;
use vstd::string::StringExecFns;
use crate::args::Args;
use crate::count::{count_lines_bytes, line_count, terminator_count, Totals};
use crate::index::{get_start_index, start_index};
use crate::select::{
    bytes_after, lemma_line_start_counts, lines_after, selected_bytes, selected_lines, tail_bytes,
    tail_lines,
};

verus! {

/// What opening and counting one file gave.
#[derive(Debug)]
pub enum Source {
    /// The file could not be opened; the text says why.
    OpenFailed(String),
    /// The file was read to its end; these are its lines and bytes.
    Counted(Totals),
    /// The file was opened and then could not be read; the text says why.
    ReadFailed(String),
}

/// A `Source` as plain values.
pub enum SourceView {
    OpenFailed(Seq<char>),
    Counted(Totals),
    ReadFailed(Seq<char>),
}

impl View for Source {
    type V = SourceView;

    open spec fn view(&self) -> SourceView {
        match *self {
            Source::OpenFailed(reason) => SourceView::OpenFailed(reason@),
            Source::Counted(totals) => SourceView::Counted(totals),
            Source::ReadFailed(reason) => SourceView::ReadFailed(reason@),
        }
    }
}

/// One step of a run, for the caller to carry out.
#[derive(Debug)]
pub enum Action {
    /// Writes a line on the error stream, and goes on.
    Diagnostic(String),
    /// Writes a header on the output.
    Header(String),
    /// Writes the file at `file_num` on the output, from the line of
    /// zero-based number `start` to the end.
    Lines { file_num: usize, start: u64 },
    /// Writes the file at `file_num` on the output, from the byte at `start`
    /// to the end.
    Bytes { file_num: usize, start: u64 },
    /// Ends the run with this error.
    Fail(String),
}

/// An `Action` as plain values.
pub enum ActionView {
    Diagnostic(Seq<char>),
    Header(Seq<char>),
    Lines { file_num: int, start: int },
    Bytes { file_num: int, start: int },
    Fail(Seq<char>),
}

impl View for Action {
    type V = ActionView;

    open spec fn view(&self) -> ActionView {
        match *self {
            Action::Diagnostic(text) => ActionView::Diagnostic(text@),
            Action::Header(text) => ActionView::Header(text@),
            Action::Lines { file_num, start } => ActionView::Lines {
                file_num: file_num as int,
                start: start as int,
            },
            Action::Bytes { file_num, start } => ActionView::Bytes {
                file_num: file_num as int,
                start: start as int,
            },
            Action::Fail(reason) => ActionView::Fail(reason@),
        }
    }
}

/// The header of the file `name`: a blank line comes before every header of
/// a run but the first one that is written.
pub open spec fn header_text(name: Seq<char>, first: bool) -> Seq<char> {
    if first {
        "==> "@ + name + " <==\n"@
    } else {
        "\n"@ + "==> "@ + name + " <==\n"@
    }
}

/// What is said of a file that could not be opened.
pub open spec fn diagnostic_text(name: Seq<char>, reason: Seq<char>) -> Seq<char> {
    name + ": "@ + reason
}

/// Headers are written where several files are named and `quiet` is not set.
pub open spec fn wants_header(args: Args) -> bool {
    !args.quiet && args.files@.len() > 1
}

/// What is written of a file's bytes: the selection of byte mode where a byte
/// count is set, else that of line mode.
pub open spec fn selected(args: Args, data: Seq<u8>) -> Seq<u8> {
    match args.bytes {
        Some(num_bytes) => selected_bytes(data, num_bytes, data.len() as int),
        None => selected_lines(data, args.lines, line_count(data) as int),
    }
}

/// The header step of the file at `file_num`, where headers are written;
/// `header_written` says whether this run has written a header before.
pub open spec fn header_actions(args: Args, file_num: int, header_written: bool) -> Seq<
    ActionView,
> {
    if wants_header(args) {
        seq![ActionView::Header(header_text(args.files@[file_num]@, !header_written))]
    } else {
        Seq::empty()
    }
}

/// Whether a header has been written once the steps of a file are done: a
/// file that could not be opened gets none.
pub open spec fn header_written_after(args: Args, header_written: bool, source: SourceView) -> bool {
    if source is OpenFailed {
        header_written
    } else {
        header_written || wants_header(args)
    }
}

/// The step that writes the file at `file_num`, counted at `totals`: from the
/// selected byte where a byte count is set, else from the selected line; no
/// step where nothing is selected.
pub open spec fn body_actions(args: Args, file_num: int, totals: Totals) -> Seq<ActionView> {
    match args.bytes {
        Some(num_bytes) => match start_index(num_bytes, totals.bytes as int) {
            Some(start) => seq![ActionView::Bytes { file_num, start }],
            None => Seq::empty(),
        },
        None => match start_index(args.lines, totals.lines as int) {
            Some(start) => seq![ActionView::Lines { file_num, start }],
            None => Seq::empty(),
        },
    }
}

/// The bytes that a step puts on the output from a file that holds `data`.
pub open spec fn written(step: ActionView, data: Seq<u8>) -> Seq<u8> {
    match step {
        ActionView::Lines { file_num, start } => lines_after(data, start),
        ActionView::Bytes { file_num, start } => bytes_after(data, start),
        _ => Seq::<u8>::empty(),
    }
}

/// The steps for the file at `file_num`. One that cannot be opened is
/// reported and passed over. One that was opened gets its header, and then
/// it is written from the selected place on, or the run fails on it.
pub open spec fn file_steps(
    args: Args,
    file_num: int,
    header_written: bool,
    source: SourceView,
) -> Seq<ActionView> {
    match source {
        SourceView::OpenFailed(reason) => seq![
            ActionView::Diagnostic(diagnostic_text(args.files@[file_num]@, reason)),
        ],
        SourceView::Counted(totals) => header_actions(args, file_num, header_written)
            + body_actions(args, file_num, totals),
        SourceView::ReadFailed(reason) => header_actions(args, file_num, header_written) + seq![
            ActionView::Fail(reason),
        ],
    }
}

/// The steps for the files from `file_num` on: file after file in the order of
/// the list, and nothing after a failure. `header_written` says whether a
/// header was written for a file before `file_num`.
pub open spec fn run_steps(
    args: Args,
    sources: Seq<Source>,
    file_num: int,
    header_written: bool,
) -> Seq<ActionView>
    decreases sources.len() - file_num,
{
    if file_num < 0 || file_num >= sources.len() {
        Seq::empty()
    } else if sources[file_num]@ is ReadFailed {
        file_steps(args, file_num, header_written, sources[file_num]@)
    } else {
        file_steps(args, file_num, header_written, sources[file_num]@) + run_steps(
            args,
            sources,
            file_num + 1,
            header_written_after(args, header_written, sources[file_num]@),
        )
    }
}

/// The steps as plain values.
pub open spec fn views(actions: Seq<Action>) -> Seq<ActionView> {
    actions.map_values(|action: Action| action@)
}

/// The header of a file; `first` says that no header was written before it.
pub fn header(name: &str, first: bool) -> (text: String)
    ensures
        text@ == header_text(name@, first),
{
    let mut text = if first {
        String::from_str("")
    } else {
        String::from_str("\n")
    };
    proof {
        reveal_strlit("");
    }
    text.append("==> ");
    text.append(name);
    text.append(" <==\n");
    text
}

/// The line that reports a file that could not be opened.
pub fn diagnostic(name: &str, reason: &str) -> (text: String)
    ensures
        text@ == diagnostic_text(name@, reason@),
{
    let mut text = String::from_str(name);
    text.append(": ");
    text.append(reason);
    text
}

/// The bytes of `data` that are written under `args`.
pub fn select<'a>(args: &Args, data: &'a [u8]) -> (out: &'a [u8])
    ensures
        out@ == selected(*args, data@),
{
    let (total_lines, total_bytes) = count_lines_bytes(data);
    match &args.bytes {
        Some(num_bytes) => tail_bytes(data, num_bytes, total_bytes),
        None => tail_lines(data, &args.lines, total_lines),
    }
}

/// The steps for one file of the list; `header_written` says whether this
/// run has written a header before.
pub fn file_actions(args: &Args, file_num: usize, header_written: bool, source: &Source) -> (actions:
    Vec<Action>)
    requires
        file_num < args.files@.len(),
    ensures
        views(actions@) == file_steps(*args, file_num as int, header_written, source@),
{
    let name: &str = args.files[file_num].as_str();
    let mut actions: Vec<Action> = Vec::new();
    match source {
        Source::OpenFailed(reason) => {
            actions.push(Action::Diagnostic(diagnostic(name, reason.as_str())));
        },
        Source::Counted(totals) => {
            if !args.quiet && args.files.len() > 1 {
                actions.push(Action::Header(header(name, !header_written)));
            }
            match &args.bytes {
                Some(num_bytes) => {
                    if let Some(start) = get_start_index(num_bytes, totals.bytes) {
                        actions.push(Action::Bytes { file_num, start });
                    }
                },
                None => {
                    if let Some(start) = get_start_index(&args.lines, totals.lines) {
                        actions.push(Action::Lines { file_num, start });
                    }
                },
            }
        },
        Source::ReadFailed(reason) => {
            if !args.quiet && args.files.len() > 1 {
                actions.push(Action::Header(header(name, !header_written)));
            }
            actions.push(Action::Fail(reason.clone()));
        },
    }
    actions
}

/// The steps of a whole run, where `sources` holds for each file of the list
/// what opening and counting it gave.
pub fn run(args: &Args, sources: &Vec<Source>) -> (actions: Vec<Action>)
    requires
        sources@.len() == args.files@.len(),
    ensures
        views(actions@) == run_steps(*args, sources@, 0, false),
{
    let mut actions: Vec<Action> = Vec::new();
    let mut file_num: usize = 0;
    let mut header_written: bool = false;
    while file_num < sources.len()
        invariant
            sources@.len() == args.files@.len(),
            file_num <= sources@.len(),
            run_steps(*args, sources@, 0, false) == views(actions@) + run_steps(
                *args,
                sources@,
                file_num as int,
                header_written,
            ),
        decreases sources@.len() - file_num,
    {
        let source = &sources[file_num];
        let mut steps = file_actions(args, file_num, header_written, source);
        let ghost before = actions@;
        let ghost added = steps@;
        actions.append(&mut steps);
        proof {
            assert(views(before + added) =~= views(before) + views(added));
        }
        match source {
            Source::ReadFailed(_) => {
                return actions;
            },
            Source::OpenFailed(_) => {},
            Source::Counted(_) => {
                header_written = header_written || (!args.quiet && args.files.len() > 1);
            },
        }
        file_num = file_num + 1;
    }
    actions
}

/// No more lines than bytes.
pub proof fn lemma_line_count_bound(data: Seq<u8>)
    ensures
        terminator_count(data) <= data.len(),
        line_count(data) <= data.len(),
    decreases data.len(),
{
    if data.len() > 0 {
        lemma_line_count_bound(data.drop_last());
    }
}

/// The totals of a file that holds `data`.
pub open spec fn totals_of(data: Seq<u8>) -> Totals {
    Totals { lines: line_count(data) as u64, bytes: data.len() as u64 }
}

/// For a file counted as it stands, the step that writes it puts its
/// selection on the output, and there is no such step where that is empty.
pub proof fn lemma_body_writes_selection(args: Args, file_num: int, data: Seq<u8>)
    requires
        data.len() <= u64::MAX,
    ensures
        body_actions(args, file_num, totals_of(data)).len() <= 1,
        body_actions(args, file_num, totals_of(data)).len() == 0 ==> selected(args, data).len()
            == 0,
        body_actions(args, file_num, totals_of(data)).len() == 1 ==> selected(args, data).len() > 0
            && written(body_actions(args, file_num, totals_of(data))[0], data) == selected(
            args,
            data,
        ),
{
    lemma_line_count_bound(data);
    match args.bytes {
        Some(num_bytes) => {},
        None => {
            match start_index(args.lines, line_count(data) as int) {
                Some(start) => {
                    lemma_line_start_counts(data, start as nat);
                },
                None => {},
            }
        },
    }
}

/// Whether a header stands among the first `upto` steps.
pub open spec fn header_among(steps: Seq<ActionView>, upto: int) -> bool
    decreases upto,
{
    if upto <= 0 {
        false
    } else {
        header_among(steps, upto - 1) || steps[upto - 1] is Header
    }
}

/// Whether `step` writes the header of a file of the list, as the first
/// header of the run or as a later one.
pub open spec fn is_header_of_run(step: ActionView, args: Args, first: bool) -> bool {
    exists|file_num: int|
        0 <= file_num < args.files@.len() && step == ActionView::Header(
            #[trigger] header_text(args.files@[file_num]@, first),
        )
}

/// Headers among steps that follow others are those among the others and
/// those among the steps themselves.
pub proof fn lemma_header_among_concat(front: Seq<ActionView>, back: Seq<ActionView>, upto: int)
    requires
        0 <= upto <= back.len(),
    ensures
        header_among(front + back, front.len() + upto) == (header_among(
            front,
            front.len() as int,
        ) || header_among(back, upto)),
    decreases upto,
{
    if upto > 0 {
        lemma_header_among_concat(front, back, upto - 1);
    } else {
        lemma_header_among_prefix(front, back, front.len() as int);
    }
}

/// Headers among the first steps do not depend on what follows.
pub proof fn lemma_header_among_prefix(front: Seq<ActionView>, back: Seq<ActionView>, upto: int)
    requires
        0 <= upto <= front.len(),
    ensures
        header_among(front + back, upto) == header_among(front, upto),
    decreases upto,
{
    if upto > 0 {
        lemma_header_among_prefix(front, back, upto - 1);
    }
}

/// In the steps for the files from `file_num` on, every header is the header
/// of a file of the list, and it starts with a blank line exactly where a
/// header was written before it, in this run.
pub proof fn lemma_blank_line_before_later_headers(
    args: Args,
    sources: Seq<Source>,
    file_num: int,
    header_written: bool,
)
    requires
        sources.len() == args.files@.len(),
        0 <= file_num <= sources.len(),
    ensures
        forall|i: int|
            #![trigger run_steps(args, sources, file_num, header_written)[i]]
            0 <= i < run_steps(args, sources, file_num, header_written).len() && run_steps(
                args,
                sources,
                file_num,
                header_written,
            )[i] is Header ==> is_header_of_run(
                run_steps(args, sources, file_num, header_written)[i],
                args,
                !(header_written || header_among(
                    run_steps(args, sources, file_num, header_written),
                    i,
                )),
            ),
    decreases sources.len() - file_num,
{
    if file_num < sources.len() {
        let source = sources[file_num]@;
        let steps = run_steps(args, sources, file_num, header_written);
        let front = file_steps(args, file_num, header_written, source);
        let after = header_written_after(args, header_written, source);
        let back = if source is ReadFailed {
            Seq::<ActionView>::empty()
        } else {
            run_steps(args, sources, file_num + 1, after)
        };
        if !(source is ReadFailed) {
            lemma_blank_line_before_later_headers(args, sources, file_num + 1, after);
        }
        assert(steps =~= front + back);
        reveal_with_fuel(header_among, 4);
        assert(header_among(front, front.len() as int) == (wants_header(args) && !(source
            is OpenFailed)));
        assert forall|i: int| 0 <= i < steps.len() && steps[i] is Header implies is_header_of_run(
            #[trigger] steps[i],
            args,
            !(header_written || header_among(steps, i)),
        ) by {
            if i < front.len() {
                lemma_header_among_prefix(front, back, i);
                assert(i == 0);
                assert(steps[i] == ActionView::Header(
                    header_text(args.files@[file_num]@, !header_written),
                ));
            } else {
                lemma_header_among_concat(front, back, i - front.len());
                assert(steps[i] == back[i - front.len()]);
            }
        }
    }
}

/// In a whole run, the first header that is written has no blank line before
/// it, and every later header has one.
pub proof fn lemma_first_header_has_no_blank_line(args: Args, sources: Seq<Source>, i: int)
    requires
        sources.len() == args.files@.len(),
        0 <= i < run_steps(args, sources, 0, false).len(),
        run_steps(args, sources, 0, false)[i] is Header,
    ensures
        is_header_of_run(
            run_steps(args, sources, 0, false)[i],
            args,
            !header_among(run_steps(args, sources, 0, false), i),
        ),
{
    lemma_blank_line_before_later_headers(args, sources, 0, false);
}

} // verus!
