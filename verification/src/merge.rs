//! The merge engine: two cursors walk the two inputs in step, and every
//! step yields one classified row.
//!
//! `merged_rows` says what the rows of a whole merge are. `MergeState`
//! holds the decisions of the merge and leaves the fetching of lines to its
//! caller, so that the inputs can be read line by line from anywhere.
//! `FilePair` and `FilePairLinesIterator` run it over two inputs whose lines
//! are held in memory.

use vstd::prelude::*;
use crate::config::{Config, ConfigView};
use crate::order::{sort_key, str_lt, text_lt, to_lowercase};
use crate::row::{ResultRow, ResultRowView};

verus! {

/// The separator of the rows that the engine yields: one tab.
pub open spec fn tab() -> Seq<char> {
    seq!['\t']
}

/// The row that the engine yields for `text` in the column tagged `column`.
pub open spec fn row_of(text: Seq<char>, column: u8) -> ResultRowView {
    ResultRowView { text: text, column: column, separator: tab() }
}

/// The texts of a sequence of lines.
pub open spec fn texts(lines: Seq<String>) -> Seq<Seq<char>> {
    Seq::new(lines.len(), |i: int| lines[i]@)
}

/// The text of a buffered line, if there is one.
pub open spec fn text_of(line: Option<String>) -> Option<Seq<char>> {
    match line {
        Some(text) => Some(text@),
        None => None,
    }
}

/// What one step decides from the two buffered lines: whether the first
/// cursor advances, whether the second does, and the tag of the row's
/// column. A side without a line never advances; with both sides at their
/// end nothing advances and the tag is 0.
pub open spec fn advance_decision(
    line1: Option<Seq<char>>,
    line2: Option<Seq<char>>,
    ignore_case: bool,
) -> (bool, bool, u8) {
    match (line1, line2) {
        (Some(a), Some(b)) => {
            if text_lt(sort_key(a, ignore_case), sort_key(b, ignore_case)) {
                (true, false, 0u8)
            } else if text_lt(sort_key(b, ignore_case), sort_key(a, ignore_case)) {
                (false, true, 1u8)
            } else {
                (true, true, 2u8)
            }
        },
        (Some(_), None) => (true, false, 0u8),
        (None, Some(_)) => (false, true, 1u8),
        (None, None) => (false, false, 0u8),
    }
}

/// The rows of the whole merge of `a` and `b`, in the order in which they
/// are yielded. The smaller head leaves its input as a row of column 0
/// (from `a`) or 1 (from `b`); two heads of which neither is smaller leave
/// together as one row of column 2 that carries the text from `a`.
pub open spec fn merged_rows(a: Seq<Seq<char>>, b: Seq<Seq<char>>, ignore_case: bool) -> Seq<
    ResultRowView,
>
    decreases a.len() + b.len(),
{
    if a.len() == 0 && b.len() == 0 {
        Seq::empty()
    } else if b.len() == 0 || (a.len() > 0 && text_lt(
        sort_key(a[0], ignore_case),
        sort_key(b[0], ignore_case),
    )) {
        seq![row_of(a[0], 0)] + merged_rows(a.drop_first(), b, ignore_case)
    } else if a.len() == 0 || text_lt(sort_key(b[0], ignore_case), sort_key(a[0], ignore_case)) {
        seq![row_of(b[0], 1)] + merged_rows(a, b.drop_first(), ignore_case)
    } else {
        seq![row_of(a[0], 2)] + merged_rows(a.drop_first(), b.drop_first(), ignore_case)
    }
}

/// The rows that are handed on to the output: those whose column the
/// configuration does not suppress, in their order.
pub open spec fn visible_rows(rows: Seq<ResultRowView>, config: ConfigView) -> Seq<ResultRowView>
    decreases rows.len(),
{
    if rows.len() == 0 {
        Seq::empty()
    } else if config.suppresses(rows[0].column) {
        visible_rows(rows.drop_first(), config)
    } else {
        seq![rows[0]] + visible_rows(rows.drop_first(), config)
    }
}

/// The rows written out, each as one line of output.
pub open spec fn rendered_rows(rows: Seq<ResultRowView>) -> Seq<Seq<char>> {
    Seq::new(rows.len(), |i: int| rows[i].rendered())
}

/// The whole output of comparing `a` with `b` under `config`: the rows of
/// the merge whose column is not suppressed, each written out, in order.
pub open spec fn output_lines(a: Seq<Seq<char>>, b: Seq<Seq<char>>, config: ConfigView) -> Seq<
    Seq<char>,
> {
    rendered_rows(visible_rows(merged_rows(a, b, config.ignore_case), config))
}

/// What became of fetching the next line of one input.
#[derive(Debug)]
pub enum Fetched {
    /// The next line, without its line end.
    Line(String),
    /// The input is at its end.
    End,
    /// The input could not be read.
    Failed,
}

/// A line of one of the inputs could not be read; `side` is 1 for the
/// first input and 2 for the second.
#[derive(Debug, Clone, Copy, PartialEq, Eq, Structural)]
pub struct LineReadError {
    pub side: u8,
}

/// The text that came with a fetch.
pub open spec fn fetched_text(fetched: Fetched) -> Option<Seq<char>> {
    match fetched {
        Fetched::Line(text) => Some(text@),
        _ => None,
    }
}

/// The buffers of a merge as plain values: for each side the buffered
/// line and whether the cursor moves on before the next comparison.
pub struct MergeStateView {
    pub line1: Option<Seq<char>>,
    pub line2: Option<Seq<char>>,
    pub advance1: bool,
    pub advance2: bool,
    pub ignore_case: bool,
}

impl MergeStateView {
    /// The state before the first step: nothing buffered, both cursors
    /// about to move.
    pub open spec fn initial(ignore_case: bool) -> MergeStateView {
        MergeStateView {
            line1: None,
            line2: None,
            advance1: true,
            advance2: true,
            ignore_case: ignore_case,
        }
    }

    /// The state that yields no further row, whatever is fetched.
    pub open spec fn halted(self) -> MergeStateView {
        MergeStateView {
            line1: None,
            line2: None,
            advance1: false,
            advance2: false,
            ignore_case: self.ignore_case,
        }
    }

    /// Whether a step with these fetches runs into a line that could not
    /// be read. Only a side whose cursor moves is read.
    pub open spec fn fails_on(self, fetched1: Fetched, fetched2: Fetched) -> bool {
        (self.advance1 && fetched1 is Failed) || (self.advance2 && fetched2 is Failed)
    }

    /// The error of a step that fails: it names the first side where that
    /// side could not be read, else the second.
    pub open spec fn failure(self, fetched1: Fetched) -> LineReadError {
        if self.advance1 && fetched1 is Failed {
            LineReadError { side: 1 }
        } else {
            LineReadError { side: 2 }
        }
    }

    /// The first side's line at the comparison of the step.
    pub open spec fn compared1(self, fetched1: Fetched) -> Option<Seq<char>> {
        if self.advance1 {
            fetched_text(fetched1)
        } else {
            self.line1
        }
    }

    /// The second side's line at the comparison of the step.
    pub open spec fn compared2(self, fetched2: Fetched) -> Option<Seq<char>> {
        if self.advance2 {
            fetched_text(fetched2)
        } else {
            self.line2
        }
    }

    /// The state after a step in which every line asked for could be read.
    pub open spec fn stepped(self, fetched1: Fetched, fetched2: Fetched) -> MergeStateView {
        let line1 = self.compared1(fetched1);
        let line2 = self.compared2(fetched2);
        let decision = advance_decision(line1, line2, self.ignore_case);
        MergeStateView {
            line1: line1,
            line2: line2,
            advance1: decision.0,
            advance2: decision.1,
            ignore_case: self.ignore_case,
        }
    }

    /// The first side's lines that wait in the buffer for a row.
    pub open spec fn held1(self) -> Seq<Seq<char>> {
        match self.line1 {
            Some(text) if !self.advance1 => seq![text],
            _ => Seq::empty(),
        }
    }

    /// The second side's lines that wait in the buffer for a row.
    pub open spec fn held2(self) -> Seq<Seq<char>> {
        match self.line2 {
            Some(text) if !self.advance2 => seq![text],
            _ => Seq::empty(),
        }
    }

    /// Whether the state fits inputs of which `unread1` and `unread2` are
    /// still to be fetched: a side that is neither advancing nor holding a
    /// line has reached its end.
    pub open spec fn fits(self, unread1: Seq<Seq<char>>, unread2: Seq<Seq<char>>) -> bool {
        &&& (!self.advance1 && self.line1 is None ==> unread1.len() == 0)
        &&& (!self.advance2 && self.line2 is None ==> unread2.len() == 0)
    }

    /// The rows that are still to come when `unread1` and `unread2` are
    /// still to be fetched: the merge of what is held and unread.
    pub open spec fn rows_to_come(
        self,
        unread1: Seq<Seq<char>>,
        unread2: Seq<Seq<char>>,
    ) -> Seq<ResultRowView> {
        merged_rows(self.held1() + unread1, self.held2() + unread2, self.ignore_case)
    }
}

/// Whether `fetched` is what a side gets that reads its next line from
/// `unread`, where it asks for one: the first of the unread lines, or the
/// end. A side that does not ask gets no look at what was fetched.
pub open spec fn fetched_from(fetched: Fetched, unread: Seq<Seq<char>>, wanted: bool) -> bool {
    wanted ==> !(fetched is Failed) && fetched_text(fetched) == if unread.len() > 0 {
        Some(unread[0])
    } else {
        None
    }
}

/// What is left unread once a side has taken the line it asked for.
pub open spec fn unread_after(unread: Seq<Seq<char>>, wanted: bool) -> Seq<Seq<char>> {
    if wanted && unread.len() > 0 {
        unread.drop_first()
    } else {
        unread
    }
}

/// The row that a step yields from the two lines it compares: none where
/// both are absent, else the line of the side that the decision names, the
/// first side's for a common row.
pub open spec fn step_row(
    line1: Option<Seq<char>>,
    line2: Option<Seq<char>>,
    ignore_case: bool,
) -> Option<ResultRowView> {
    let column = advance_decision(line1, line2, ignore_case).2;
    match (line1, line2) {
        (None, None) => None,
        (_, Some(text)) if column == 1 => Some(row_of(text, 1)),
        (Some(text), _) => Some(row_of(text, column)),
        (None, Some(text)) => Some(row_of(text, 1)),
    }
}

/// The view of the row that a step returned, if it returned one.
pub open spec fn row_view(row: Option<ResultRow>) -> Option<ResultRowView> {
    match row {
        Some(r) => Some(r@),
        None => None,
    }
}

/// The decisions of a merge, apart from where the lines come from: the
/// caller fetches the lines that the state asks for and hands them to
/// `step`, which compares the buffered lines and yields the next row.
pub struct MergeState {
    line1: Option<String>,
    line2: Option<String>,
    advance1: bool,
    advance2: bool,
    ignore_case: bool,
}

impl View for MergeState {
    type V = MergeStateView;

    closed spec fn view(&self) -> MergeStateView {
        MergeStateView {
            line1: text_of(self.line1),
            line2: text_of(self.line2),
            advance1: self.advance1,
            advance2: self.advance2,
            ignore_case: self.ignore_case,
        }
    }
}

impl MergeState {
    /// The state before the first step.
    pub fn new(ignore_case: bool) -> (r: MergeState)
        ensures
            r@ == MergeStateView::initial(ignore_case),
    {
        MergeState { line1: None, line2: None, advance1: true, advance2: true, ignore_case }
    }

    /// Whether the next step needs the next line of the first input.
    pub fn wants_first(&self) -> (r: bool)
        ensures
            r == self@.advance1,
    {
        self.advance1
    }

    /// Whether the next step needs the next line of the second input.
    pub fn wants_second(&self) -> (r: bool)
        ensures
            r == self@.advance2,
    {
        self.advance2
    }

    /// One step of the merge. Each side whose cursor moves takes what was
    /// fetched for it in place of its buffered line; what was fetched for
    /// the other side is ignored. A line that could not be read ends the
    /// merge with the error, the first side's before the second's, and no
    /// later step yields a row. Otherwise the two lines are compared, the
    /// cursors are set for the next step, and the row is returned, or
    /// `None` once both inputs are at their end.
    pub fn step(&mut self, fetched1: Fetched, fetched2: Fetched) -> (r: Result<
        Option<ResultRow>,
        LineReadError,
    >)
        ensures
            old(self)@.fails_on(fetched1, fetched2) ==> {
                &&& final(self)@ == old(self)@.halted()
                &&& r == Err::<Option<ResultRow>, LineReadError>(old(self)@.failure(fetched1))
            },
            !old(self)@.fails_on(fetched1, fetched2) ==> {
                &&& final(self)@ == old(self)@.stepped(fetched1, fetched2)
                &&& r is Ok
                &&& row_view(r.unwrap()) == step_row(
                    old(self)@.compared1(fetched1),
                    old(self)@.compared2(fetched2),
                    old(self)@.ignore_case,
                )
            },
    {
        if self.advance1 {
            match fetched1 {
                Fetched::Line(line) => {
                    self.line1 = Some(line);
                },
                Fetched::End => {
                    self.line1 = None;
                },
                Fetched::Failed => {
                    self.halt();
                    return Err(LineReadError { side: 1 });
                },
            }
        }
        if self.advance2 {
            match fetched2 {
                Fetched::Line(line) => {
                    self.line2 = Some(line);
                },
                Fetched::End => {
                    self.line2 = None;
                },
                Fetched::Failed => {
                    self.halt();
                    return Err(LineReadError { side: 2 });
                },
            }
        }
        let cursors = FilePair::should_advance_cursor(&self.line1, &self.line2, self.ignore_case);
        self.advance1 = cursors.0;
        self.advance2 = cursors.1;
        proof {
            reveal_strlit("\t");
            assert("\t"@ =~= tab());
        }
        let row = if cursors.2 == 1 {
            match &self.line2 {
                Some(line) => Some(ResultRow::new(line.as_str(), 1, "\t")),
                None => None,
            }
        } else {
            match &self.line1 {
                Some(line) => Some(ResultRow::new(line.as_str(), cursors.2, "\t")),
                None => None,
            }
        };
        Ok(row)
    }

    /// Drops both buffered lines and stops both cursors.
    fn halt(&mut self)
        ensures
            final(self)@ == old(self)@.halted(),
    {
        self.line1 = None;
        self.line2 = None;
        self.advance1 = false;
        self.advance2 = false;
    }
}

/// A step that is handed the next lines of the two inputs yields the first
/// of the rows still to come, and leaves the others to come: driven in
/// this way from its initial state, the state machine yields the rows of
/// `merged_rows`, one by one, and `None` after the last.
pub proof fn lemma_step_follows_merge(
    state: MergeStateView,
    fetched1: Fetched,
    fetched2: Fetched,
    unread1: Seq<Seq<char>>,
    unread2: Seq<Seq<char>>,
)
    requires
        state.fits(unread1, unread2),
        fetched_from(fetched1, unread1, state.advance1),
        fetched_from(fetched2, unread2, state.advance2),
    ensures
        !state.fails_on(fetched1, fetched2),
        state.stepped(fetched1, fetched2).fits(
            unread_after(unread1, state.advance1),
            unread_after(unread2, state.advance2),
        ),
        state.rows_to_come(unread1, unread2).len() == 0 ==> step_row(
            state.compared1(fetched1),
            state.compared2(fetched2),
            state.ignore_case,
        ) is None && state.stepped(fetched1, fetched2).rows_to_come(
            unread_after(unread1, state.advance1),
            unread_after(unread2, state.advance2),
        ).len() == 0,
        state.rows_to_come(unread1, unread2).len() > 0 ==> step_row(
            state.compared1(fetched1),
            state.compared2(fetched2),
            state.ignore_case,
        ) == Some(state.rows_to_come(unread1, unread2)[0]) && state.stepped(
            fetched1,
            fetched2,
        ).rows_to_come(
            unread_after(unread1, state.advance1),
            unread_after(unread2, state.advance2),
        ) == state.rows_to_come(unread1, unread2).drop_first(),
{
    let line1 = state.compared1(fetched1);
    let line2 = state.compared2(fetched2);
    let rest1 = unread_after(unread1, state.advance1);
    let rest2 = unread_after(unread2, state.advance2);
    let pending1 = state.held1() + unread1;
    let pending2 = state.held2() + unread2;
    assert(line1 is None ==> pending1.len() == 0);
    assert(line2 is None ==> pending2.len() == 0);
    assert(line1 is Some ==> pending1 =~= seq![line1.unwrap()] + rest1);
    assert(line2 is Some ==> pending2 =~= seq![line2.unwrap()] + rest2);
    let next = state.stepped(fetched1, fetched2);
    let after1 = next.held1() + rest1;
    let after2 = next.held2() + rest2;
    if next.advance1 {
        assert(after1 =~= pending1.drop_first());
    } else {
        assert(after1 =~= pending1);
    }
    if next.advance2 {
        assert(after2 =~= pending2.drop_first());
    } else {
        assert(after2 =~= pending2);
    }
}

/// A line source over the lines of one input: forward only, and at its end
/// for good once the last line was fetched.
pub struct FileLines {
    lines: Vec<String>,
    position: usize,
}

impl FileLines {
    /// The lines that have not been fetched yet.
    pub closed spec fn unread(&self) -> Seq<Seq<char>> {
        texts(self.lines@).skip(self.position as int)
    }

    /// The cursor lies within the lines.
    pub closed spec fn wf(&self) -> bool {
        self.position <= self.lines.len()
    }

    /// A line source over the lines of one input, with nothing fetched yet.
    pub fn from_file(file: Vec<String>) -> (r: FileLines)
        ensures
            r.wf(),
            r.unread() == texts(file@),
    {
        let r = FileLines { lines: file, position: 0 };
        proof {
            assert(r.unread() =~= texts(file@));
        }
        r
    }

    /// Fetches the next line. At the end of the input it returns `None`,
    /// and does so on every later call.
    pub fn next_line(&mut self) -> (r: Option<String>)
        requires
            old(self).wf(),
        ensures
            final(self).wf(),
            old(self).unread().len() == 0 ==> r is None,
            old(self).unread().len() > 0 ==> text_of(r) == Some(old(self).unread()[0]),
            final(self).unread() == unread_after(old(self).unread(), true),
    {
        if self.position < self.lines.len() {
            let line = self.lines[self.position].clone();
            self.position = self.position + 1;
            proof {
                assert(final(self).unread() =~= old(self).unread().drop_first());
            }
            Some(line)
        } else {
            None
        }
    }

    /// Fetches the next line if the merge asks for one.
    fn fetch(&mut self, wanted: bool) -> (r: Fetched)
        requires
            old(self).wf(),
        ensures
            final(self).wf(),
            fetched_from(r, old(self).unread(), wanted),
            final(self).unread() == unread_after(old(self).unread(), wanted),
    {
        if wanted {
            match self.next_line() {
                Some(line) => Fetched::Line(line),
                None => Fetched::End,
            }
        } else {
            Fetched::End
        }
    }
}

/// The two inputs of a comparison, each as its lines in order. Both should
/// be sorted by the order that the comparison will use.
pub struct FilePair {
    file1: Vec<String>,
    file2: Vec<String>,
}

impl FilePair {
    /// The lines of the first input.
    pub closed spec fn first(&self) -> Seq<Seq<char>> {
        texts(self.file1@)
    }

    /// The lines of the second input.
    pub closed spec fn second(&self) -> Seq<Seq<char>> {
        texts(self.file2@)
    }

    /// A pair of the two inputs.
    pub fn new(file1: Vec<String>, file2: Vec<String>) -> (r: FilePair)
        ensures
            r.first() == texts(file1@),
            r.second() == texts(file2@),
    {
        FilePair { file1, file2 }
    }

    /// The engine that merges the two inputs under `config`, before its
    /// first step. Consumes the pair.
    pub fn into_lines(self, config: Config) -> (r: FilePairLinesIterator)
        ensures
            r.wf(),
            r.config() == config@,
            r.remaining() == merged_rows(self.first(), self.second(), config@.ignore_case),
    {
        let state = MergeState::new(config.ignore_case());
        let r = FilePairLinesIterator {
            file1_lines: FileLines::from_file(self.file1),
            file2_lines: FileLines::from_file(self.file2),
            state,
            config,
        };
        proof {
            assert(r.state@.held1() + r.file1_lines.unread() =~= self.first());
            assert(r.state@.held2() + r.file2_lines.unread() =~= self.second());
        }
        r
    }

    /// The whole output of comparing the two inputs under `config`, line
    /// by line. It depends on the lines of the inputs and on the
    /// configuration alone. Consumes the pair.
    pub fn rendered_lines(self, config: Config) -> (out: Vec<String>)
        ensures
            texts(out@) == output_lines(self.first(), self.second(), config@),
    {
        let mut engine = self.into_lines(config);
        let mut out: Vec<String> = Vec::new();
        let ghost shown = visible_rows(engine.remaining(), engine.config());
        loop
            invariant
                engine.wf(),
                engine.config() == config@,
                rendered_rows(shown) == output_lines(self.first(), self.second(), config@),
                texts(out@) + rendered_rows(visible_rows(engine.remaining(), engine.config()))
                    == rendered_rows(shown),
            decreases visible_rows(engine.remaining(), engine.config()).len(),
        {
            let ghost before = visible_rows(engine.remaining(), engine.config());
            let ghost written = texts(out@);
            match engine.next_visible() {
                None => {
                    proof {
                        assert(texts(out@) =~= written + rendered_rows(before));
                    }
                    return out;
                },
                Some(row) => {
                    out.push(row.render());
                    proof {
                        assert(texts(out@) + rendered_rows(before.drop_first()) =~= written
                            + rendered_rows(before));
                    }
                },
            }
        }
    }

    /// Decides one step from the two buffered lines: whether each cursor
    /// advances, and the tag of the column of the row to yield.
    pub fn should_advance_cursor(
        line1: &Option<String>,
        line2: &Option<String>,
        ignore_case: bool,
    ) -> (r: (bool, bool, u8))
        ensures
            r == advance_decision(text_of(*line1), text_of(*line2), ignore_case),
    {
        match (line1, line2) {
            (Some(line1_string), Some(line2_string)) => {
                let (advance1, advance2) = if ignore_case {
                    let key1 = to_lowercase(line1_string.as_str());
                    let key2 = to_lowercase(line2_string.as_str());
                    (str_lt(key1.as_str(), key2.as_str()), str_lt(key2.as_str(), key1.as_str()))
                } else {
                    (
                        str_lt(line1_string.as_str(), line2_string.as_str()),
                        str_lt(line2_string.as_str(), line1_string.as_str()),
                    )
                };
                if advance1 {
                    (true, false, 0)
                } else if advance2 {
                    (false, true, 1)
                } else {
                    (true, true, 2)
                }
            },
            (Some(_), None) => (true, false, 0),
            (None, Some(_)) => (false, true, 1),
            (None, None) => (false, false, 0),
        }
    }
}

/// The running merge of two inputs. Each call of `next` yields the next
/// classified row, until both inputs are at their end.
pub struct FilePairLinesIterator {
    file1_lines: FileLines,
    file2_lines: FileLines,
    state: MergeState,
    config: Config,
}

impl FilePairLinesIterator {
    /// Both line sources are well formed, the state compares as the
    /// configuration says, and it fits what the sources have left.
    pub closed spec fn wf(&self) -> bool {
        &&& self.file1_lines.wf()
        &&& self.file2_lines.wf()
        &&& self.state@.ignore_case == self.config@.ignore_case
        &&& self.state@.fits(self.file1_lines.unread(), self.file2_lines.unread())
    }

    /// The configuration that the merge runs under.
    pub closed spec fn config(&self) -> ConfigView {
        self.config@
    }

    /// The rows that are still to come, suppressed ones included.
    pub closed spec fn remaining(&self) -> Seq<ResultRowView> {
        self.state@.rows_to_come(self.file1_lines.unread(), self.file2_lines.unread())
    }

    /// One step of the merge: the next row with its true column, whether
    /// or not that column is suppressed, or `None` once both inputs are at
    /// their end.
    pub fn next(&mut self) -> (r: Option<ResultRow>)
        requires
            old(self).wf(),
        ensures
            final(self).wf(),
            final(self).config() == old(self).config(),
            old(self).remaining().len() == 0 ==> {
                &&& r is None
                &&& final(self).remaining().len() == 0
            },
            old(self).remaining().len() > 0 ==> {
                &&& r is Some
                &&& r.unwrap()@ == old(self).remaining()[0]
                &&& final(self).remaining() == old(self).remaining().drop_first()
            },
    {
        let fetched1 = self.file1_lines.fetch(self.state.wants_first());
        let fetched2 = self.file2_lines.fetch(self.state.wants_second());
        proof {
            lemma_step_follows_merge(
                self.state@,
                fetched1,
                fetched2,
                old(self).file1_lines.unread(),
                old(self).file2_lines.unread(),
            );
        }
        match self.state.step(fetched1, fetched2) {
            Ok(row) => row,
            // Lines held in memory are always read.
            Err(_) => None,
        }
    }

    /// The next row that the configuration lets through: rows of a
    /// suppressed column are passed over. `None` once no such row is left.
    pub fn next_visible(&mut self) -> (r: Option<ResultRow>)
        requires
            old(self).wf(),
        ensures
            final(self).wf(),
            final(self).config() == old(self).config(),
            visible_rows(old(self).remaining(), old(self).config()).len() == 0 ==> {
                &&& r is None
                &&& final(self).remaining().len() == 0
            },
            visible_rows(old(self).remaining(), old(self).config()).len() > 0 ==> {
                &&& r is Some
                &&& r.unwrap()@ == visible_rows(old(self).remaining(), old(self).config())[0]
                &&& visible_rows(final(self).remaining(), final(self).config())
                    == visible_rows(old(self).remaining(), old(self).config()).drop_first()
            },
    {
        loop
            invariant
                self.wf(),
                self.config() == old(self).config(),
                visible_rows(self.remaining(), self.config()) == visible_rows(
                    old(self).remaining(),
                    old(self).config(),
                ),
            decreases self.remaining().len(),
        {
            let ghost before = self.remaining();
            match self.next() {
                None => {
                    return None;
                },
                Some(row) => {
                    if !self.config.suppresses(row.column()) {
                        proof {
                            let shown = visible_rows(before, self.config());
                            assert(shown.drop_first() =~= visible_rows(
                                before.drop_first(),
                                self.config(),
                            ));
                        }
                        return Some(row);
                    }
                },
            }
        }
    }
}

} // verus!
