//! One classified line of output.

use vstd::prelude::*;
use vstd::string::StringExecFns;

verus! {

/// A row as plain values.
pub struct ResultRowView {
    pub text: Seq<char>,
    pub column: u8,
    pub separator: Seq<char>,
}

/// `unit` written `count` times in a row.
pub open spec fn repeated(unit: Seq<char>, count: nat) -> Seq<char>
    decreases count,
{
    if count == 0 {
        Seq::empty()
    } else {
        repeated(unit, (count - 1) as nat) + unit
    }
}

impl ResultRowView {
    /// The row as one line of output: the separator once for each column
    /// that lies before the row's own, then the text.
    pub open spec fn rendered(self) -> Seq<char> {
        repeated(self.separator, self.column as nat) + self.text
    }
}

/// A single line of output: the text of a line, the tag of the column it
/// belongs to (0: first input only, 1: second input only, 2: both inputs)
/// and the separator that indents the columns.
pub struct ResultRow {
    text: String,
    column: u8,
    separator: String,
}

impl View for ResultRow {
    type V = ResultRowView;

    closed spec fn view(&self) -> ResultRowView {
        ResultRowView { text: self.text@, column: self.column, separator: self.separator@ }
    }
}

impl ResultRow {
    /// A row with the given text, column tag and separator.
    pub fn new(text: &str, column: u8, separator: &str) -> (r: ResultRow)
        ensures
            r@ == (ResultRowView { text: text@, column: column, separator: separator@ }),
    {
        ResultRow { text: text.to_owned(), column, separator: separator.to_owned() }
    }

    /// The text of the line.
    pub fn text(&self) -> (r: &str)
        ensures
            r@ == self@.text,
    {
        self.text.as_str()
    }

    /// The tag of the row's column.
    pub fn column(&self) -> (r: u8)
        ensures
            r == self@.column,
    {
        self.column
    }

    /// The separator that indents the columns.
    pub fn separator(&self) -> (r: &str)
        ensures
            r@ == self@.separator,
    {
        self.separator.as_str()
    }

    /// The row as one line of output, without a line end: the separator
    /// once for each column before the row's own, then the text. The
    /// indentation goes by the row's own column, whichever columns are
    /// suppressed.
    pub fn render(&self) -> (r: String)
        ensures
            r@ == self@.rendered(),
    {
        let mut line = String::new();
        let mut written: u8 = 0;
        while written < self.column
            invariant
                written <= self.column,
                line@ == repeated(self.separator@, written as nat),
            decreases self.column - written,
        {
            line.append(self.separator.as_str());
            written = written + 1;
        }
        line.append(self.text.as_str());
        line
    }
}

} // verus!
