use vstd::prelude::*;
use crate::pattern::Pattern;

verus! {

/// The options of a run: how lines are selected and how they are rendered.
pub struct Config {
    /// Write only a count of selected lines for each source.
    pub count_only: bool,
    /// Match without regard to case.
    pub insensitive: bool,
    /// Write only the names of sources that hold a selected line.
    pub filename_only: bool,
    /// Select the lines that do not match.
    pub invert_match: bool,
    /// Precede each written line by its line number within its source.
    pub line_number: bool,
    /// Write nothing; only the result reports whether a line was selected.
    pub quiet: bool,
    /// The regular expression to search for.
    pub pattern: Pattern,
    /// The files named on the command line.
    pub files: Vec<String>,
}

/// The display name given to standard input.
pub const STDIN_NAME: &'static str = "(standard input)";

/// A source of text, already split into lines.
///
/// `read_error` holds the message of a read failure that came right after
/// `lines`: a scan that reaches the end of `lines` then fails with it.
pub struct InputSource {
    pub name: String,
    pub lines: Vec<String>,
    pub read_error: Option<String>,
}

impl InputSource {
    /// A source named `name` whose lines were all read.
    pub fn from_lines(name: &str, lines: Vec<String>) -> (r: InputSource)
        ensures
            r.name@ == name@,
            r.lines == lines,
            r.read_error.is_none(),
    {
        InputSource { name: String::from_str(name), lines, read_error: None }
    }

    /// Standard input, whose lines were all read.
    pub fn stdin(lines: Vec<String>) -> (r: InputSource)
        ensures
            r.name@ == STDIN_NAME@,
            r.lines == lines,
            r.read_error.is_none(),
    {
        InputSource::from_lines(STDIN_NAME, lines)
    }
}

/// The views of a sequence of strings.
pub open spec fn texts(v: Seq<String>) -> Seq<Seq<char>> {
    v.map_values(|s: String| s@)
}

/// Appending a string appends its view.
pub proof fn lemma_texts_push(v: Seq<String>, s: String)
    ensures
        texts(v.push(s)) == texts(v).push(s@),
{
    assert(texts(v.push(s)) =~= texts(v).push(s@));
}

/// The lines written by a run, in order.
pub struct OutputTarget {
    pub messages: Vec<String>,
}

impl OutputTarget {
    /// An empty target.
    pub fn new() -> (r: OutputTarget)
        ensures
            r.messages@.len() == 0,
    {
        OutputTarget { messages: Vec::new() }
    }

    /// Appends one line.
    pub fn write(&mut self, message: String)
        ensures
            texts(final(self).messages@) == texts(old(self).messages@).push(message@),
    {
        proof {
            lemma_texts_push(self.messages@, message);
        }
        self.messages.push(message);
    }
}

} // verus!
