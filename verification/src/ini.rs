//! The lines of the text format of a profile.

use crate::text::same_text;
use vstd::prelude::*;
use vstd::string::*;

verus! {

/// One line of a profile's text.
#[derive(Debug, Clone, PartialEq, Eq)]
pub enum Line {
    /// An empty line.
    Empty,
    /// A section header, `[name]`.
    Section { name: String },
    /// An assignment, `key=value`.
    Value { key: String, value: String },
    /// A comment; `text` is the whole line, from its `;` or `#` on.
    Comment { text: String },
    /// A line that is none of these; `report` says what is wrong with it.
    Invalid { report: String },
}

/// What a `Line` holds.
pub enum LineModel {
    Empty,
    Section { name: Seq<char> },
    Value { key: Seq<char>, value: Seq<char> },
    Comment { text: Seq<char> },
    Invalid { report: Seq<char> },
}

impl View for Line {
    type V = LineModel;

    open spec fn view(&self) -> LineModel {
        match self {
            Line::Empty => LineModel::Empty,
            Line::Section { name } => LineModel::Section { name: name@ },
            Line::Value { key, value } => LineModel::Value { key: key@, value: value@ },
            Line::Comment { text } => LineModel::Comment { text: text@ },
            Line::Invalid { report } => LineModel::Invalid { report: report@ },
        }
    }
}

/// What each line of `lines` holds.
pub open spec fn line_models(lines: Seq<Line>) -> Seq<LineModel> {
    lines.map_values(|line: Line| line@)
}

/// The lines of `text` as the parser of `serde_ini` reads them, in order:
/// one entry for each line of the text, one that the parser refuses as
/// `Invalid` with the parser's report.
pub uninterp spec fn ini_lines(text: Seq<char>) -> Seq<LineModel>;

/// Reads `text` line by line with `serde_ini::Parser::from_str` and hands
/// out each item that the parser yields, in order, as a `Line`. A line that
/// the parser refuses comes out as `Invalid`, with the text of the parser's
/// error. What comes out depends on `text` alone; it is what `ini_lines`
/// names.
#[verifier::external_body]
pub(crate) fn parse_lines(text: &str) -> (lines: Vec<Line>)
    ensures
        line_models(lines@) == ini_lines(text@),
{
    let mut lines = Vec::new();
    for item in serde_ini::Parser::from_str(text) {
        lines.push(
            match item {
                Ok(serde_ini::Item::Empty) => Line::Empty,
                Ok(serde_ini::Item::Section { name }) => Line::Section { name },
                Ok(serde_ini::Item::Value { key, value }) => Line::Value { key, value },
                Ok(serde_ini::Item::Comment { text }) => Line::Comment { text },
                Err(error) => Line::Invalid { report: error.to_string() },
            },
        );
    }
    lines
}

/// The text of one line as it is written out, with a linefeed at its end.
/// An `Invalid` line has no text.
pub open spec fn line_text(line: LineModel) -> Seq<char> {
    match line {
        LineModel::Empty => "\n"@,
        LineModel::Section { name } => "["@ + name + "]\n"@,
        LineModel::Value { key, value } => key + "="@ + value + "\n"@,
        LineModel::Comment { text } => ";"@ + text + "\n"@,
        LineModel::Invalid { report } => Seq::empty(),
    }
}

/// The text of `lines`, one after the other.
pub open spec fn lines_text(lines: Seq<LineModel>) -> Seq<char>
    decreases lines.len(),
{
    if lines.len() == 0 {
        Seq::empty()
    } else {
        lines_text(lines.drop_last()) + line_text(lines.last())
    }
}

/// Writes `lines` out, each as one line of text that ends in a linefeed.
pub fn write_lines(lines: &Vec<Line>) -> (text: String)
    ensures
        text@ == lines_text(line_models(lines@)),
{
    let mut text = String::new();
    let mut i: usize = 0;
    while i < lines.len()
        invariant
            i <= lines@.len(),
            text@ == lines_text(line_models(lines@).take(i as int)),
        decreases lines@.len() - i,
    {
        assert(line_models(lines@).take(i + 1).drop_last() == line_models(lines@).take(i as int));
        match &lines[i] {
            Line::Empty => {
                text.append("\n");
            },
            Line::Section { name } => {
                text.append("[");
                text.append(name.as_str());
                text.append("]\n");
            },
            Line::Value { key, value } => {
                text.append(key.as_str());
                text.append("=");
                text.append(value.as_str());
                text.append("\n");
            },
            Line::Comment { text: comment } => {
                text.append(";");
                text.append(comment.as_str());
                text.append("\n");
            },
            Line::Invalid { report } => {},
        }
        i += 1;
    }
    assert(line_models(lines@).take(i as int) == line_models(lines@));
    text
}

/// Whether the two lines hold the same.
pub fn same_line(first: &Line, second: &Line) -> (same: bool)
    ensures
        same == (first@ == second@),
{
    match (first, second) {
        (Line::Empty, Line::Empty) => true,
        (Line::Section { name: a }, Line::Section { name: b }) => same_text(
            a.as_str(),
            b.as_str(),
        ),
        (Line::Value { key: a, value: x }, Line::Value { key: b, value: y }) => same_text(
            a.as_str(),
            b.as_str(),
        ) && same_text(x.as_str(), y.as_str()),
        (Line::Comment { text: a }, Line::Comment { text: b }) => same_text(
            a.as_str(),
            b.as_str(),
        ),
        (Line::Invalid { report: a }, Line::Invalid { report: b }) => same_text(
            a.as_str(),
            b.as_str(),
        ),
        _ => false,
    }
}

/// Whether the two runs of lines hold the same, line for line.
pub fn same_lines(first: &Vec<Line>, second: &Vec<Line>) -> (same: bool)
    ensures
        same == (line_models(first@) == line_models(second@)),
{
    if first.len() != second.len() {
        assert(line_models(first@).len() != line_models(second@).len());
        return false;
    }
    let mut i: usize = 0;
    while i < first.len()
        invariant
            i <= first@.len(),
            first@.len() == second@.len(),
            forall|j: int| 0 <= j < i ==> first@[j]@ == second@[j]@,
        decreases first@.len() - i,
    {
        if !same_line(&first[i], &second[i]) {
            assert(line_models(first@)[i as int] != line_models(second@)[i as int]);
            return false;
        }
        i += 1;
    }
    assert(line_models(first@) =~= line_models(second@));
    true
}

} // verus!
