//! The diagnostic type shared by the lexer, the parser and the semantic
//! builder: a structured kind, a rendered message, and the source position
//! the message points at.

use vstd::prelude::*;

use crate::content::{FileContent, PositionDetails};
use crate::keywords::Keyword;

verus! {

/// What went wrong, as structured data. The contracts of the functions that
/// produce errors are stated over these kinds; the message text is rendered
/// from them for display.
#[derive(Copy, Clone, PartialEq, Eq, Structural, Debug)]
pub enum ErrorKind {
    /// A character no token can start with.
    UnexpectedCharacter,
    /// A tab character in a line's leading whitespace.
    TabIndentation,
    /// Leading spaces that are not a multiple of the indentation unit.
    MisalignedIndentation,
    /// A carriage return not followed by a line feed.
    InvalidCarriageReturn,
    /// Quoted text with no closing quote before the end of the line.
    UnterminatedQuotedString,
    /// A backslash escape that names no escape, has no hex digits, or
    /// denotes no Unicode scalar value.
    InvalidEscapeSequence,
    /// The parser met a token kind it did not expect.
    UnexpectedToken,
    /// The first property of a file does not declare the expected file kind.
    InvalidHeader,
    /// A property type keyword the semantic builder does not recognize.
    UnexpectedProperty,
    /// A second property of a type that is allowed at most once in a scope.
    DuplicatePropertyType,
    /// A second property with the same normalized name in a scope.
    DuplicatePropertyName,
    /// A property that needs a non-empty name has none.
    MissingName,
    /// A property that needs a value has none.
    MissingValue,
    /// A required child property is absent; the payload names which.
    MissingChildProperty(Keyword),
    /// A value on a property that cannot carry one.
    UnexpectedValue,
    /// Child properties on a property that cannot carry them.
    UnexpectedBlock,
    /// A name on a property that cannot carry one.
    UnexpectedName,
    /// An override value other than `merge`, `replace` or `none`.
    InvalidOverrideValue,
}

/// The decimal spelling of a number.
pub open spec fn dec_seq(n: nat) -> Seq<char>
    decreases n,
{
    if n < 10 {
        seq![(('0' as u32) + n) as char]
    } else {
        dec_seq(n / 10).push((('0' as u32) + n % 10) as char)
    }
}

/// The digit character for a value below ten.
fn digit_char(d: usize) -> (r: char)
    requires
        d < 10,
    ensures
        r == (('0' as u32) + d as u32) as char,
{
    match d {
        0 => '0',
        1 => '1',
        2 => '2',
        3 => '3',
        4 => '4',
        5 => '5',
        6 => '6',
        7 => '7',
        8 => '8',
        _ => '9',
    }
}

/// Appends the decimal spelling of `n` to `out`.
fn push_dec(n: usize, out: &mut Vec<char>)
    ensures
        final(out)@ == old(out)@ + dec_seq(n as nat),
    decreases n,
{
    if n < 10 {
        out.push(digit_char(n));
        assert(final(out)@ =~= old(out)@ + dec_seq(n as nat));
    } else {
        push_dec(n / 10, out);
        out.push(digit_char(n % 10));
        assert(final(out)@ =~= old(out)@ + dec_seq(n as nat)) by {
            assert((old(out)@ + dec_seq(n as nat / 10)).push(
                (('0' as u32) + n as nat % 10) as char,
            ) =~= old(out)@ + dec_seq(n as nat));
        }
    }
}

/// The decimal spelling of `n`, as a string.
pub fn usize_to_string(n: usize) -> (r: String)
    ensures
        r@ == dec_seq(n as nat),
{
    let mut digits: Vec<char> = Vec::new();
    push_dec(n, &mut digits);
    assert(digits@ =~= dec_seq(n as nat));
    crate::text::chars_to_string(&digits)
}

/// The `    at "<filename>" <line>:<column>` line of a rendered diagnostic,
/// with line and column shown one-based.
pub open spec fn position_line_seq(filename: Seq<char>, line: nat, column: nat) -> Seq<char> {
    "    at \""@ + filename + "\" "@ + dec_seq(line + 1) + ":"@ + dec_seq(column + 1)
}

/// The full rendered text of a diagnostic.
pub open spec fn display_seq(
    message: Seq<char>,
    filename: Seq<char>,
    line: nat,
    column: nat,
) -> Seq<char> {
    "Error: "@ + message + "\n"@ + position_line_seq(filename, line, column) + "\n"@
}

/// A diagnostic: what went wrong and where. All stages fail fast with the
/// first one produced.
#[derive(Clone, Debug)]
pub struct ParsingError {
    pub kind: ErrorKind,
    pub message: String,
    pub filename: String,
    pub line_number: usize,
    pub column: usize,
    pub byte_offset: usize,
    pub display_text: String,
}

impl ParsingError {
    /// The position facts this error reports, tied to the buffer it was
    /// created from: `byte_offset` is the buffer offset the error points
    /// at, and line/column are that offset's details at creation time.
    pub open spec fn positioned_in(&self, content: &FileContent) -> bool {
        &&& self.filename@ == content.filename_seq()
        &&& self.byte_offset <= content.text_seq().len()
    }

    /// Renders the `    at ...` position line for a set of position
    /// details, one-based.
    pub fn fmt_position_line(filename: &str, details: &PositionDetails) -> (r: String)
        requires
            details.line_number < usize::MAX,
            details.column < usize::MAX,
        ensures
            r@ == position_line_seq(
                filename@,
                details.line_number as nat,
                details.column as nat,
            ),
    {
        let mut r = "    at \"".to_owned();
        r.append(filename);
        r.append("\" ");
        let line = usize_to_string(details.line_number + 1);
        r.append(line.as_str());
        r.append(":");
        let column = usize_to_string(details.column + 1);
        r.append(column.as_str());
        r
    }

    /// Builds a diagnostic pointing at `position` in `content`, resolving
    /// the position to line and column details as recorded so far.
    pub fn new(content: &FileContent, position: usize, kind: ErrorKind, message: String) -> (r:
        ParsingError)
        requires
            content.wf(),
            position <= content.text_seq().len(),
        ensures
            r.kind == kind,
            r.message@ == message@,
            r.byte_offset == position,
            r.positioned_in(content),
            r.display_text@ == display_seq(
                message@,
                content.filename_seq(),
                r.line_number as nat,
                r.column as nat,
            ),
            content.lines_seq().len() == 0 ==> r.line_number == 0 && r.column == 0,
            content.lines_seq().len() > 0 ==> {
                &&& (r.line_number as int) < content.lines_seq().len()
                &&& content.lines_seq()[r.line_number as int] <= position
                &&& (r.line_number + 1 == content.lines_seq().len() || position
                    < content.lines_seq()[r.line_number + 1])
                &&& r.column == position - content.lines_seq()[r.line_number as int]
            },
    {
        proof {
            content.lemma_wf();
        }
        let details = content.position_details(position);
        proof {
            if content.lines_seq().len() > 0 {
                assert(content.lines_seq()[details.line_number as int] >= details.line_number);
            }
        }
        let filename = content.filename().clone();
        let position_line = ParsingError::fmt_position_line(filename.as_str(), &details);
        let mut display_text = "Error: ".to_owned();
        display_text.append(message.as_str());
        display_text.append("\n");
        display_text.append(position_line.as_str());
        display_text.append("\n");
        ParsingError {
            kind,
            message,
            filename,
            line_number: details.line_number,
            column: details.column,
            byte_offset: position,
            display_text,
        }
    }

    /// The rendered text a user sees.
    pub fn display_string(&self) -> (r: String)
        ensures
            r@ == self.display_text@,
    {
        self.display_text.clone()
    }
}

} // verus!
