//! The source buffer: owns a file's decoded text and filename, records line
//! starts as the lexer discovers them, and answers position-to-line/column
//! queries by binary search.

use vstd::prelude::*;

use crate::text::str_to_chars;

verus! {

/// A loaded source file. Positions into the buffer are character offsets;
/// columns therefore coincide with character counts.
#[derive(Debug)]
pub struct FileContent {
    filename_: String,
    text_: Vec<char>,
    line_starts_: Vec<usize>,
}

/// The line/column details of a buffer position. `line_number` and `column`
/// are zero-based; rendering adds one to each.
#[derive(Clone, Copy, PartialEq, Eq, Structural, Debug)]
pub struct PositionDetails {
    pub line_number: usize,
    pub line_start: usize,
    pub column: usize,
}

impl FileContent {
    /// The buffer's text, as a sequence of characters.
    pub closed spec fn text_seq(&self) -> Seq<char> {
        self.text_@
    }

    /// The filename, as a sequence of characters.
    pub closed spec fn filename_seq(&self) -> Seq<char> {
        self.filename_@
    }

    /// The line-start offsets recorded so far.
    pub closed spec fn lines_seq(&self) -> Seq<usize> {
        self.line_starts_@
    }

    /// Well-formedness: the text leaves headroom for indentation arithmetic,
    /// and the recorded line starts are strictly increasing offsets into the
    /// text, beginning with offset zero. Constructed buffers satisfy it and
    /// every method preserves it.
    pub closed spec fn wf(&self) -> bool {
        &&& self.text_@.len() < usize::MAX - 8
        &&& forall|i: int|
            0 <= i < self.line_starts_@.len() ==> #[trigger] self.line_starts_@[i]
                <= self.text_@.len()
        &&& forall|i: int, j: int|
            0 <= i < j < self.line_starts_@.len() ==> #[trigger] self.line_starts_@[i]
                < #[trigger] self.line_starts_@[j]
        &&& forall|i: int| 0 <= i < self.line_starts_@.len() ==> #[trigger] self.line_starts_@[i] >= i
        &&& self.line_starts_@.len() > 0 ==> self.line_starts_@[0] == 0
    }

    /// What the buffer's invariant guarantees of any live value: headroom
    /// for arithmetic and a strictly increasing line-start table that begins
    /// at offset zero.
    pub proof fn lemma_wf(&self)
        requires
            self.wf(),
        ensures
            self.text_seq().len() < usize::MAX - 8,
            forall|i: int|
                0 <= i < self.lines_seq().len() ==> #[trigger] self.lines_seq()[i]
                    <= self.text_seq().len(),
            forall|i: int, j: int|
                0 <= i < j < self.lines_seq().len() ==> #[trigger] self.lines_seq()[i]
                    < #[trigger] self.lines_seq()[j],
            forall|i: int|
                0 <= i < self.lines_seq().len() ==> #[trigger] self.lines_seq()[i] >= i,
            self.lines_seq().len() > 0 ==> self.lines_seq()[0] == 0,
    {
    }

    /// Wraps already-read file text into a buffer. No line starts are
    /// recorded yet; the lexer records them as it scans.
    pub fn new(filename: String, text: &str) -> (r: FileContent)
        requires
            text@.len() < usize::MAX - 8,
        ensures
            r.wf(),
            r.filename_seq() == filename@,
            r.text_seq() == text@,
            r.lines_seq() == Seq::<usize>::empty(),
    {
        let r = FileContent { filename_: filename, text_: str_to_chars(text), line_starts_: Vec::new() };
        assert(r.lines_seq() =~= Seq::<usize>::empty());
        r
    }

    /// The filename this buffer was loaded from.
    pub fn filename(&self) -> (r: &String)
        ensures
            r@ == self.filename_seq(),
    {
        &self.filename_
    }

    /// The buffer's characters.
    pub fn text(&self) -> (r: &Vec<char>)
        ensures
            r@ == self.text_seq(),
    {
        &self.text_
    }

    /// The number of characters in the buffer.
    pub fn len(&self) -> (r: usize)
        ensures
            r == self.text_seq().len(),
    {
        self.text_.len()
    }

    /// The character at offset `i`.
    pub fn char_at(&self, i: usize) -> (r: char)
        requires
            i < self.text_seq().len(),
        ensures
            r == self.text_seq()[i as int],
    {
        self.text_[i]
    }

    /// A copy of the characters in `[from, to)`.
    pub fn slice_chars(&self, from: usize, to: usize) -> (r: Vec<char>)
        requires
            from <= to <= self.text_seq().len(),
        ensures
            r@ == self.text_seq().subrange(from as int, to as int),
    {
        let mut r: Vec<char> = Vec::new();
        let mut i: usize = from;
        while i < to
            invariant
                from <= i <= to <= self.text_seq().len(),
                r@ == self.text_seq().subrange(from as int, i as int),
            decreases to - i,
        {
            r.push(self.text_[i]);
            proof {
                assert(self.text_seq().subrange(from as int, i + 1) =~= self.text_seq().subrange(
                    from as int,
                    i as int,
                ).push(self.text_seq()[i as int]));
            }
            i = i + 1;
        }
        r
    }

    /// A resumable cursor over the buffer's characters, starting at `start`.
    pub fn iter(&self, start: usize) -> (r: ContentIterator<'_>)
        requires
            self.wf(),
            start <= self.text_seq().len(),
        ensures
            r.wf(),
            r.content_of() == self,
            r.position_spec() == start,
            r.consumed() == 0,
            !r.ended(),
    {
        ContentIterator { content_: self, start_: start, consumed_: 0, is_end_: false }
    }

    /// Forgets all recorded line starts.
    pub fn reset_line_markers(&mut self)
        requires
            old(self).wf(),
        ensures
            final(self).wf(),
            final(self).filename_seq() == old(self).filename_seq(),
            final(self).text_seq() == old(self).text_seq(),
            final(self).lines_seq() == Seq::<usize>::empty(),
    {
        self.line_starts_.clear();
        assert(self.lines_seq() =~= Seq::<usize>::empty());
    }

    /// Records `position` as the start of a new line. Must be called once
    /// per line boundary, in increasing offset order, starting at zero.
    pub fn mark_line(&mut self, position: usize)
        requires
            old(self).wf(),
            position <= old(self).text_seq().len(),
            old(self).lines_seq().len() == 0 ==> position == 0,
            old(self).lines_seq().len() > 0 ==> position > old(self).lines_seq().last(),
        ensures
            final(self).wf(),
            final(self).filename_seq() == old(self).filename_seq(),
            final(self).text_seq() == old(self).text_seq(),
            final(self).lines_seq() == old(self).lines_seq().push(position),
    {
        self.line_starts_.push(position);
    }

    /// Answers which recorded line holds `position`: the last line whose
    /// start is at or before it. With no lines recorded yet, everything is
    /// reported as line zero, column zero.
    pub fn position_details(&self, position: usize) -> (r: PositionDetails)
        requires
            self.wf(),
            position <= self.text_seq().len(),
        ensures
            self.lines_seq().len() == 0 ==> r == (PositionDetails {
                line_number: 0,
                line_start: 0,
                column: 0,
            }),
            self.lines_seq().len() > 0 ==> {
                &&& r.line_number < self.lines_seq().len()
                &&& self.lines_seq()[r.line_number as int] <= position
                &&& (r.line_number + 1 == self.lines_seq().len() || position < self.lines_seq()[
                    r.line_number + 1
                ])
                &&& r.line_start == self.lines_seq()[r.line_number as int]
                &&& r.column == position - r.line_start
            },
    {
        let count = self.line_starts_.len();
        if count == 0 {
            return PositionDetails { line_number: 0, line_start: 0, column: 0 };
        }
        let mut left: usize = 0;
        let mut right: usize = count;
        while right - left > 1
            invariant
                left < right <= count,
                count == self.lines_seq().len(),
                self.lines_seq()[left as int] <= position,
                right < count ==> position < self.lines_seq()[right as int],
                self.wf(),
            decreases right - left,
        {
            let mid = left + (right - left) / 2;
            if self.line_starts_[mid] <= position {
                left = mid;
            } else {
                right = mid;
            }
        }
        let line_start = self.line_starts_[left];
        PositionDetails { line_number: left, line_start, column: position - line_start }
    }
}

/// A position-aware cursor over a buffer's characters. `next` yields each
/// character in turn; `current_char` and `position` report the character
/// most recently yielded and its offset.
pub struct ContentIterator<'a> {
    content_: &'a FileContent,
    start_: usize,
    consumed_: usize,
    is_end_: bool,
}

impl<'a> ContentIterator<'a> {
    /// The buffer this cursor walks.
    pub closed spec fn content_of(&self) -> &'a FileContent {
        self.content_
    }

    /// How many characters `next` has yielded.
    pub closed spec fn consumed(&self) -> nat {
        self.consumed_ as nat
    }

    /// The offset the cursor started at.
    pub closed spec fn start_of(&self) -> nat {
        self.start_ as nat
    }

    /// The offset of the next character `next` would yield.
    pub open spec fn next_index(&self) -> int {
        self.start_of() + self.consumed() as int
    }

    /// Whether `next` has run off the end.
    pub closed spec fn ended(&self) -> bool {
        self.is_end_
    }

    /// Well-formedness: the cursor stays within the buffer, and the end flag
    /// is set only at the end.
    pub open spec fn wf(&self) -> bool {
        &&& self.content_of().wf()
        &&& self.next_index() <= self.content_of().text_seq().len()
        &&& self.ended() ==> self.next_index() == self.content_of().text_seq().len()
    }

    /// The offset of the current character: the start offset before any
    /// character was yielded, the end of the buffer once exhausted.
    pub open spec fn position_spec(&self) -> int {
        if self.ended() {
            self.content_of().text_seq().len() as int
        } else if self.consumed() == 0 {
            self.start_of() as int
        } else {
            self.start_of() + self.consumed() - 1
        }
    }

    /// The current character, or the null sentinel before the first `next`
    /// and at the end of input.
    pub open spec fn current_char_spec(&self) -> char {
        if self.consumed() == 0 || self.ended() {
            '\u{0}'
        } else {
            self.content_of().text_seq()[self.start_of() + self.consumed() - 1]
        }
    }

    /// Yields the next character, or marks the end of input.
    pub fn next(&mut self) -> (r: Option<char>)
        requires
            old(self).wf(),
        ensures
            final(self).wf(),
            final(self).content_of() == old(self).content_of(),
            old(self).next_index() < old(self).content_of().text_seq().len() ==> {
                &&& r == Some(old(self).content_of().text_seq()[old(self).next_index()])
                &&& final(self).consumed() == old(self).consumed() + 1
                &&& !final(self).ended()
            },
            old(self).next_index() == old(self).content_of().text_seq().len() ==> {
                &&& r == None::<char>
                &&& final(self).consumed() == old(self).consumed()
                &&& final(self).ended()
            },
            final(self).start_of() == old(self).start_of(),
    {
        if self.start_ + self.consumed_ < self.content_.text_.len() {
            self.consumed_ = self.consumed_ + 1;
            Some(self.content_.text_[self.start_ + self.consumed_ - 1])
        } else {
            self.is_end_ = true;
            None
        }
    }

    /// Whether the cursor has run off the end of the buffer.
    pub fn is_end_of_input(&self) -> (r: bool)
        ensures
            r == self.ended(),
    {
        self.is_end_
    }

    /// The offset of the current character.
    pub fn position(&self) -> (r: usize)
        requires
            self.wf(),
        ensures
            r == self.position_spec(),
    {
        if self.is_end_ {
            self.content_.text_.len()
        } else if self.consumed_ == 0 {
            self.start_
        } else {
            self.start_ + self.consumed_ - 1
        }
    }

    /// The current character, or the null sentinel.
    pub fn current_char(&self) -> (r: char)
        requires
            self.wf(),
        ensures
            r == self.current_char_spec(),
    {
        if self.consumed_ == 0 || self.is_end_ {
            '\u{0}'
        } else {
            self.content_.text_[self.start_ + self.consumed_ - 1]
        }
    }
}

} // verus!
