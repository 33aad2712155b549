//! The line buffer: the ordered lines of the text being edited.
//!
//! A buffer is never empty. Rows count lines from 0, columns count characters
//! (Unicode scalar values) from 0, and a column may equal the length of its
//! line: that is the place after the last character. Nothing is clamped: a
//! call with a row, column or length outside the text is refused and leaves
//! the buffer as it was.
//!
//! A buffer is read from a text and written back as one; the laws at the end
//! of this module say when the lines survive that round trip.

use vstd::prelude::*;

verus! {

/// `String::push` appends one character to the end of the string.
pub assume_specification[ String::push ](s: &mut String, ch: char)
    ensures
        final(s)@ == old(s)@.push(ch),
;

/// Why a call was refused. Where more than one bound is broken, the row
/// comes first, then the column, then the length.
#[derive(Debug, Clone, Copy, PartialEq, Eq, Structural)]
pub enum BufferError {
    /// The row is not a line of the buffer.
    RowOutOfRange,
    /// The column lies beyond the end of the line.
    ColOutOfRange,
    /// Column plus length reaches beyond the end of the line.
    SizeOutOfRange,
}

/// The characters of each string, in order.
pub open spec fn lines_of(strings: Seq<String>) -> Seq<Seq<char>> {
    Seq::new(strings.len(), |i: int| strings[i]@)
}

/// Content as a buffer holds it: no lines at all become one empty line.
pub open spec fn normalized(lines: Seq<Seq<char>>) -> Seq<Seq<char>> {
    if lines.len() == 0 {
        seq![Seq::<char>::empty()]
    } else {
        lines
    }
}

/// The bounds that every ranged call holds its arguments to: `None` when
/// `size` characters starting at `col` lie inside line `row`, else the first
/// bound that is broken.
pub open spec fn range_error(lines: Seq<Seq<char>>, row: int, col: int, size: int) -> Option<
    BufferError,
> {
    if row >= lines.len() {
        Some(BufferError::RowOutOfRange)
    } else if col > lines[row].len() {
        Some(BufferError::ColOutOfRange)
    } else if col + size > lines[row].len() {
        Some(BufferError::SizeOutOfRange)
    } else {
        None
    }
}

/// `line` with the `size` characters from `col` on replaced by `text`.
pub open spec fn spliced(line: Seq<char>, col: int, size: int, text: Seq<char>) -> Seq<char> {
    line.subrange(0, col) + text + line.subrange(col + size, line.len() as int)
}

/// What is left of the lines once line `row` is taken out.
pub open spec fn without_line(lines: Seq<Seq<char>>, row: int) -> Seq<Seq<char>> {
    normalized(lines.remove(row))
}

/// Every line followed by a line feed, one after the other.
pub open spec fn joined(lines: Seq<Seq<char>>) -> Seq<char>
    decreases lines.len(),
{
    if lines.len() == 0 {
        Seq::empty()
    } else {
        joined(lines.drop_last()) + lines.last().push('\n')
    }
}

/// A line as it is read: without the carriage return that stood before its
/// line feed, if one did.
pub open spec fn chomped(line: Seq<char>) -> Seq<char> {
    if line.len() > 0 && line.last() == '\r' {
        line.drop_last()
    } else {
        line
    }
}

/// A text read from its start: the lines that a line feed has ended, and
/// what follows the last line feed.
pub open spec fn scanned(text: Seq<char>) -> (Seq<Seq<char>>, Seq<char>)
    decreases text.len(),
{
    if text.len() == 0 {
        (Seq::empty(), Seq::empty())
    } else {
        let (lines, tail) = scanned(text.drop_last());
        if text.last() == '\n' {
            (lines.push(chomped(tail)), Seq::empty())
        } else {
            (lines, tail.push(text.last()))
        }
    }
}

/// The lines of a text. Every line feed ends a line, and takes a carriage
/// return just before it along; what follows the last line feed is one more
/// line, unless nothing follows it.
pub open spec fn lines_in(text: Seq<char>) -> Seq<Seq<char>> {
    let (lines, tail) = scanned(text);
    if tail.len() == 0 {
        lines
    } else {
        lines.push(tail)
    }
}

/// No character of the line is a line feed.
pub open spec fn no_line_feed(line: Seq<char>) -> bool {
    forall|i: int| 0 <= i < line.len() ==> #[trigger] line[i] != '\n'
}

/// A line that comes back as it is when it is written and read again: it
/// holds no line feed and does not end in a carriage return.
pub open spec fn is_plain_line(line: Seq<char>) -> bool {
    &&& no_line_feed(line)
    &&& line.len() == 0 || line.last() != '\r'
}

fn splice_line(line: &str, col: usize, size: usize, text: &str) -> (out: String)
    requires
        col + size <= line@.len(),
    ensures
        out@ == spliced(line@, col as int, size as int, text@),
{
    let n: usize = line.unicode_len();
    let mut out = line.substring_char(0, col).to_owned();
    out.append(text);
    out.append(line.substring_char(col + size, n));
    out
}

/// The lines of `text`, as they stand in a file: every line feed ends a
/// line, and takes a carriage return just before it along.
pub fn split_lines(text: &str) -> (lines: Vec<String>)
    ensures
        lines_of(lines@) == lines_in(text@),
{
    let mut lines: Vec<String> = Vec::new();
    let mut line = String::new();
    let mut held = false;
    assert(lines_of(lines@) =~= scanned(text@.take(0)).0);
    for c in it: text.chars()
        invariant
            it.seq() == text@,
            lines_of(lines@) == scanned(text@.take(it.index())).0,
            scanned(text@.take(it.index())).1 == if held {
                line@.push('\r')
            } else {
                line@
            },
            !held ==> line@.len() == 0 || line@.last() != '\r',
    {
        proof {
            let read = text@.take(it.index() + 1);
            assert(read.drop_last() =~= text@.take(it.index()));
            assert(read.last() == c);
        }
        let ghost before = lines@;
        if c == '\n' {
            proof {
                if held {
                    assert(line@.push('\r').drop_last() =~= line@);
                }
            }
            lines.push(line);
            assert(lines_of(lines@) =~= lines_of(before).push(line@));
            line = String::new();
            held = false;
        } else {
            if held {
                line.push('\r');
            }
            if c == '\r' {
                held = true;
            } else {
                held = false;
                line.push(c);
            }
        }
    }
    assert(text@.take(text@.len() as int) =~= text@);
    if held {
        line.push('\r');
    }
    if !line.as_str().is_empty() {
        let ghost before = lines@;
        lines.push(line);
        assert(lines_of(lines@) =~= lines_of(before).push(line@));
    }
    lines
}

/// The lines of the text. There is always at least one.
pub struct Buffer {
    lines: Vec<String>,
}

impl View for Buffer {
    type V = Seq<Seq<char>>;

    closed spec fn view(&self) -> Seq<Seq<char>> {
        lines_of(self.lines@)
    }
}

impl Buffer {
    #[verifier::type_invariant]
    spec fn inv(&self) -> bool {
        self.lines@.len() >= 1
    }

    /// Hands the lines out and leaves one empty line in their place: a buffer
    /// is never empty, not even while its lines are being rearranged.
    fn take_lines(&mut self) -> (lines: Vec<String>)
        ensures
            lines@ == old(self).lines@,
    {
        let mut lines: Vec<String> = Vec::new();
        lines.push(String::new());
        core::mem::swap(&mut self.lines, &mut lines);
        lines
    }

    /// A buffer holding `lines`, or one empty line where there are none.
    pub fn from_lines(lines: Vec<String>) -> (buffer: Self)
        ensures
            buffer@ == normalized(lines_of(lines@)),
            buffer@.len() >= 1,
    {
        let mut lines = lines;
        if lines.len() == 0 {
            lines.push(String::new());
            assert(lines_of(lines@) =~= seq![Seq::<char>::empty()]);
        }
        Self { lines }
    }

    /// A buffer holding the lines of `text`, or one empty line where the
    /// text is empty.
    pub fn from_text(text: &str) -> (buffer: Self)
        ensures
            buffer@ == normalized(lines_in(text@)),
            buffer@.len() >= 1,
    {
        Self::from_lines(split_lines(text))
    }

    /// Drops the whole content and holds `lines` instead, or one empty line
    /// where there are none.
    pub fn replace(&mut self, lines: Vec<String>)
        ensures
            final(self)@ == normalized(lines_of(lines@)),
            final(self)@.len() >= 1,
    {
        let mut lines = lines;
        if lines.len() == 0 {
            lines.push(String::new());
            assert(lines_of(lines@) =~= seq![Seq::<char>::empty()]);
        }
        self.lines = lines;
    }

    /// The number of lines, which is at least 1.
    pub fn len(&self) -> (n: usize)
        ensures
            n == self@.len(),
            n >= 1,
    {
        proof {
            use_type_invariant(self);
        }
        self.lines.len()
    }

    /// The number of characters of line `row`.
    pub fn len_of(&self, row: usize) -> (r: Result<usize, BufferError>)
        ensures
            match r {
                Ok(n) => row < self@.len() && n == self@[row as int].len(),
                Err(e) => row >= self@.len() && e == BufferError::RowOutOfRange,
            },
    {
        if row >= self.lines.len() {
            return Err(BufferError::RowOutOfRange);
        }
        Ok(self.lines[row].as_str().unicode_len())
    }

    /// Line `row`.
    pub fn get(&self, row: usize) -> (r: Result<&String, BufferError>)
        ensures
            match r {
                Ok(line) => row < self@.len() && line@ == self@[row as int],
                Err(e) => row >= self@.len() && e == BufferError::RowOutOfRange,
            },
    {
        if row >= self.lines.len() {
            return Err(BufferError::RowOutOfRange);
        }
        Ok(&self.lines[row])
    }

    /// The `size` characters of line `row` that start at `col`.
    pub fn get_string(&self, row: usize, col: usize, size: usize) -> (r: Result<
        String,
        BufferError,
    >)
        ensures
            match r {
                Ok(s) => range_error(self@, row as int, col as int, size as int) is None && s@
                    == self@[row as int].subrange(col as int, col + size),
                Err(e) => range_error(self@, row as int, col as int, size as int) == Some(e),
            },
    {
        if row >= self.lines.len() {
            return Err(BufferError::RowOutOfRange);
        }
        let line = self.lines[row].as_str();
        let n: usize = line.unicode_len();
        if col > n {
            return Err(BufferError::ColOutOfRange);
        }
        if size > n - col {
            return Err(BufferError::SizeOutOfRange);
        }
        Ok(line.substring_char(col, col + size).to_owned())
    }

    /// Puts `string` in as a new line `row`; the lines from `row` on move down
    /// by one. `row` may be the number of lines: the new line is then the last.
    pub fn insert(&mut self, row: usize, string: &String) -> (r: Result<(), BufferError>)
        ensures
            match r {
                Ok(_) => row <= old(self)@.len() && final(self)@ == old(self)@.insert(
                    row as int,
                    string@,
                ),
                Err(e) => row > old(self)@.len() && e == BufferError::RowOutOfRange
                    && final(self)@ == old(self)@,
            },
            final(self)@.len() >= 1,
    {
        proof {
            use_type_invariant(&*self);
        }
        if row > self.lines.len() {
            return Err(BufferError::RowOutOfRange);
        }
        let mut lines = self.take_lines();
        lines.insert(row, string.clone());
        self.lines = lines;
        assert(self@ =~= old(self)@.insert(row as int, string@));
        Ok(())
    }

    /// Puts `ch` into line `row` before the character at `col`.
    pub fn insert_char(&mut self, row: usize, col: usize, ch: char) -> (r: Result<
        (),
        BufferError,
    >)
        ensures
            match r {
                Ok(_) => range_error(old(self)@, row as int, col as int, 0) is None
                    && final(self)@ == old(self)@.update(
                    row as int,
                    old(self)@[row as int].insert(col as int, ch),
                ),
                Err(e) => range_error(old(self)@, row as int, col as int, 0) == Some(e)
                    && final(self)@ == old(self)@,
            },
            final(self)@.len() >= 1,
    {
        proof {
            use_type_invariant(&*self);
        }
        if row >= self.lines.len() {
            return Err(BufferError::RowOutOfRange);
        }
        let line = self.lines[row].as_str();
        let n: usize = line.unicode_len();
        if col > n {
            return Err(BufferError::ColOutOfRange);
        }
        let mut out = line.substring_char(0, col).to_owned();
        out.push(ch);
        out.append(line.substring_char(col, n));
        assert(out@ =~= old(self)@[row as int].insert(col as int, ch));
        self.lines[row] = out;
        assert(self@ =~= old(self)@.update(
            row as int,
            old(self)@[row as int].insert(col as int, ch),
        ));
        Ok(())
    }

    /// Puts the characters of `string` into line `row` before the character
    /// at `col`.
    pub fn insert_string(&mut self, row: usize, col: usize, string: &String) -> (r: Result<
        (),
        BufferError,
    >)
        ensures
            match r {
                Ok(_) => range_error(old(self)@, row as int, col as int, 0) is None
                    && final(self)@ == old(self)@.update(
                    row as int,
                    spliced(old(self)@[row as int], col as int, 0, string@),
                ),
                Err(e) => range_error(old(self)@, row as int, col as int, 0) == Some(e)
                    && final(self)@ == old(self)@,
            },
            final(self)@.len() >= 1,
    {
        proof {
            use_type_invariant(&*self);
        }
        if row >= self.lines.len() {
            return Err(BufferError::RowOutOfRange);
        }
        let line = self.lines[row].as_str();
        let n: usize = line.unicode_len();
        if col > n {
            return Err(BufferError::ColOutOfRange);
        }
        let out = splice_line(line, col, 0, string.as_str());
        self.lines[row] = out;
        assert(self@ =~= old(self)@.update(
            row as int,
            spliced(old(self)@[row as int], col as int, 0, string@),
        ));
        Ok(())
    }

    /// Takes line `row` out; the lines below move up by one. Taking out the
    /// only line leaves one empty line.
    pub fn remove(&mut self, row: usize) -> (r: Result<(), BufferError>)
        ensures
            match r {
                Ok(_) => row < old(self)@.len() && final(self)@ == without_line(
                    old(self)@,
                    row as int,
                ),
                Err(e) => row >= old(self)@.len() && e == BufferError::RowOutOfRange
                    && final(self)@ == old(self)@,
            },
            final(self)@.len() >= 1,
    {
        proof {
            use_type_invariant(&*self);
        }
        if row >= self.lines.len() {
            return Err(BufferError::RowOutOfRange);
        }
        if self.lines.len() == 1 {
            self.lines[0] = String::new();
        } else {
            let mut lines = self.take_lines();
            lines.remove(row);
            self.lines = lines;
        }
        assert(self@ =~= without_line(old(self)@, row as int));
        Ok(())
    }

    /// Takes the character at `col` out of line `row`. There is no character
    /// at the end of the line, so `col` must lie before it.
    pub fn remove_char(&mut self, row: usize, col: usize) -> (r: Result<(), BufferError>)
        ensures
            match r {
                Ok(_) => row < old(self)@.len() && col < old(self)@[row as int].len()
                    && final(self)@ == old(self)@.update(
                    row as int,
                    old(self)@[row as int].remove(col as int),
                ),
                Err(e) => final(self)@ == old(self)@ && if row >= old(self)@.len() {
                    e == BufferError::RowOutOfRange
                } else {
                    col >= old(self)@[row as int].len() && e == BufferError::ColOutOfRange
                },
            },
            final(self)@.len() >= 1,
    {
        proof {
            use_type_invariant(&*self);
        }
        if row >= self.lines.len() {
            return Err(BufferError::RowOutOfRange);
        }
        let line = self.lines[row].as_str();
        let n: usize = line.unicode_len();
        if col >= n {
            return Err(BufferError::ColOutOfRange);
        }
        let out = splice_line(line, col, 1, "");
        proof {
            reveal_strlit("");
            assert(out@ =~= old(self)@[row as int].remove(col as int));
        }
        self.lines[row] = out;
        assert(self@ =~= old(self)@.update(
            row as int,
            old(self)@[row as int].remove(col as int),
        ));
        Ok(())
    }

    /// Takes the `size` characters that start at `col` out of line `row`.
    pub fn remove_string(&mut self, row: usize, col: usize, size: usize) -> (r: Result<
        (),
        BufferError,
    >)
        ensures
            match r {
                Ok(_) => range_error(old(self)@, row as int, col as int, size as int) is None
                    && final(self)@ == old(self)@.update(
                    row as int,
                    spliced(old(self)@[row as int], col as int, size as int, Seq::empty()),
                ),
                Err(e) => range_error(old(self)@, row as int, col as int, size as int) == Some(e)
                    && final(self)@ == old(self)@,
            },
            final(self)@.len() >= 1,
    {
        proof {
            use_type_invariant(&*self);
        }
        if row >= self.lines.len() {
            return Err(BufferError::RowOutOfRange);
        }
        let line = self.lines[row].as_str();
        let n: usize = line.unicode_len();
        if col > n {
            return Err(BufferError::ColOutOfRange);
        }
        if size > n - col {
            return Err(BufferError::SizeOutOfRange);
        }
        let out = splice_line(line, col, size, "");
        proof {
            reveal_strlit("");
            assert(""@ =~= Seq::<char>::empty());
        }
        self.lines[row] = out;
        assert(self@ =~= old(self)@.update(
            row as int,
            spliced(old(self)@[row as int], col as int, size as int, Seq::empty()),
        ));
        Ok(())
    }

    /// The whole text: every line followed by a line feed.
    pub fn to_text(&self) -> (text: String)
        ensures
            text@ == joined(self@),
    {
        let mut text = String::new();
        let mut i: usize = 0;
        while i < self.lines.len()
            invariant
                i <= self.lines@.len(),
                text@ == joined(self@.take(i as int)),
            decreases self.lines@.len() - i,
        {
            text.append(self.lines[i].as_str());
            text.push('\n');
            proof {
                let next = self@.take(i + 1);
                assert(next.drop_last() =~= self@.take(i as int));
                assert(next.last() == self@[i as int]);
            }
            i = i + 1;
        }
        assert(self@.take(i as int) =~= self@);
        text
    }
}

/// Characters that are no line feeds lengthen what follows the last line
/// feed, and end no line.
pub proof fn lemma_scanned_further(text: Seq<char>, more: Seq<char>)
    requires
        no_line_feed(more),
    ensures
        scanned(text + more) == (scanned(text).0, scanned(text).1 + more),
    decreases more.len(),
{
    if more.len() == 0 {
        assert(text + more =~= text);
        assert(scanned(text).1 + more =~= scanned(text).1);
    } else {
        let whole = text + more;
        assert(whole.drop_last() =~= text + more.drop_last());
        assert(whole.last() == more.last());
        lemma_scanned_further(text, more.drop_last());
        assert((scanned(text).1 + more.drop_last()).push(more.last()) =~= scanned(text).1 + more);
    }
}

/// Reading what was written gives back the lines that were written, with
/// nothing left over.
pub proof fn lemma_scanned_joined(lines: Seq<Seq<char>>)
    requires
        forall|k: int| 0 <= k < lines.len() ==> is_plain_line(#[trigger] lines[k]),
    ensures
        scanned(joined(lines)) == (lines, Seq::<char>::empty()),
    decreases lines.len(),
{
    if lines.len() > 0 {
        let before = joined(lines.drop_last());
        let line = lines.last();
        assert(is_plain_line(line));
        assert forall|k: int| 0 <= k < lines.drop_last().len() implies is_plain_line(
            #[trigger] lines.drop_last()[k],
        ) by {
            assert(lines.drop_last()[k] == lines[k]);
        }
        lemma_scanned_joined(lines.drop_last());
        lemma_scanned_further(before, line);
        let text = joined(lines);
        assert(text =~= (before + line).push('\n'));
        assert(text.drop_last() =~= before + line);
        assert(Seq::<char>::empty() + line =~= line);
        assert(lines.drop_last().push(line) =~= lines);
    }
}

/// The round trip: the lines of a written text are the lines that were
/// written, as long as each of them is a plain line.
pub proof fn lemma_round_trip(lines: Seq<Seq<char>>)
    requires
        forall|k: int| 0 <= k < lines.len() ==> is_plain_line(#[trigger] lines[k]),
    ensures
        lines_in(joined(lines)) == lines,
{
    lemma_scanned_joined(lines);
}

/// No line that is read holds a line feed, and neither does what follows
/// the last line feed.
pub proof fn lemma_scanned_no_line_feed(text: Seq<char>)
    ensures
        forall|k: int|
            0 <= k < scanned(text).0.len() ==> no_line_feed(#[trigger] scanned(text).0[k]),
        no_line_feed(scanned(text).1),
    decreases text.len(),
{
    if text.len() > 0 {
        lemma_scanned_no_line_feed(text.drop_last());
        let (lines, tail) = scanned(text.drop_last());
        if text.last() == '\n' {
            assert(no_line_feed(chomped(tail))) by {
                assert forall|i: int| 0 <= i < chomped(tail).len() implies #[trigger] chomped(
                    tail,
                )[i] != '\n' by {
                    assert(chomped(tail)[i] == tail[i]);
                }
            }
            assert forall|k: int| 0 <= k < scanned(text).0.len() implies no_line_feed(
                #[trigger] scanned(text).0[k],
            ) by {
                if k < lines.len() {
                    assert(scanned(text).0[k] == lines[k]);
                }
            }
        } else {
            assert forall|i: int| 0 <= i < scanned(text).1.len() implies #[trigger] scanned(
                text,
            ).1[i] != '\n' by {
                if i < tail.len() {
                    assert(scanned(text).1[i] == tail[i]);
                }
            }
        }
    }
}

/// Writing out what was read and reading it again gives the same lines,
/// as long as none of them kept a carriage return at its end.
pub proof fn lemma_reread(text: Seq<char>)
    requires
        forall|k: int|
            0 <= k < lines_in(text).len() ==> (#[trigger] lines_in(text)[k]).len() == 0
                || lines_in(text)[k].last() != '\r',
    ensures
        lines_in(joined(lines_in(text))) == lines_in(text),
{
    lemma_scanned_no_line_feed(text);
    let lines = lines_in(text);
    assert forall|k: int| 0 <= k < lines.len() implies is_plain_line(#[trigger] lines[k]) by {
        assert(lines[k].len() == 0 || lines[k].last() != '\r');
        if k < scanned(text).0.len() {
            assert(lines[k] == scanned(text).0[k]);
        } else {
            assert(lines[k] == scanned(text).1);
        }
    }
    lemma_round_trip(lines);
}

} // verus!
