//! The text of the source files, and what a span means in it.

use vstd::prelude::*;
use crate::span::Span;
use crate::text::{decimal, push_decimal};

verus! {

/// A position in a file as a reader counts it.
#[derive(Clone, Copy, Debug, PartialEq, Eq, Structural)]
pub struct Loc {
    /// The line, counted from 1.
    pub line: usize,
    /// The number of characters between the start of the line and the
    /// position: 0 for the first character of a line.
    pub col: usize,
}

/// Why the text of a span could not be had.
#[derive(Clone, Copy, Debug, PartialEq, Eq, Structural)]
pub enum SpanSnippetError {
    /// The span ends before it starts.
    IllFormedSpan(Span),
    /// The span names a file that the code map does not hold, or reaches
    /// beyond the end of its file.
    MalformedForCodemap(Span),
    /// The text of the file is no longer held.
    SourceNotAvailable { file: usize },
}

/// How many line breaks stand in front of offset `pos`.
pub open spec fn newlines_before(text: Seq<char>, pos: int) -> nat
    decreases pos,
{
    if pos <= 0 {
        0
    } else if text[pos - 1] == '\n' {
        newlines_before(text, pos - 1) + 1
    } else {
        newlines_before(text, pos - 1)
    }
}

/// How many characters stand between offset `pos` and the start of its line.
pub open spec fn column(text: Seq<char>, pos: int) -> nat
    decreases pos,
{
    if pos <= 0 || text[pos - 1] == '\n' {
        0
    } else {
        column(text, pos - 1) + 1
    }
}

/// The number of the line that holds offset `pos`, counted from 1.
pub open spec fn line_number(text: Seq<char>, pos: int) -> nat {
    newlines_before(text, pos) + 1
}

/// Whether `loc` is the position of offset `pos`: its line, and its column
/// in that line. The offset just behind the last character has a position
/// too: a span may end there.
pub open spec fn is_loc_at(loc: Loc, text: Seq<char>, pos: int) -> bool {
    &&& loc.line == line_number(text, pos)
    &&& loc.col == column(text, pos)
}

/// One source file as the contracts see it.
pub ghost struct SourceFileView {
    /// The name under which the file is reported.
    pub name: Seq<char>,
    /// The text that the file was registered with.
    pub text: Seq<char>,
    /// Whether that text is still held.
    pub available: bool,
}

/// One source file: its name, its text, and the offsets at which its lines
/// start. The offsets stay when the text is dropped, so a span can still be
/// rendered then.
pub struct SourceFile {
    name: String,
    src: Option<String>,
    len: usize,
    lines: Vec<usize>,
    text: Ghost<Seq<char>>,
}

/// `lines` holds the offset of the start of every line of `text`, in order.
spec fn is_line_table(lines: Seq<usize>, text: Seq<char>) -> bool {
    &&& lines.len() == newlines_before(text, text.len() as int) + 1
    &&& lines[0] == 0
    &&& forall|k: int|
        1 <= k < lines.len() ==> {
            &&& 1 <= #[trigger] lines[k] <= text.len()
            &&& text[lines[k] - 1] == '\n'
            &&& newlines_before(text, lines[k] as int) == k
        }
}

proof fn lemma_newlines_monotonic(text: Seq<char>, a: int, b: int)
    requires
        a <= b,
    ensures
        newlines_before(text, a) <= newlines_before(text, b),
    decreases b - a,
{
    if a < b {
        lemma_newlines_monotonic(text, a, b - 1);
    }
}

proof fn lemma_column_at_most(text: Seq<char>, pos: int)
    requires
        0 <= pos,
    ensures
        column(text, pos) <= pos,
    decreases pos,
{
    if pos > 0 {
        lemma_column_at_most(text, pos - 1);
    }
}

/// Between two offsets with no line break in between, the column grows by
/// the distance.
proof fn lemma_column_advances(text: Seq<char>, from: int, to: int)
    requires
        0 <= from <= to,
        newlines_before(text, from) == newlines_before(text, to),
    ensures
        column(text, to) == column(text, from) + (to - from),
    decreases to - from,
{
    if from < to {
        lemma_newlines_monotonic(text, from, to - 1);
        lemma_newlines_monotonic(text, to - 1, to);
        lemma_column_advances(text, from, to - 1);
    }
}

/// The entry of the table that binary search settles on is the start of the
/// line that holds `pos`.
proof fn lemma_table_lookup(lines: Seq<usize>, text: Seq<char>, k: int, pos: int)
    requires
        is_line_table(lines, text),
        0 <= pos <= text.len(),
        0 <= k < lines.len(),
        lines[k] <= pos,
        k + 1 < lines.len() ==> pos < lines[k + 1],
    ensures
        newlines_before(text, pos) == k,
        column(text, pos) == pos - lines[k],
{
    let start = lines[k] as int;
    assert(newlines_before(text, start) == k);
    lemma_newlines_monotonic(text, start, pos);
    if k + 1 < lines.len() {
        let next = lines[k + 1] as int;
        assert(newlines_before(text, next) == k + 1);
        lemma_newlines_monotonic(text, pos, next - 1);
    } else {
        lemma_newlines_monotonic(text, pos, text.len() as int);
    }
    lemma_column_advances(text, start, pos);
}

impl View for SourceFile {
    type V = SourceFileView;

    closed spec fn view(&self) -> SourceFileView {
        SourceFileView { name: self.name@, text: self.text@, available: self.src is Some }
    }
}

impl SourceFile {
    #[verifier::type_invariant]
    spec fn inv(&self) -> bool {
        &&& self.len == self.text@.len()
        &&& self.src matches Some(s) ==> s@ == self.text@
        &&& is_line_table(self.lines@, self.text@)
    }

    /// A file with the given name and text.
    pub fn new(name: &str, src: &str) -> (file: SourceFile)
        ensures
            file@ == (SourceFileView { name: name@, text: src@, available: true }),
    {
        let len: usize = src.unicode_len();
        let mut lines: Vec<usize> = Vec::new();
        lines.push(0);
        let mut i: usize = 0;
        for c in it: src.chars()
            invariant
                i == it.index(),
                it.seq() == src@,
                len == src@.len(),
                lines@.len() == newlines_before(src@, i as int) + 1,
                lines@[0] == 0,
                forall|k: int|
                    1 <= k < lines@.len() ==> {
                        &&& 1 <= #[trigger] lines@[k] <= i
                        &&& src@[lines@[k] - 1] == '\n'
                        &&& newlines_before(src@, lines@[k] as int) == k
                    },
        {
            if c == '\n' {
                lines.push(i + 1);
            }
            i = i + 1;
        }
        SourceFile {
            name: name.to_owned(),
            src: Some(src.to_owned()),
            len,
            lines,
            text: Ghost(src@),
        }
    }

    /// The index, counted from 0, of the line that holds offset `pos`.
    fn lookup_line(&self, pos: usize) -> (k: usize)
        requires
            pos <= self.text@.len(),
        ensures
            k < self.lines@.len(),
            k == newlines_before(self.text@, pos as int),
            self.lines@[k as int] == pos - column(self.text@, pos as int),
    {
        proof {
            use_type_invariant(self);
        }
        let mut a: usize = 0;
        let mut b: usize = self.lines.len();
        while b - a > 1
            invariant
                a < b <= self.lines@.len(),
                self.lines@[a as int] <= pos,
                b < self.lines@.len() ==> pos < self.lines@[b as int],
            decreases b - a,
        {
            let m: usize = a + (b - a) / 2;
            if self.lines[m] <= pos {
                a = m;
            } else {
                b = m;
            }
        }
        proof {
            lemma_table_lookup(self.lines@, self.text@, a as int, pos as int);
        }
        a
    }

    /// Line and column of offset `pos`, if the file reaches that far.
    pub fn lookup_char_pos(&self, pos: usize) -> (loc: Option<Loc>)
        ensures
            match loc {
                Some(loc) => pos <= self@.text.len() && is_loc_at(loc, self@.text, pos as int),
                None => pos > self@.text.len(),
            },
    {
        proof {
            use_type_invariant(self);
        }
        if pos > self.len {
            return None;
        }
        let k: usize = self.lookup_line(pos);
        assert(k < self.lines.len());
        Some(Loc { line: k + 1, col: pos - self.lines[k] })
    }

    /// Drops the text. Name, length and line starts stay.
    pub fn unload(&mut self)
        ensures
            final(self)@ == (SourceFileView { available: false, ..old(self)@ }),
    {
        proof {
            use_type_invariant(&*self);
        }
        self.src = None;
    }
}

/// Whether a span lies inside a file that the code map holds.
pub open spec fn span_in_bounds(files: Seq<SourceFileView>, sp: Span) -> bool {
    &&& sp.file < files.len()
    &&& sp.lo <= sp.hi <= files[sp.file as int].text.len()
}

/// How a span is shown to a reader: the file's name, then line and column of
/// the span's start and of its end, both counted from 1, as in
/// `main.rs:3:5: 4:2`. A span that does not lie inside a file is shown as
/// `no-location`.
pub open spec fn location_text(files: Seq<SourceFileView>, sp: Span) -> Seq<char> {
    if span_in_bounds(files, sp) {
        let f = files[sp.file as int];
        f.name + ":"@ + decimal(line_number(f.text, sp.lo as int)) + ":"@ + decimal(
            column(f.text, sp.lo as int) + 1,
        ) + ": "@ + decimal(line_number(f.text, sp.hi as int)) + ":"@ + decimal(
            column(f.text, sp.hi as int) + 1,
        )
    } else {
        "no-location"@
    }
}

/// The source text of a span: the characters of its file from `lo` up to,
/// not including, `hi`, exactly as they stand there. Or why they cannot be
/// had.
pub open spec fn snippet_text(files: Seq<SourceFileView>, sp: Span) -> Result<
    Seq<char>,
    SpanSnippetError,
> {
    if sp.lo > sp.hi {
        Err(SpanSnippetError::IllFormedSpan(sp))
    } else if sp.file >= files.len() || sp.hi > files[sp.file as int].text.len() {
        Err(SpanSnippetError::MalformedForCodemap(sp))
    } else if !files[sp.file as int].available {
        Err(SpanSnippetError::SourceNotAvailable { file: sp.file })
    } else {
        Ok(files[sp.file as int].text.subrange(sp.lo as int, sp.hi as int))
    }
}

/// The source files of one program, each under the index at which it was
/// registered.
pub struct CodeMap {
    files: Vec<SourceFile>,
}

impl View for CodeMap {
    type V = Seq<SourceFileView>;

    closed spec fn view(&self) -> Seq<SourceFileView> {
        self.files@.map_values(|f: SourceFile| f@)
    }
}

impl CodeMap {
    /// A code map without files.
    pub fn new() -> (map: CodeMap)
        ensures
            map@ == Seq::<SourceFileView>::empty(),
    {
        let map = CodeMap { files: Vec::new() };
        assert(map@ =~= Seq::<SourceFileView>::empty());
        map
    }

    /// Registers a file and returns its index: the number of files that were
    /// registered before it.
    pub fn new_filemap(&mut self, name: &str, src: &str) -> (file: usize)
        ensures
            file == old(self)@.len(),
            final(self)@ == old(self)@.push(
                SourceFileView { name: name@, text: src@, available: true },
            ),
    {
        let file: usize = self.files.len();
        let f = SourceFile::new(name, src);
        self.files.push(f);
        assert(self@ =~= old(self)@.push(
            SourceFileView { name: name@, text: src@, available: true },
        ));
        file
    }

    /// Drops the text of a file. Spans in it can still be rendered, but their
    /// text can no longer be had. Without effect if there is no such file.
    pub fn unload_source(&mut self, file: usize)
        ensures
            file < old(self)@.len() ==> final(self)@ == old(self)@.update(
                file as int,
                SourceFileView { available: false, ..old(self)@[file as int] },
            ),
            file >= old(self)@.len() ==> final(self)@ == old(self)@,
    {
        if file < self.files.len() {
            self.files[file].unload();
            assert(self@ =~= old(self)@.update(
                file as int,
                SourceFileView { available: false, ..old(self)@[file as int] },
            ));
        }
    }

    /// Line and column of an offset in a file, if there is such a file and it
    /// reaches that far.
    pub fn lookup_char_pos(&self, file: usize, pos: usize) -> (loc: Option<Loc>)
        ensures
            match loc {
                Some(loc) => {
                    &&& file < self@.len()
                    &&& pos <= self@[file as int].text.len()
                    &&& is_loc_at(loc, self@[file as int].text, pos as int)
                },
                None => file >= self@.len() || pos > self@[file as int].text.len(),
            },
    {
        if file < self.files.len() {
            self.files[file].lookup_char_pos(pos)
        } else {
            None
        }
    }

    /// Renders a span for a reader.
    pub fn span_to_string(&self, sp: Span) -> (s: String)
        ensures
            s@ == location_text(self@, sp),
    {
        if sp.file < self.files.len() && sp.lo <= sp.hi {
            let f = &self.files[sp.file];
            if let Some(hi) = f.lookup_char_pos(sp.hi) {
                if let Some(lo) = f.lookup_char_pos(sp.lo) {
                    let mut s = String::new();
                    s.append(f.name.as_str());
                    s.append(":");
                    push_decimal(&mut s, lo.line as u128);
                    s.append(":");
                    push_decimal(&mut s, lo.col as u128 + 1);
                    s.append(": ");
                    push_decimal(&mut s, hi.line as u128);
                    s.append(":");
                    push_decimal(&mut s, hi.col as u128 + 1);
                    assert(s@ =~= location_text(self@, sp));
                    return s;
                }
            }
        }
        "no-location".to_owned()
    }

    /// Recovers the source text of a span.
    pub fn span_to_snippet(&self, sp: Span) -> (r: Result<String, SpanSnippetError>)
        ensures
            match r {
                Ok(s) => snippet_text(self@, sp) == Ok::<Seq<char>, SpanSnippetError>(s@),
                Err(e) => snippet_text(self@, sp) == Err::<Seq<char>, SpanSnippetError>(e),
            },
    {
        if sp.lo > sp.hi {
            return Err(SpanSnippetError::IllFormedSpan(sp));
        }
        if sp.file >= self.files.len() {
            return Err(SpanSnippetError::MalformedForCodemap(sp));
        }
        let f = &self.files[sp.file];
        proof {
            use_type_invariant(f);
        }
        if sp.hi > f.len {
            return Err(SpanSnippetError::MalformedForCodemap(sp));
        }
        match &f.src {
            Some(src) => Ok(src.as_str().substring_char(sp.lo, sp.hi).to_owned()),
            None => Err(SpanSnippetError::SourceNotAvailable { file: sp.file }),
        }
    }
}

/// Law: line and column name one place. Two different offsets of a file are
/// never on the same line at the same column.
pub proof fn lemma_positions_differ(text: Seq<char>, a: int, b: int)
    requires
        0 <= a < b,
    ensures
        line_number(text, a) != line_number(text, b) || column(text, a) != column(text, b),
{
    lemma_newlines_monotonic(text, a, b);
    if newlines_before(text, a) == newlines_before(text, b) {
        lemma_column_advances(text, a, b);
    }
}

/// Law: a position never lies in front of the start of its line, and the
/// line of a later offset is not an earlier line.
pub proof fn lemma_positions_in_order(text: Seq<char>, a: int, b: int)
    requires
        0 <= a <= b,
    ensures
        column(text, a) <= a,
        line_number(text, a) <= line_number(text, b),
{
    lemma_newlines_monotonic(text, a, b);
    lemma_column_at_most(text, a);
}

/// Law: the text recovered for a span is the part of its file between the
/// span's offsets, character for character. It is as long as the span, and
/// put back between what stands in front of it and what stands behind it, it
/// gives the file's text again.
pub proof fn lemma_snippet_round_trip(files: Seq<SourceFileView>, sp: Span)
    requires
        span_in_bounds(files, sp),
        files[sp.file as int].available,
    ensures
        snippet_text(files, sp) is Ok,
        snippet_text(files, sp).unwrap().len() == sp.hi - sp.lo,
        files[sp.file as int].text.take(sp.lo as int) + snippet_text(files, sp).unwrap()
            + files[sp.file as int].text.skip(sp.hi as int) == files[sp.file as int].text,
{
    let text = files[sp.file as int].text;
    let snippet = snippet_text(files, sp).unwrap();
    assert(text.take(sp.lo as int) + snippet + text.skip(sp.hi as int) =~= text);
}

} // verus!
