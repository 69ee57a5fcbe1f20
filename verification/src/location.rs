//! A source location: file, line and column.

use vstd::prelude::*;
use vstd::std_specs::cmp::{PartialEqSpec, PartialEqSpecImpl};
use crate::text::{decimal, push_char, push_decimal, push_str, same_text};

verus! {

/// A position in a source file.
#[derive(Copy, Clone, Debug, Eq, Hash, Ord, PartialOrd)]
pub struct Location {
    file: &'static str,
    line: u32,
    column: u32,
}

/// Two locations are equal when their files hold the same text and their
/// lines and columns are equal.
impl PartialEq for Location {
    fn eq(&self, other: &Self) -> (r: bool) {
        same_text(self.file, other.file) && self.line == other.line && self.column == other.column
    }
}

impl PartialEqSpecImpl for Location {
    open spec fn obeys_eq_spec() -> bool {
        true
    }

    open spec fn eq_spec(&self, other: &Self) -> bool {
        self.spec_file() == other.spec_file() && self.spec_line() == other.spec_line()
            && self.spec_column() == other.spec_column()
    }
}

/// How a location is rendered: `file:line:column`.
pub open spec fn location_text(file: Seq<char>, line: u32, column: u32) -> Seq<char> {
    file + seq![':'] + decimal(line as nat) + seq![':'] + decimal(column as nat)
}

impl Location {
    pub closed spec fn spec_file(&self) -> Seq<char> {
        self.file@
    }

    pub closed spec fn spec_line(&self) -> u32 {
        self.line
    }

    pub closed spec fn spec_column(&self) -> u32 {
        self.column
    }

    /// The rendering of this location.
    pub open spec fn text(&self) -> Seq<char> {
        location_text(self.spec_file(), self.spec_line(), self.spec_column())
    }

    /// The location in `file` at `line` and `column`.
    pub fn new(file: &'static str, line: u32, column: u32) -> (l: Self)
        ensures
            l.spec_file() == file@,
            l.spec_line() == line,
            l.spec_column() == column,
    {
        Self { file, line, column }
    }

    pub fn file(&self) -> (f: &'static str)
        ensures
            f@ == self.spec_file(),
    {
        self.file
    }

    pub fn line(&self) -> (l: u32)
        ensures
            l == self.spec_line(),
    {
        self.line
    }

    pub fn column(&self) -> (c: u32)
        ensures
            c == self.spec_column(),
    {
        self.column
    }

    /// Appends the rendering `file:line:column` to `out`.
    pub fn write_to(&self, out: &mut String)
        ensures
            final(out)@ == old(out)@ + self.text(),
    {
        push_str(out, self.file);
        push_char(out, ':');
        push_decimal(out, self.line as u64);
        push_char(out, ':');
        push_decimal(out, self.column as u64);
        assert(out@ =~= old(out)@ + self.text());
    }

    /// The rendering `file:line:column` as a new string.
    pub fn to_string(&self) -> (s: String)
        ensures
            s@ == self.text(),
    {
        let mut s = String::new();
        self.write_to(&mut s);
        assert(s@ =~= self.text());
        s
    }
}

/// A location is rendered as its file, a colon, its line in decimal, a
/// colon and its column in decimal, so the rendering starts with the file
/// followed by a colon.
pub proof fn lemma_location_text(file: Seq<char>, line: u32, column: u32)
    ensures
        location_text(file, line, column) == file + seq![':'] + decimal(line as nat) + seq![':'] + decimal(column as nat),
        location_text(file, line, column).subrange(0, file.len() as int) == file,
        location_text(file, line, column)[file.len() as int] == ':',
{
    let t = location_text(file, line, column);
    assert(t.subrange(0, file.len() as int) =~= file);
}

/// A location made by `new` gives back its parts, and two made by `new`
/// compare equal exactly when their parts do.
pub proof fn lemma_new_parts(f1: &'static str, l1: u32, c1: u32, f2: &'static str, l2: u32, c2: u32, a: Location, b: Location)
    requires
        a.spec_file() == f1@ && a.spec_line() == l1 && a.spec_column() == c1,
        b.spec_file() == f2@ && b.spec_line() == l2 && b.spec_column() == c2,
    ensures
        PartialEqSpec::eq_spec(&a, &b) <==> (f1@ == f2@ && l1 == l2 && c1 == c2),
{
}

} // verus!
