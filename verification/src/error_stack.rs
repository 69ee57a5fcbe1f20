//! The numbered list of messages that describes how an error came about,
//! from the outermost error down to its root cause.

use vstd::prelude::*;
use crate::location::Location;
use crate::text::{decimal, push_decimal, push_str};

verus! {

/// The line `"{index}: {message}, at {location}"`.
pub open spec fn located_line(index: nat, message: Seq<char>, location: Seq<char>) -> Seq<char> {
    decimal(index) + ": "@ + message + ", at "@ + location
}

/// The line `"{index}: {message}"`.
pub open spec fn plain_line(index: nat, message: Seq<char>) -> Seq<char> {
    decimal(index) + ": "@ + message
}

/// Whether `line` starts with the decimal index `i` followed by `": "`.
pub open spec fn numbered(line: Seq<char>, i: nat) -> bool {
    let prefix = decimal(i) + ": "@;
    &&& prefix.len() <= line.len()
    &&& line.subrange(0, prefix.len() as int) == prefix
}

/// A growing list of numbered messages.
#[derive(Debug, Default)]
pub struct ErrorStack(Vec<String>);

impl View for ErrorStack {
    type V = Seq<Seq<char>>;

    closed spec fn view(&self) -> Seq<Seq<char>> {
        self.0@.map_values(|s: String| s@)
    }
}

/// Builds `"{index}: {message}"` into a new string.
fn plain_entry(index: usize, message: &str) -> (s: String)
    ensures
        s@ == plain_line(index as nat, message@),
{
    let mut s = String::new();
    push_decimal(&mut s, index as u64);
    push_str(&mut s, ": ");
    push_str(&mut s, message);
    proof {
        reveal_strlit(": ");
    }
    assert(s@ =~= plain_line(index as nat, message@));
    s
}

proof fn lemma_plain_numbered(i: nat, message: Seq<char>)
    ensures
        numbered(plain_line(i, message), i),
{
    let prefix = decimal(i) + ": "@;
    assert(plain_line(i, message).subrange(0, prefix.len() as int) =~= prefix);
}

proof fn lemma_located_numbered(i: nat, message: Seq<char>, location: Seq<char>)
    ensures
        numbered(located_line(i, message, location), i),
{
    let prefix = decimal(i) + ": "@;
    assert(located_line(i, message, location).subrange(0, prefix.len() as int) =~= prefix);
}

impl ErrorStack {
    /// An empty stack.
    pub fn new() -> (s: Self)
        ensures
            s@ == Seq::<Seq<char>>::empty(),
    {
        let s = ErrorStack(Vec::new());
        assert(s@ =~= Seq::<Seq<char>>::empty());
        s
    }

    /// The number of messages pushed so far.
    pub fn len(&self) -> (n: usize)
        ensures
            n == self@.len(),
    {
        self.0.len()
    }

    /// Pushes the rendered `error` together with the location where it arose,
    /// numbered by its position in the stack.
    pub fn push(&mut self, error: &str, location: &Location)
        requires
            old(self)@.len() < usize::MAX,
        ensures
            final(self)@ == old(self)@.push(located_line(old(self)@.len(), error@, location.text())),
    {
        let i = self.0.len();
        let mut s = plain_entry(i, error);
        push_str(&mut s, ", at ");
        location.write_to(&mut s);
        proof {
            reveal_strlit(", at ");
        }
        assert(s@ =~= located_line(i as nat, error@, location.text()));
        self.0.push(s);
        assert(self@ =~= old(self)@.push(located_line(old(self)@.len(), error@, location.text())));
    }

    /// Pushes the rendered `error`, numbered by its position in the stack.
    pub fn push_without_location(&mut self, error: &str)
        requires
            old(self)@.len() < usize::MAX,
        ensures
            final(self)@ == old(self)@.push(plain_line(old(self)@.len(), error@)),
    {
        let i = self.0.len();
        let s = plain_entry(i, error);
        self.0.push(s);
        assert(self@ =~= old(self)@.push(plain_line(old(self)@.len(), error@)));
    }

    /// The messages, in the order they were pushed.
    pub fn finish(self) -> (lines: Vec<String>)
        ensures
            lines@.map_values(|s: String| s@) == self@,
    {
        self.0
    }
}

/// Each message of a stack starts with its own position: whatever sequence of
/// `push` and `push_without_location` built it, the `k`-th message begins
/// with `"k: "`.
pub proof fn lemma_push_keeps_numbering(before: Seq<Seq<char>>, message: Seq<char>, location: Option<Seq<char>>)
    requires
        forall|k: int| 0 <= k < before.len() ==> numbered(#[trigger] before[k], k as nat),
    ensures
        ({
            let line = match location {
                Some(l) => located_line(before.len(), message, l),
                None => plain_line(before.len(), message),
            };
            forall|k: int| 0 <= k < before.len() + 1 ==> numbered(#[trigger] before.push(line)[k], k as nat)
        }),
{
    match location {
        Some(l) => lemma_located_numbered(before.len(), message, l),
        None => lemma_plain_numbered(before.len(), message),
    }
    let line = match location {
        Some(l) => located_line(before.len(), message, l),
        None => plain_line(before.len(), message),
    };
    assert forall|k: int| 0 <= k < before.len() + 1 implies numbered(#[trigger] before.push(line)[k], k as nat) by {
        if k < before.len() {
            assert(before.push(line)[k] == before[k]);
        }
    }
}

/// One error of a chain: its rendered message and where it arose.
pub struct ErrorEntry {
    pub message: String,
    pub location: Location,
}

/// The lines that describe a chain of errors: each located error in turn,
/// then the root cause that carries no location, if there is one.
pub open spec fn chain_lines(messages: Seq<Seq<char>>, locations: Seq<Seq<char>>, root: Option<Seq<char>>) -> Seq<Seq<char>> {
    let located = Seq::new(messages.len(), |i: int| located_line(i as nat, messages[i], locations[i]));
    match root {
        Some(r) => located.push(plain_line(messages.len(), r)),
        None => located,
    }
}

/// The messages of a chain of errors.
pub open spec fn entry_messages(entries: Seq<ErrorEntry>) -> Seq<Seq<char>> {
    entries.map_values(|e: ErrorEntry| e.message@)
}

/// The rendered locations of a chain of errors.
pub open spec fn entry_locations(entries: Seq<ErrorEntry>) -> Seq<Seq<char>> {
    entries.map_values(|e: ErrorEntry| e.location.text())
}

/// The error stack of an error: the error itself with its location, then each
/// error it was caused by, numbered from 0; a cause without a location ends
/// the chain.
pub fn error_stack_of_chain(entries: &Vec<ErrorEntry>, root: Option<&str>) -> (lines: Vec<String>)
    requires
        entries.len() + 1 < usize::MAX,
    ensures
        lines@.map_values(|s: String| s@) == chain_lines(
            entry_messages(entries@),
            entry_locations(entries@),
            match root { Some(r) => Some(r@), None => None },
        ),
{
    let ghost messages = entry_messages(entries@);
    let ghost locations = entry_locations(entries@);
    let mut stack = ErrorStack::new();
    let mut i: usize = 0;
    while i < entries.len()
        invariant
            i <= entries.len(),
            entries.len() + 1 < usize::MAX,
            messages == entry_messages(entries@),
            locations == entry_locations(entries@),
            stack@ =~= Seq::new(i as nat, |k: int| located_line(k as nat, messages[k], locations[k])),
        decreases entries.len() - i,
    {
        let e = &entries[i];
        stack.push(e.message.as_str(), &e.location);
        i = i + 1;
        assert(stack@ =~= Seq::new(i as nat, |k: int| located_line(k as nat, messages[k], locations[k])));
    }
    match root {
        Some(r) => {
            stack.push_without_location(r);
        },
        None => {},
    }
    let lines = stack.finish();
    assert(lines@.map_values(|s: String| s@) =~= chain_lines(messages, locations, match root { Some(r) => Some(r@), None => None }));
    lines
}

/// An error that knows where it arose and which error caused it.
pub trait ErrorExt: Sized {
    /// The rendered message of this error.
    spec fn message_spec(&self) -> Seq<char>;

    fn message(&self) -> (m: String)
        ensures
            m@ == self.message_spec(),
    ;

    /// The chain of located errors, this one first, as their messages and
    /// rendered locations, and the root cause that carries no location, if any.
    spec fn chain_spec(&self) -> (Seq<Seq<char>>, Seq<Seq<char>>, Option<Seq<char>>);

    fn chain(&self) -> (c: (Vec<ErrorEntry>, Option<String>))
        ensures
            entry_messages(c.0@) == self.chain_spec().0,
            entry_locations(c.0@) == self.chain_spec().1,
            match c.1 {
                Some(r) => self.chain_spec().2 == Some(r@),
                None => self.chain_spec().2 is None,
            },
            1 <= c.0@.len() < usize::MAX - 1,
    ;

    /// The numbered messages from this error down to its root cause.
    fn error_stack(&self) -> (lines: Vec<String>)
        ensures
            lines@.map_values(|s: String| s@) == chain_lines(
                self.chain_spec().0,
                self.chain_spec().1,
                self.chain_spec().2,
            ),
    {
        let (entries, root) = self.chain();
        match root {
            Some(r) => error_stack_of_chain(&entries, Some(r.as_str())),
            None => error_stack_of_chain(&entries, None),
        }
    }
}

/// What unwrapping a boxed error into the framework's error does next.
#[derive(Clone, Copy, Debug, PartialEq, Eq, Structural)]
pub enum UnwrapStep {
    /// The error is a framework error whose own inner error is one too:
    /// go on with that inner error.
    Descend,
    /// The error is a framework error whose inner error is not: it is the
    /// result, as it is.
    Adopt,
    /// The error is no framework error: it is wrapped with the status given.
    Wrap,
}

/// One step of unwrapping a boxed error: a framework error is descended into
/// while its inner error is one too, then adopted; any other error is wrapped.
pub fn unwrap_step(is_framework_error: bool, inner_is_framework_error: bool) -> (s: UnwrapStep)
    ensures
        s == (if !is_framework_error {
            UnwrapStep::Wrap
        } else if inner_is_framework_error {
            UnwrapStep::Descend
        } else {
            UnwrapStep::Adopt
        }),
{
    if !is_framework_error {
        UnwrapStep::Wrap
    } else if inner_is_framework_error {
        UnwrapStep::Descend
    } else {
        UnwrapStep::Adopt
    }
}

/// The line `"0: {message}, at: {location}"` that is the whole stack of a
/// wrapped error.
pub open spec fn wrapped_line(message: Seq<char>, location: Seq<char>) -> Seq<char> {
    "0: "@ + message + ", at: "@ + location
}

/// The stack of an error wrapped at `location`: its one line.
pub fn wrapped_error_stack(message: &str, location: &Location) -> (lines: Vec<String>)
    ensures
        lines@.len() == 1,
        lines@[0]@ == wrapped_line(message@, location.text()),
{
    let mut s = String::new();
    push_str(&mut s, "0: ");
    push_str(&mut s, message);
    push_str(&mut s, ", at: ");
    location.write_to(&mut s);
    proof {
        reveal_strlit("0: ");
        reveal_strlit(", at: ");
    }
    assert(s@ =~= wrapped_line(message@, location.text()));
    let mut lines: Vec<String> = Vec::new();
    lines.push(s);
    lines
}

} // verus!

