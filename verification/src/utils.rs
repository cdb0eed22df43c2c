//! Paths with placeholders.
//!
//! A path may name the working directory as `$(PWD)` and the program as
//! `$(PROG)`. The library fills them in with what its caller found the two
//! to be.

use vstd::prelude::*;

verus! {

/// `text` with every occurrence of `from` replaced by `to`. Occurrences
/// are taken from left to right, and each begins behind the end of the one
/// before it.
pub open spec fn replaced(text: Seq<char>, from: Seq<char>, to: Seq<char>) -> Seq<char>
    decreases text.len(),
{
    if from.len() == 0 || text.len() < from.len() {
        text
    } else if text.take(from.len() as int) == from {
        to + replaced(text.skip(from.len() as int), from, to)
    } else {
        seq![text[0]] + replaced(text.skip(1), from, to)
    }
}

/// `path` with the working directory and the program filled in, in this
/// order: a placeholder that the working directory brings in is filled in
/// too.
pub open spec fn resolved(path: Seq<char>, pwd: Seq<char>, prog: Seq<char>) -> Seq<char> {
    replaced(replaced(path, "$(PWD)"@, pwd), "$(PROG)"@, prog)
}

/// `str::replace` with a pattern that is a string: the documentation of
/// std says that every match of the pattern is replaced, and the matches
/// of a string pattern are its occurrences from left to right that do not
/// overlap. An empty pattern is left out.
#[verifier::external_body]
fn replace(text: &str, from: &str, to: &str) -> (out: String)
    requires
        from@.len() > 0,
    ensures
        out@ == replaced(text@, from@, to@),
{
    text.replace(from, to)
}

/// Fills in the placeholders of `path`.
pub fn resolve_path(path: &str, pwd: &str, prog: &str) -> (out: String)
    ensures
        out@ == resolved(path@, pwd@, prog@),
{
    proof {
        reveal_strlit("$(PWD)");
        reveal_strlit("$(PROG)");
    }
    let with_pwd = replace(path, "$(PWD)", pwd);
    replace(with_pwd.as_str(), "$(PROG)", prog)
}

/// A path that may hold placeholders.
pub trait ToResolved {
    /// The path as it is written.
    spec fn written(&self) -> Seq<char>;

    /// The path with its placeholders filled in.
    fn resolve(self, pwd: &str, prog: &str) -> (out: String)
        ensures
            out@ == resolved(self.written(), pwd@, prog@),
    ;
}

impl ToResolved for &str {
    open spec fn written(&self) -> Seq<char> {
        self@
    }

    fn resolve(self, pwd: &str, prog: &str) -> (out: String) {
        resolve_path(self, pwd, prog)
    }
}

} // verus!
