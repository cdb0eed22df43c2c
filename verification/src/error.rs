//! What can go wrong around the runner, and the lines that say so.

use vstd::prelude::*;
use vstd::string::*;

verus! {

/// The errors of the build tool. Some carry the name of what failed.
#[derive(Debug, PartialEq, Eq)]
pub enum LiebeError {
    CantSpawnChildProc(String),
    CannotOpenFile(String),
    CannotReadFile(String),
    InvalidConf,
    CantOpenStdLibs,
    CannotCreateTable,
    CannotInjectContext(String),
    FuncNotFound(String),
    CannotCallFunc(String),
    CantFindFieldInConf(String),
    ThreadFailedToJoin,
    ThreadAlreadyJoined,
}

impl LiebeError {
    /// The fixed text of the variant.
    pub open spec fn message(self) -> Seq<char> {
        match self {
            LiebeError::CantSpawnChildProc(_) => "Cannot spawn child process"@,
            LiebeError::CannotOpenFile(_) => "Cannot open file"@,
            LiebeError::CannotReadFile(_) => "Cannot read from file"@,
            LiebeError::InvalidConf => "Invalid configuration file"@,
            LiebeError::CantOpenStdLibs => "Cannot open lua stdlibs"@,
            LiebeError::CannotCreateTable => "Cannot create lua table"@,
            LiebeError::CannotInjectContext(_) => "Cannot inject global lua context"@,
            LiebeError::FuncNotFound(_) => "Lua function not found"@,
            LiebeError::CannotCallFunc(_) => "Cannot call lua function"@,
            LiebeError::CantFindFieldInConf(_) => "Cannot find a field in configuration"@,
            LiebeError::ThreadFailedToJoin => "Thread failed to join"@,
            LiebeError::ThreadAlreadyJoined => "Thread already has been joined"@,
        }
    }

    /// The name that the pretty form shows after the text, for the variants
    /// that show one. A failed spawn carries the command line and keeps it
    /// to itself.
    pub open spec fn subject(self) -> Option<Seq<char>> {
        match self {
            LiebeError::CannotOpenFile(s) => Some(s@),
            LiebeError::CannotReadFile(s) => Some(s@),
            LiebeError::CannotInjectContext(s) => Some(s@),
            LiebeError::FuncNotFound(s) => Some(s@),
            LiebeError::CannotCallFunc(s) => Some(s@),
            LiebeError::CantFindFieldInConf(s) => Some(s@),
            _ => None,
        }
    }

    /// The text, then a colon and the subject where there is one.
    pub open spec fn pretty(self) -> Seq<char> {
        match self.subject() {
            Some(s) => self.message() + ": "@ + s,
            None => self.message(),
        }
    }

    fn text(&self) -> (s: &'static str)
        ensures
            s@ == self.message(),
    {
        match self {
            LiebeError::CantSpawnChildProc(_) => "Cannot spawn child process",
            LiebeError::CannotOpenFile(_) => "Cannot open file",
            LiebeError::CannotReadFile(_) => "Cannot read from file",
            LiebeError::InvalidConf => "Invalid configuration file",
            LiebeError::CantOpenStdLibs => "Cannot open lua stdlibs",
            LiebeError::CannotCreateTable => "Cannot create lua table",
            LiebeError::CannotInjectContext(_) => "Cannot inject global lua context",
            LiebeError::FuncNotFound(_) => "Lua function not found",
            LiebeError::CannotCallFunc(_) => "Cannot call lua function",
            LiebeError::CantFindFieldInConf(_) => "Cannot find a field in configuration",
            LiebeError::ThreadFailedToJoin => "Thread failed to join",
            LiebeError::ThreadAlreadyJoined => "Thread already has been joined",
        }
    }

    /// The line that tells a user of this error.
    pub fn as_pretty(&self) -> (out: String)
        ensures
            out@ == self.pretty(),
    {
        let mut out = String::from_str(self.text());
        match self {
            LiebeError::CannotOpenFile(s)
            | LiebeError::CannotReadFile(s)
            | LiebeError::CannotInjectContext(s)
            | LiebeError::FuncNotFound(s)
            | LiebeError::CannotCallFunc(s)
            | LiebeError::CantFindFieldInConf(s) => {
                out.append(": ");
                out.append(s.as_str());
            },
            _ => {},
        }
        out
    }
}

/// A condition that ends the whole program: the host shows `message` on
/// its error stream and terminates with `code`.
#[derive(Debug, PartialEq, Eq)]
pub struct Fatal {
    pub message: String,
    pub code: i32,
}

/// What a [`Fatal`] says, as plain values.
pub struct FatalView {
    pub message: Seq<char>,
    pub code: i32,
}

impl View for Fatal {
    type V = FatalView;

    open spec fn view(&self) -> FatalView {
        FatalView { message: self.message@, code: self.code }
    }
}

/// The exit code of a program that gives up.
pub const FAILURE_CODE: i32 = 1;

/// Decides how much an error line says.
#[derive(Debug, Clone, Copy)]
pub struct Reporter {
    verbose: bool,
}

/// The line for `e`: in verbose mode a known cause follows it.
pub open spec fn failure_line(verbose: bool, e: LiebeError, cause: Option<Seq<char>>) -> Seq<char> {
    match cause {
        Some(c) if verbose => e.pretty() + ": "@ + c,
        _ => e.pretty(),
    }
}

/// Giving up on `e`: its line, and the code of failure.
pub open spec fn failure(verbose: bool, e: LiebeError, cause: Option<Seq<char>>) -> FatalView {
    FatalView { message: failure_line(verbose, e, cause), code: FAILURE_CODE }
}

impl Reporter {
    /// Whether a known cause is shown.
    pub closed spec fn verbose(&self) -> bool {
        self.verbose
    }

    pub fn new(verbose: bool) -> (r: Self)
        ensures
            r.verbose() == verbose,
    {
        Reporter { verbose }
    }

    /// What to tell the user before giving up on `e`.
    pub fn failure(&self, e: &LiebeError, cause: Option<&str>) -> (f: Fatal)
        ensures
            f@ == failure(self.verbose(), *e, match cause {
                Some(c) => Some(c@),
                None => None,
            }),
    {
        let mut message = e.as_pretty();
        match cause {
            Some(c) => {
                if self.verbose {
                    message.append(": ");
                    message.append(c);
                }
            },
            None => {},
        }
        Fatal { message, code: FAILURE_CODE }
    }
}

/// Turns verbose error lines on or off.
pub fn set_verbose(reporter: &mut Reporter, value: bool)
    ensures
        final(reporter).verbose() == value,
{
    reporter.verbose = value;
}

/// Whether error lines are verbose.
pub fn get_verbose(reporter: &Reporter) -> (v: bool)
    ensures
        v == reporter.verbose(),
{
    reporter.verbose
}

/// Whether error lines are verbose.
pub fn is_verbose(reporter: &Reporter) -> (v: bool)
    ensures
        v == reporter.verbose(),
{
    reporter.verbose
}

/// `format!` with `{:#?}`: the pretty debug form of `value`. Nothing is
/// claimed of the text: it is what the type's `Debug` writes.
#[verifier::external_body]
fn debug_text<E: core::fmt::Debug>(value: &E) -> String {
    format!("{:#?}", value)
}

/// A result that the program cannot go on without.
pub trait ExitOnError<T>: Sized {
    /// The value that is there on success.
    spec fn held(&self) -> Option<T>;

    /// Hands out the value that is there. Where none is, says how to give
    /// up: with the line for `e`, and with code 1.
    fn log(self, reporter: &Reporter, e: LiebeError) -> (r: Result<T, Fatal>)
        ensures
            self.held() matches Some(v) ==> r == Ok::<T, Fatal>(v),
            self.held() is None ==> r is Err,
            r matches Err(f) ==> exists|cause: Option<Seq<char>>|
                f@ == #[trigger] failure(reporter.verbose(), e, cause),
    ;
}

impl<T> ExitOnError<T> for Option<T> {
    open spec fn held(&self) -> Option<T> {
        *self
    }

    /// An empty option has no cause to show: the line is the pretty form of
    /// `e`, verbose or not.
    fn log(self, reporter: &Reporter, e: LiebeError) -> (r: Result<T, Fatal>)
        ensures
            r matches Err(f) ==> f@ == failure(reporter.verbose(), e, None),
    {
        match self {
            Some(v) => Ok(v),
            None => Err(reporter.failure(&e, None)),
        }
    }
}

impl<T, E: core::fmt::Debug> ExitOnError<T> for Result<T, E> {
    open spec fn held(&self) -> Option<T> {
        match *self {
            Ok(v) => Some(v),
            Err(_) => None,
        }
    }

    /// The cause is the debug form of the error that is held, whatever
    /// its type writes as such; it is shown in verbose mode.
    fn log(self, reporter: &Reporter, e: LiebeError) -> (r: Result<T, Fatal>)
        ensures
            r matches Err(f) ==> exists|shown: Seq<char>|
                f@ == #[trigger] failure(reporter.verbose(), e, Some(shown)),
    {
        match self {
            Ok(v) => Ok(v),
            Err(cause) => {
                let shown = debug_text(&cause);
                Err(reporter.failure(&e, Some(shown.as_str())))
            },
        }
    }
}

} // verus!
