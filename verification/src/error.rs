//! What can go wrong.

use vstd::prelude::*;

use crate::host::Facts;
use crate::host::FileRead;
use crate::host::Host;
use crate::host::Probe;
use crate::text::Text;

verus! {

/// Why no configuration is generated.
#[derive(Debug, PartialEq, Eq)]
pub enum Error<T> {
    /// A file cannot be read, for the reason given; it is missing if none is.
    UnreadableFile { path: T, reason: Option<T> },
    /// A directory is there but cannot be listed, for the cause given.
    UnreadableDir { path: T, cause: T },
    /// A line of a configuration file, counted from one, is not of the form
    /// `key = value`.
    Syntax { path: T, line: usize, text: T },
    /// `--root /` was given, which is the default.
    NeedlessRoot,
    /// The kernel is neither `lts` nor `latest`.
    InvalidKernel(T),
}

impl DeepView for Error<String> {
    type V = Error<Text>;

    open spec fn deep_view(&self) -> Error<Text> {
        match self {
            Error::UnreadableFile { path, reason } => Error::UnreadableFile {
                path: path@,
                reason: reason.deep_view(),
            },
            Error::UnreadableDir { path, cause } => Error::UnreadableDir {
                path: path@,
                cause: cause@,
            },
            Error::Syntax { path, line, text } => Error::Syntax {
                path: path@,
                line: *line,
                text: text@,
            },
            Error::NeedlessRoot => Error::NeedlessRoot,
            Error::InvalidKernel(kernel) => Error::InvalidKernel(kernel@),
        }
    }
}

/// Why there is no result yet, or none at all.
#[derive(Debug, PartialEq, Eq)]
pub enum Halt<T> {
    /// A fact is missing: the probe supplies it.
    Need(Probe<T>),
    /// There will be no result.
    Fail(Error<T>),
}

impl DeepView for Halt<String> {
    type V = Halt<Text>;

    open spec fn deep_view(&self) -> Halt<Text> {
        match self {
            Halt::Need(probe) => Halt::Need(probe.deep_view()),
            Halt::Fail(error) => Halt::Fail(error.deep_view()),
        }
    }
}

/// The meaning of a result that may be a missing fact or a failure.
pub open spec fn outcome<V: DeepView>(r: Result<V, Halt<String>>) -> Result<V::V, Halt<Text>> {
    match r {
        Ok(v) => Ok(v.deep_view()),
        Err(h) => Err(h.deep_view()),
    }
}

/// A result that is at worst a missing fact.
pub open spec fn needed<V>(r: Result<V, Probe<Text>>) -> Result<V, Halt<Text>> {
    match r {
        Ok(v) => Ok(v),
        Err(p) => Err(Halt::Need(p)),
    }
}

/// Reports a missing fact as a reason to halt.
pub fn need<V: DeepView>(r: Result<V, Probe<String>>) -> (h: Result<V, Halt<String>>)
    ensures
        outcome(h) == needed(crate::host::shown(r)),
        r matches Ok(v) ==> h == Ok::<V, Halt<String>>(v),
{
    match r {
        Ok(v) => Ok(v),
        Err(p) => Err(Halt::Need(p)),
    }
}

/// The text of the file, which must be there.
pub open spec fn required_file(path: Text, host: Host) -> Result<Text, Halt<Text>> {
    match host.file(path) {
        Err(p) => Err(Halt::Need(p)),
        Ok(FileRead::Text(t)) => Ok(t),
        Ok(FileRead::Missing) => Err(Halt::Fail(Error::UnreadableFile { path, reason: None })),
        Ok(FileRead::Failed(reason)) => Err(
            Halt::Fail(Error::UnreadableFile { path, reason: Some(reason) }),
        ),
    }
}

/// The text of the file at `path`, which must be there.
pub fn require_file<'a>(path: &str, facts: &'a Facts) -> (r: Result<&'a str, Halt<String>>)
    ensures
        outcome(r) == required_file(path@, facts@),
{
    match need(facts.file(path))? {
        FileRead::Text(t) => Ok(t.as_str()),
        FileRead::Missing => Err(
            Halt::Fail(Error::UnreadableFile { path: path.to_owned(), reason: None }),
        ),
        FileRead::Failed(reason) => Err(
            Halt::Fail(
                Error::UnreadableFile { path: path.to_owned(), reason: Some(reason.clone()) },
            ),
        ),
    }
}

}
