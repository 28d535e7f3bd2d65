//! What a run does when a step fails, and how much it reports.
//!
//! The translation is a heuristic and will not cover every construct, so one
//! statement or one row that the destination refuses must not end a run that
//! is otherwise sound. Every other failure ends it.

use vstd::prelude::*;

verus! {

/// A step of a run that failed.
#[derive(Clone, Copy, Debug, PartialEq, Eq, Structural)]
pub enum Failure {
    /// A line of the dump could not be read.
    UnreadableLine,
    /// A byte string of a row is not valid UTF-8.
    InvalidText,
    /// The destination refused one statement of a dump.
    Statement,
    /// The destination refused one row of a table.
    Insert,
    /// The source could not be reached, or could not list its tables.
    Source,
    /// Any other step, such as describing or creating a table.
    Other,
}

/// What the run does after a failure.
#[derive(Clone, Copy, Debug, PartialEq, Eq, Structural)]
pub enum Disposition {
    /// Report the failure and go on with the next statement or row.
    Continue,
    /// End the run with the failure.
    Abort,
}

/// How much of its work a run reports.
#[derive(Clone, Copy, Debug, PartialEq, Eq, Structural)]
pub enum Verbosity {
    Error,
    Info,
    Debug,
    Trace,
}

/// The run goes on after a refused statement or row, and ends on every other
/// failure.
pub open spec fn disposition_of(failure: Failure) -> Disposition {
    match failure {
        Failure::Statement => Disposition::Continue,
        Failure::Insert => Disposition::Continue,
        _ => Disposition::Abort,
    }
}

/// How many statements of a dump are attempted, where `refused[i]` tells
/// whether the destination refuses the statement at position `i`: the run
/// takes them in order and stops only where the disposition of a refused
/// statement says so.
pub open spec fn attempted(refused: Seq<bool>) -> nat
    decreases refused.len(),
{
    if refused.len() == 0 {
        0
    } else if refused.first() && disposition_of(Failure::Statement) == Disposition::Abort {
        1
    } else {
        1 + attempted(refused.drop_first())
    }
}

/// The level of reporting that the command line asks for: errors only when
/// `quiet` is set; otherwise progress, with detail at one `verbose` and with
/// everything at more.
pub open spec fn verbosity_of(verbose: u8, quiet: bool) -> Verbosity {
    if quiet {
        Verbosity::Error
    } else if verbose == 0 {
        Verbosity::Info
    } else if verbose == 1 {
        Verbosity::Debug
    } else {
        Verbosity::Trace
    }
}

/// Decides what the run does after `failure`.
pub fn disposition(failure: Failure) -> (d: Disposition)
    ensures
        d == disposition_of(failure),
{
    match failure {
        Failure::Statement => Disposition::Continue,
        Failure::Insert => Disposition::Continue,
        _ => Disposition::Abort,
    }
}

/// The level of reporting for the given command-line switches.
pub fn verbosity(verbose: u8, quiet: bool) -> (level: Verbosity)
    ensures
        level == verbosity_of(verbose, quiet),
{
    if quiet {
        Verbosity::Error
    } else if verbose == 0 {
        Verbosity::Info
    } else if verbose == 1 {
        Verbosity::Debug
    } else {
        Verbosity::Trace
    }
}

/// A statement that fails does not keep the later ones from being executed:
/// whichever statements the destination refuses, every statement of the dump
/// is attempted.
pub proof fn lemma_every_statement_is_attempted(refused: Seq<bool>)
    ensures
        attempted(refused) == refused.len(),
    decreases refused.len(),
{
    if refused.len() > 0 {
        lemma_every_statement_is_attempted(refused.drop_first());
    }
}

} // verus!
