//! The interactive picker protocol.
//!
//! A picker is an outside process: the surrounding binary spawns it,
//! writes it the option list, and reads back the chosen line. This
//! module holds the verified halves of that exchange: building the
//! newline-separated option input, and the error taxonomy of a run.

use vstd::prelude::*;

use crate::text::{join_char, join_lines};

verus! {

/// Why running an outside process failed. The carried strings describe
/// the underlying failure.
#[derive(Debug)]
pub enum RunCommandError {
    /// Spawning, writing, or waiting failed.
    IOError(String),
    /// The child's input stream could not be opened.
    FailedToOpenStdin,
    /// The child's output was not UTF-8.
    Utf8Error(String),
    /// Any other failure, described in words.
    Other(String),
}

/// Mathematical model of a run failure.
#[verifier::ext_equal]
pub ghost enum RunCommandErrorView {
    IOError(Seq<char>),
    FailedToOpenStdin,
    Utf8Error(Seq<char>),
    Other(Seq<char>),
}

impl View for RunCommandError {
    type V = RunCommandErrorView;

    open spec fn view(&self) -> RunCommandErrorView {
        match self {
            RunCommandError::IOError(s) => RunCommandErrorView::IOError(s@),
            RunCommandError::FailedToOpenStdin => RunCommandErrorView::FailedToOpenStdin,
            RunCommandError::Utf8Error(s) => RunCommandErrorView::Utf8Error(s@),
            RunCommandError::Other(s) => RunCommandErrorView::Other(s@),
        }
    }
}

impl Clone for RunCommandError {
    fn clone(&self) -> (res: Self)
        ensures
            res@ == self@,
    {
        match self {
            RunCommandError::IOError(s) => RunCommandError::IOError(s.clone()),
            RunCommandError::FailedToOpenStdin => RunCommandError::FailedToOpenStdin,
            RunCommandError::Utf8Error(s) => RunCommandError::Utf8Error(s.clone()),
            RunCommandError::Other(s) => RunCommandError::Other(s.clone()),
        }
    }
}

/// The input stream a picker reads: the options joined by newlines.
pub fn picker_input(options: &Vec<String>) -> (r: String)
    ensures
        r@ == join_char(options.deep_view(), '\n'),
{
    join_lines(options)
}

} // verus!
