//! Judging a joined child process by its exit status.
//!
//! Joining a process is fatal on a non-success status: the engine aborts
//! the whole host program with a message naming the numeric exit code, or
//! `None` where the process was killed by a signal and no code exists.

use vstd::prelude::*;

use crate::numfmt::{dec_i32, spec_dec_signed};
use crate::strkit::push_str;

verus! {

/// What waiting on a child reports: whether it succeeded, and its exit
/// code if one exists (a process killed by a signal has none).
#[derive(Clone, Copy, PartialEq, Eq, Debug)]
pub struct ExitStatus {
    pub success: bool,
    pub code: Option<i32>,
}

/// A child exited with a non-success status.
#[derive(Clone, Copy, PartialEq, Eq, Debug)]
pub struct ExitError {
    pub code: Option<i32>,
}

/// The abort message for a non-success exit: the numeric code, or
/// `unknown` for a process killed by a signal, which leaves none.
pub open spec fn spec_exit_message(code: Option<i32>) -> Seq<char> {
    match code {
        Some(c) => "exit code "@ + spec_dec_signed(c as int),
        None => "exit code unknown"@,
    }
}

impl ExitError {
    /// The one-line abort message naming the exit code.
    pub fn message(&self) -> (m: String)
        ensures
            m@ == spec_exit_message(self.code),
    {
        match self.code {
            Some(c) => {
                let mut m = "exit code ".to_owned();
                let digits = dec_i32(c);
                push_str(&mut m, digits.as_str());
                proof {
                    assert(m@ =~= "exit code "@ + spec_dec_signed(c as int));
                }
                m
            },
            None => "exit code unknown".to_owned(),
        }
    }
}

/// Judge a joined process: success is `Ok`, anything else is an error
/// carrying the exit code for the abort message.
pub fn pjoin_verdict(status: &ExitStatus) -> (r: Result<(), ExitError>)
    ensures
        status.success <==> r is Ok,
        match r {
            Ok(u) => true,
            Err(e) => e.code == status.code,
        },
{
    if status.success {
        Ok(())
    } else {
        Err(ExitError { code: status.code })
    }
}

} // verus!
