//! Decisions of the proxy's entry point: how a failed start ends the
//! process, and which task outcomes are reported.

use vstd::prelude::*;
use crate::error::{error_text, Error};
use crate::text::string_of;

verus! {

/// The outcome of one proxy task: `Err` when the task could not be joined
/// (with the reason), otherwise what the task returned.
pub type TaskOutcome = Result<Result<(), Error>, String>;

/// The text to report for a task outcome, when it is a failure.
pub open spec fn task_failure_text(t: TaskOutcome) -> Option<Seq<char>> {
    match t {
        Err(m) => Some(m@),
        Ok(Err(e)) => Some(error_text(e)),
        Ok(Ok(_)) => None,
    }
}

/// The texts of the failed outcomes, in order.
pub open spec fn failure_texts(ts: Seq<TaskOutcome>) -> Seq<Seq<char>>
    decreases ts.len(),
{
    if ts.len() == 0 {
        Seq::empty()
    } else {
        let rest = failure_texts(ts.drop_last());
        match task_failure_text(ts.last()) {
            Some(t) => rest.push(t),
            None => rest,
        }
    }
}

/// The messages to log, one per failed task, in the order of the tasks;
/// each is reported as a general failure.
pub fn log_errors(res: &[TaskOutcome]) -> (r: Vec<String>)
    ensures
        r@.map_values(|s: String| s@) == failure_texts(res@),
{
    let mut out: Vec<String> = Vec::new();
    let n = res.len();
    let mut i: usize = 0;
    while i < n
        invariant
            i <= n,
            n == res@.len(),
            out@.map_values(|s: String| s@) == failure_texts(res@.subrange(0, i as int)),
        decreases n - i,
    {
        let ghost prev = out@;
        assert(res@.subrange(0, i + 1).drop_last() =~= res@.subrange(0, i as int));
        match &res[i] {
            Err(m) => {
                out.push(string_of(m.as_str()));
            },
            Ok(Err(e)) => {
                out.push(e.message());
            },
            Ok(Ok(_)) => {},
        }
        assert(out@.map_values(|s: String| s@) =~= failure_texts(res@.subrange(0, i + 1)));
        i += 1;
    }
    assert(res@.subrange(0, n as int) =~= res@);
    out
}

/// The exit status of the process when the proxy could not start with
/// `err`: success when shutdown was requested (or only set-up was asked
/// for), failure otherwise.
pub fn startup_exit_code(err: &Error) -> (code: i32)
    ensures
        code == (if err is GlycerineShutdown {
            0i32
        } else {
            1i32
        }),
{
    match err {
        Error::GlycerineShutdown => 0,
        _ => 1,
    }
}

/// What the proxy does once its set-up is done: stop with a shutdown when
/// only set-up was asked for, otherwise carry on.
pub fn after_setup(setup_only: bool) -> (r: Result<(), Error>)
    ensures
        setup_only ==> (r matches Err(e) && e is GlycerineShutdown),
        !setup_only ==> r is Ok,
{
    if setup_only {
        Err(Error::GlycerineShutdown)
    } else {
        Ok(())
    }
}

} // verus!
