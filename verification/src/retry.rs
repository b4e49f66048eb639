//! The retry policy of one task, and the decision on the build step that precedes a run.
//!
//! Both are decisions on how a process ended. The caller runs the process,
//! says how it ended, and does what the decision says.

use vstd::prelude::*;
use vstd::utf8::{decode_utf8, valid_utf8};
use crate::error::Error;
use crate::task::{Attempt, ProcessOutput};
use crate::text::{decode_text, join3};

verus! {

/// What the retry policy makes of one attempt.
pub enum Fate {
    /// The attempt failed and another one is allowed.
    Again,
    /// The attempt succeeded and its output is text.
    Accept,
    /// The process could not be started: fatal, never retried.
    SpawnFail,
    /// The attempt failed and the limit allows no further one.
    Exhausted,
    /// The attempt succeeded but its output is not text.
    Garbled,
}

/// The fate of attempt number `attempt` (counted from 1) under `limit`.
///
/// A failing attempt is retried while fewer than `limit` attempts were made,
/// so with a limit of 0 or 1 the first failure is final.
pub open spec fn fate(attempt: nat, limit: nat, outcome: Attempt) -> Fate {
    match outcome {
        Attempt::SpawnFailed(_) => Fate::SpawnFail,
        Attempt::Exited(output) => if output.success {
            if output.is_text() {
                Fate::Accept
            } else {
                Fate::Garbled
            }
        } else if attempt < limit {
            Fate::Again
        } else {
            Fate::Exhausted
        },
    }
}

/// The explanation of a process that could not be started.
pub open spec fn spawn_failure_text(why: Seq<char>) -> Seq<char> {
    "Failed to execute NS3 program. Err: "@ + why + "."@
}

/// The explanation of an output that is not text.
pub open spec fn garbled_text() -> Seq<char> {
    "The output of the NS3 program is not valid UTF-8."@
}

/// The explanation of a failed build, which quotes the standard error of the
/// build step where that is text.
pub open spec fn build_failure_text(stderr: Seq<u8>) -> Seq<char> {
    "Failed to build NS3 program. Err: \n"@ + (if valid_utf8(stderr) {
        decode_utf8(stderr)
    } else {
        "<not valid UTF-8>"@
    }) + ".\n"@
}

/// Whether `error` is the error that ends a task whose attempt ended as
/// `outcome` with the fate `fate`.
pub open spec fn rejection(outcome: Attempt, fate: Fate, error: Error) -> bool {
    match fate {
        Fate::SpawnFail => {
            &&& error matches Error::ExecuteFail(msg)
            &&& outcome matches Attempt::SpawnFailed(why)
            &&& msg@ == spawn_failure_text(why@)
        },
        Fate::Exhausted => error == Error::RetryLimitExceed,
        Fate::Garbled => error matches Error::ExecuteFail(msg) && msg@ == garbled_text(),
        _ => false,
    }
}

/// Whether `error` is the error that stops a run whose build step ended as
/// `outcome`. There is none where the build succeeded.
pub open spec fn build_rejection(outcome: Attempt, error: Error) -> bool {
    match outcome {
        Attempt::SpawnFailed(why) => {
            &&& error matches Error::ExecuteFail(msg)
            &&& msg@ == spawn_failure_text(why@)
        },
        Attempt::Exited(output) => {
            &&& !output.success
            &&& error matches Error::BuildFail(msg)
            &&& msg@ == build_failure_text(output.stderr@)
        },
    }
}

/// The build step ran and reported success.
pub open spec fn build_passes(outcome: Attempt) -> bool {
    outcome matches Attempt::Exited(output) && output.success
}

/// What the caller has to do after one attempt.
#[derive(Debug, Clone)]
pub enum Ruling {
    /// Run the identical command once more.
    Again,
    /// The task is done: the output of the successful attempt and its two
    /// streams as text.
    Accept { output: ProcessOutput, stdout: String, stderr: String },
    /// The task has failed for good.
    Reject(Error),
}

/// Decides what follows attempt number `attempt` (counted from 1) of one task.
///
/// A process that could not be started fails the task at once. A process
/// that ended in failure is run again until `retry_limit` attempts were
/// made. A process that succeeded completes the task, unless its output
/// cannot be read as text.
pub fn execute_ns3_program(attempt: u32, retry_limit: u32, outcome: Attempt) -> (ruling: Ruling)
    ensures
        match fate(attempt as nat, retry_limit as nat, outcome) {
            Fate::Again => ruling is Again,
            Fate::Accept => {
                &&& ruling matches Ruling::Accept { output, stdout, stderr }
                &&& outcome == Attempt::Exited(output)
                &&& stdout@ == decode_utf8(output.stdout@)
                &&& stderr@ == decode_utf8(output.stderr@)
            },
            rejected => {
                &&& ruling matches Ruling::Reject(error)
                &&& rejection(outcome, rejected, error)
            },
        },
{
    match outcome {
        Attempt::SpawnFailed(why) => {
            let msg = join3("Failed to execute NS3 program. Err: ", why.as_str(), ".");
            Ruling::Reject(Error::ExecuteFail(msg))
        },
        Attempt::Exited(output) => {
            if !output.success {
                if attempt < retry_limit {
                    Ruling::Again
                } else {
                    Ruling::Reject(Error::RetryLimitExceed)
                }
            } else {
                let stdout = decode_text(&output.stdout);
                let stderr = decode_text(&output.stderr);
                match (stdout, stderr) {
                    (Some(stdout), Some(stderr)) => Ruling::Accept { output, stdout, stderr },
                    _ => {
                        let msg = "The output of the NS3 program is not valid UTF-8.".to_string();
                        Ruling::Reject(Error::ExecuteFail(msg))
                    },
                }
            }
        },
    }
}

/// Decides whether the run may begin, given how the build step ended.
///
/// The build passes exactly when its process ran and reported success. A
/// failure is final: the build is never run a second time.
pub fn build_ns3_program(outcome: Attempt) -> (gate: Result<(), Error>)
    ensures
        match gate {
            Ok(_) => build_passes(outcome),
            Err(error) => !build_passes(outcome) && build_rejection(outcome, error),
        },
{
    match outcome {
        Attempt::SpawnFailed(why) => {
            let msg = join3("Failed to execute NS3 program. Err: ", why.as_str(), ".");
            Err(Error::ExecuteFail(msg))
        },
        Attempt::Exited(output) => {
            if output.success {
                Ok(())
            } else {
                let msg = match decode_text(&output.stderr) {
                    Some(text) => join3("Failed to build NS3 program. Err: \n", text.as_str(), ".\n"),
                    None => join3("Failed to build NS3 program. Err: \n", "<not valid UTF-8>", ".\n"),
                };
                Err(Error::BuildFail(msg))
            }
        },
    }
}

/// The attempt ran and ended in failure.
pub open spec fn fails(outcome: Attempt) -> bool {
    outcome matches Attempt::Exited(output) && !output.success
}

/// The attempt ran, succeeded and left text behind.
pub open spec fn succeeds(outcome: Attempt) -> bool {
    outcome matches Attempt::Exited(output) && output.success && output.is_text()
}

/// How a task ends when its attempts, starting with attempt number
/// `attempt`, end as `outcomes` say one after the other: the first fate that
/// is not `Again`, or `None` while the task still waits for an attempt.
pub open spec fn settle(attempt: nat, limit: nat, outcomes: Seq<Attempt>) -> Option<Fate>
    decreases outcomes.len(),
{
    if outcomes.len() == 0 {
        None
    } else {
        match fate(attempt, limit, outcomes[0]) {
            Fate::Again => settle(attempt + 1, limit, outcomes.drop_first()),
            other => Some(other),
        }
    }
}

/// What one more attempt makes of a task that still waits for one: while
/// the attempts so far, counted from attempt number `attempt`, have not
/// settled the task, the next outcome settles it as its own fate says, or
/// leaves it waiting where that fate is `Again`.
pub proof fn lemma_settle_next(attempt: nat, limit: nat, outcomes: Seq<Attempt>, next: Attempt)
    requires
        settle(attempt, limit, outcomes) is None,
    ensures
        settle(attempt, limit, outcomes.push(next)) == match fate(
            attempt + outcomes.len(),
            limit,
            next,
        ) {
            Fate::Again => None,
            other => Some(other),
        },
    decreases outcomes.len(),
{
    let longer = outcomes.push(next);
    if outcomes.len() == 0 {
        assert(longer.drop_first() =~= Seq::<Attempt>::empty());
        assert(settle(attempt + 1, limit, longer.drop_first()) is None);
    } else {
        assert(longer.drop_first() =~= outcomes.drop_first().push(next));
        assert(longer[0] == outcomes[0]);
        lemma_settle_next(attempt + 1, limit, outcomes.drop_first(), next);
    }
}

/// A task whose attempts all fail is never accepted, however many attempts
/// it takes and whatever the limit.
pub proof fn lemma_failures_are_never_accepted(attempt: nat, limit: nat, outcomes: Seq<Attempt>)
    requires
        forall|i: int| 0 <= i < outcomes.len() ==> fails(#[trigger] outcomes[i]),
    ensures
        settle(attempt, limit, outcomes) != Some(Fate::Accept),
    decreases outcomes.len(),
{
    if outcomes.len() > 0 {
        assert(fails(outcomes[0]));
        let rest = outcomes.drop_first();
        assert forall|i: int| 0 <= i < rest.len() implies fails(#[trigger] rest[i]) by {
            assert(rest[i] == outcomes[i + 1]);
        }
        lemma_failures_are_never_accepted(attempt + 1, limit, rest);
    }
}

/// A run of failures followed by a success is accepted when the limit
/// allows that many attempts, counted from attempt number `attempt`.
proof fn lemma_settle_accepts(attempt: nat, limit: nat, outcomes: Seq<Attempt>)
    requires
        outcomes.len() >= 1,
        attempt + outcomes.len() - 1 <= limit,
        forall|i: int| 0 <= i < outcomes.len() - 1 ==> fails(#[trigger] outcomes[i]),
        succeeds(outcomes.last()),
    ensures
        settle(attempt, limit, outcomes) == Some(Fate::Accept),
    decreases outcomes.len(),
{
    if outcomes.len() > 1 {
        lemma_settle_accepts(attempt + 1, limit, outcomes.drop_first());
    }
}

/// A run of failures exhausts the limit as soon as it holds as many
/// failures as the limit allows attempts, counted from attempt number
/// `attempt`; what follows is never looked at.
proof fn lemma_settle_exhausts(attempt: nat, limit: nat, outcomes: Seq<Attempt>)
    requires
        attempt >= 1,
        attempt <= limit,
        outcomes.len() > limit - attempt,
        forall|i: int| 0 <= i <= limit - attempt ==> fails(#[trigger] outcomes[i]),
    ensures
        settle(attempt, limit, outcomes) == Some(Fate::Exhausted),
    decreases outcomes.len(),
{
    if attempt < limit {
        lemma_settle_exhausts(attempt + 1, limit, outcomes.drop_first());
    }
}

/// A task whose invocation fails `k - 1` times and then succeeds, where
/// `k` is the length of `outcomes`, is accepted under a retry limit of `k`.
pub proof fn lemma_retry_limit_reached_by_success(outcomes: Seq<Attempt>)
    requires
        outcomes.len() >= 1,
        forall|i: int| 0 <= i < outcomes.len() - 1 ==> fails(#[trigger] outcomes[i]),
        succeeds(outcomes.last()),
    ensures
        settle(1, outcomes.len(), outcomes) == Some(Fate::Accept),
{
    lemma_settle_accepts(1, outcomes.len(), outcomes);
}

/// A task whose invocation fails `k - 1` times and then succeeds, where
/// `k >= 2` is the length of `outcomes`, exhausts a retry limit of `k - 1`:
/// the success is never reached, and nothing is accepted.
pub proof fn lemma_retry_limit_too_small(outcomes: Seq<Attempt>)
    requires
        outcomes.len() >= 2,
        forall|i: int| 0 <= i < outcomes.len() - 1 ==> fails(#[trigger] outcomes[i]),
        succeeds(outcomes.last()),
    ensures
        settle(1, (outcomes.len() - 1) as nat, outcomes) == Some(Fate::Exhausted),
{
    lemma_settle_exhausts(1, (outcomes.len() - 1) as nat, outcomes);
}

/// Under a limit of 0 or 1 the first failing attempt is final.
pub proof fn lemma_single_failure_is_final(limit: nat, outcome: Attempt)
    requires
        limit <= 1,
        fails(outcome),
    ensures
        fate(1, limit, outcome) == Fate::Exhausted,
{
}

} // verus!
