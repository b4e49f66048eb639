//! The vocabulary shared by the executor and whoever drives it: what to
//! run, what is under way, and what to do next.

use vstd::prelude::*;
use vstd::string::StringExecFns;
use crate::paths::{waf_in, waf_path};

verus! {

/// One invocation that is under way.
#[derive(Debug, Clone)]
pub struct Slot<P> {
    /// The number of the task: tasks are numbered in the order of their launch.
    pub id: usize,
    /// The position of the group the task belongs to.
    pub group: usize,
    /// The parameter set of the task.
    pub param: P,
    /// The command line built for the task, the same for every attempt.
    pub command: String,
    /// The number of attempts made, the one under way included.
    pub attempts: u32,
}

/// How to call the entry point of the external tool.
#[derive(Debug, Clone)]
pub struct Invocation {
    /// The path of the entry point.
    pub program: String,
    /// The arguments, in order.
    pub args: Vec<String>,
    /// The working directory.
    pub dir: String,
}

impl Invocation {
    /// The arguments as a sequence of texts.
    pub open spec fn arg_texts(self) -> Seq<Seq<char>> {
        Seq::new(self.args@.len(), |i: int| self.args@[i]@)
    }

    /// The build step of the tool that lives in `ns3_path`.
    pub open spec fn builds(self, ns3_path: Seq<char>) -> bool {
        &&& self.program@ == waf_in(ns3_path)
        &&& self.arg_texts() == seq!["build"@]
        &&& self.dir@ == ns3_path
    }

    /// One run of `command` by the tool that lives in `ns3_path`.
    pub open spec fn runs(self, ns3_path: Seq<char>, command: Seq<char>) -> bool {
        &&& self.program@ == waf_in(ns3_path)
        &&& self.arg_texts() == seq!["--run"@, command]
        &&& self.dir@ == ns3_path
    }

    /// The invocation of the build step of the tool that lives in `ns3_path`.
    pub fn build(ns3_path: &str) -> (inv: Invocation)
        ensures
            inv.builds(ns3_path@),
    {
        let mut args: Vec<String> = Vec::new();
        args.push(String::from_str("build"));
        let inv = Invocation {
            program: waf_path(ns3_path),
            args,
            dir: String::from_str(ns3_path),
        };
        assert(inv.arg_texts() =~= seq!["build"@]);
        inv
    }

    /// The invocation that runs `command` with the tool that lives in `ns3_path`.
    pub fn run(ns3_path: &str, command: &str) -> (inv: Invocation)
        ensures
            inv.runs(ns3_path@, command@),
    {
        let mut args: Vec<String> = Vec::new();
        args.push(String::from_str("--run"));
        args.push(String::from_str(command));
        let inv = Invocation {
            program: waf_path(ns3_path),
            args,
            dir: String::from_str(ns3_path),
        };
        assert(inv.arg_texts() =~= seq!["--run"@, command@]);
        inv
    }
}

/// Where a run stands.
#[derive(Debug, Clone, Copy, PartialEq, Eq, Structural)]
pub enum Phase {
    /// Nothing has happened yet: the build step is still to be run.
    Created,
    /// The build step passed; tasks are launched and their results collected.
    Dispatching,
    /// Every task was launched and has completed.
    Finished,
    /// The build step or a task failed for good. Nothing further is launched
    /// and nothing further is recorded.
    Aborted,
}

/// What the driver of a run has to do next.
#[derive(Debug, Clone)]
pub enum Action {
    /// Run the build step and report how it ended.
    Build(Invocation),
    /// Start the invocation of task number `id` and go on asking.
    Launch { id: usize, invocation: Invocation },
    /// Wait until one of the invocations under way ends, and report it.
    Wait,
    /// There is nothing left to do.
    Done,
}

/// What came of the report of one attempt.
#[derive(Debug, Clone)]
pub enum Progress {
    /// The attempt failed: start the invocation again, as it is.
    Retry(Invocation),
    /// The task completed and its record was stored.
    Recorded,
    /// The report belongs to no invocation under way and was dropped.
    Ignored,
}

/// The position of the slot of task number `id`, or -1 where the task is
/// not under way.
pub open spec fn slot_at<P>(slots: Seq<Slot<P>>, id: usize) -> int
    decreases slots.len(),
{
    if slots.len() == 0 {
        -1
    } else if slots.last().id == id {
        slots.len() - 1
    } else {
        slot_at(slots.drop_last(), id)
    }
}

/// `slot_at` finds a task exactly where its slot stands.
pub proof fn lemma_slot_at<P>(slots: Seq<Slot<P>>, id: usize)
    ensures
        -1 <= slot_at(slots, id) < slots.len(),
        slot_at(slots, id) >= 0 ==> slots[slot_at(slots, id)].id == id,
        slot_at(slots, id) < 0 ==> forall|i: int| 0 <= i < slots.len() ==> slots[i].id != id,
    decreases slots.len(),
{
    if slots.len() > 0 && slots.last().id != id {
        lemma_slot_at(slots.drop_last(), id);
        assert forall|i: int| 0 <= i < slots.len() && slot_at(slots, id) < 0 implies slots[i].id
            != id by {
            if i < slots.len() - 1 {
                assert(slots.drop_last()[i] == slots[i]);
            }
        }
    }
}

} // verus!
