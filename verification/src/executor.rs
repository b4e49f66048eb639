//! The executor: the books of one run, and the decisions on what to
//! launch, what to retry and what to record.

use std::collections::VecDeque;
use vstd::prelude::*;
use crate::dispatch::{lemma_slot_at, slot_at, Action, Invocation, Phase, Progress, Slot};
use crate::error::Error;
use crate::groups::GroupMap;
use crate::plan::{
    flatten, flatten_plan, lemma_flatten, lemma_plan_keeps_expansions, lemma_positions_of_group,
    lemma_total_len_empty,
    lemma_total_len_update, lemma_total_len_zero, params_of_group, positions_of_group, rows,
    total_len, Job,
};
use crate::retry::{
    build_ns3_program, build_passes, build_rejection, execute_ns3_program, fails, fate,
    lemma_failures_are_never_accepted, lemma_settle_next, rejection, settle, Fate, Ruling,
};
use crate::settings::{at_least_one, widen};
use crate::sweep::{BuildCmd, BuildParam};
use crate::task::{Attempt, Task};

pub use crate::settings::{ConfigFormat, ExecutorBuilder, Settings, DEFAULT_RETRY_LIMIT};

verus! {

/// Runs the sweep of every configuration group: at most `task_concurrent`
/// invocations at a time, each task retried until `retry_limit` attempts
/// were made, and the record of every completed task kept under the name of
/// its group.
///
/// The executor does not run processes itself. It says what to do next
/// (`next_action`), is told how the build step ended (`build_finished`) and
/// how each attempt of a task ended (`attempt_finished`), and keeps the
/// books.
#[derive(Clone)]
pub struct Executor<T: Default + BuildParam<P>, P: BuildCmd> {
    config_path: String,
    config_format: ConfigFormat,
    ns3_path: String,
    task_concurrent: usize,
    retry_limit: u32,
    configs: GroupMap<T>,
    outputs: GroupMap<Vec<Task<P>>>,
    phase: Phase,
    queue: VecDeque<Job<P>>,
    running: Vec<Slot<P>>,
    launched: usize,
    completed: usize,
    plan: Ghost<Seq<Job<P>>>,
    origins: Ghost<Seq<Seq<int>>>,
    places: Ghost<Seq<int>>,
    history: Ghost<Seq<Seq<Attempt>>>,
}

impl<T: Default + BuildParam<P>, P: BuildCmd> Executor<T, P> {
    /// The resolved path of the configuration file.
    pub closed spec fn config_file(&self) -> Seq<char> {
        self.config_path@
    }

    /// The format of the configuration file.
    pub closed spec fn format(&self) -> ConfigFormat {
        self.config_format
    }

    /// The directory of the external tool.
    pub closed spec fn tool_dir(&self) -> Seq<char> {
        self.ns3_path@
    }

    /// The most invocations that may be under way at the same time.
    pub closed spec fn window(&self) -> nat {
        self.task_concurrent as nat
    }

    /// The most attempts that one task may take.
    pub closed spec fn attempts_allowed(&self) -> nat {
        self.retry_limit as nat
    }

    /// The names of the groups, in their order.
    pub closed spec fn groups(&self) -> Seq<Seq<char>> {
        self.configs.names()
    }

    /// The configurations of the groups, in the order of `groups`.
    pub closed spec fn group_configs(&self) -> Seq<T> {
        self.configs.values()
    }

    /// The records of the completed tasks of each group, in the order of
    /// `groups`.
    pub closed spec fn store(&self) -> Seq<Seq<Task<P>>> {
        rows(self.outputs.values())
    }

    /// Where the run stands.
    pub closed spec fn phase(&self) -> Phase {
        self.phase
    }

    /// The work of the whole run, in the order of launch. Empty until the
    /// build step has passed.
    pub closed spec fn plan(&self) -> Seq<Job<P>> {
        self.plan@
    }

    /// The jobs that wait to be launched, the next one first.
    pub closed spec fn pending(&self) -> Seq<Job<P>> {
        self.queue@
    }

    /// The invocations under way.
    pub closed spec fn in_flight(&self) -> Seq<Slot<P>> {
        self.running@
    }

    /// The number of the task that the record at position `j` of group `g`
    /// belongs to.
    pub closed spec fn origin(&self, g: int, j: int) -> int {
        self.origins@[g][j]
    }

    /// The position of the record of task number `k` among the records of
    /// its group, or a negative number while the task has no record.
    pub closed spec fn place(&self, k: int) -> int {
        self.places@[k]
    }

    /// How the attempts of each launched task ended, as far as they were
    /// reported and taken: one sequence for each task, in the order of the
    /// reports.
    pub closed spec fn reports(&self) -> Seq<Seq<Attempt>> {
        self.history@
    }

    /// How many tasks were launched so far.
    pub closed spec fn launched(&self) -> nat {
        self.launched as nat
    }

    /// How many tasks have completed so far.
    pub closed spec fn completed(&self) -> nat {
        self.completed as nat
    }

    /// The settings and the groups are those of `other`.
    pub open spec fn same_setup(&self, other: &Self) -> bool {
        &&& self.config_file() == other.config_file()
        &&& self.format() == other.format()
        &&& self.tool_dir() == other.tool_dir()
        &&& self.window() == other.window()
        &&& self.attempts_allowed() == other.attempts_allowed()
        &&& self.groups() == other.groups()
        &&& self.group_configs() == other.group_configs()
    }

    /// The books are in order. Every operation keeps them so;
    /// `lemma_books` says what that means.
    pub closed spec fn wf(&self) -> bool {
        &&& self.configs.wf()
        &&& self.outputs.wf()
        &&& self.outputs.names() == self.configs.names()
        &&& self.outputs.values().len() == self.configs.names().len()
        &&& self.task_concurrent >= 1
        &&& self.running@.len() <= self.task_concurrent
        &&& self.plan@.len() <= usize::MAX
        &&& self.plan@.len() == self.launched + self.queue@.len()
        &&& self.queue@ == self.plan@.skip(self.launched as int)
        &&& self.launched == self.completed + self.running@.len()
        &&& total_len(self.store()) == self.completed
        &&& forall|k: int|
            0 <= k < self.plan@.len() ==> (#[trigger] self.plan@[k]).group
                < self.configs.names().len()
        &&& forall|i: int|
            0 <= i < self.running@.len() ==> {
                let slot = #[trigger] self.running@[i];
                &&& slot.id < self.launched
                &&& self.plan@[slot.id as int].group == slot.group
                &&& self.plan@[slot.id as int].param == slot.param
                &&& slot.attempts >= 1
            }
        &&& forall|i: int, j: int|
            0 <= i < j < self.running@.len() ==> (#[trigger] self.running@[i]).id != (
            #[trigger] self.running@[j]).id
        &&& self.origins@.len() == self.store().len()
        &&& self.places@.len() == self.launched
        &&& forall|g: int|
            0 <= g < self.store().len() ==> (#[trigger] self.origins@[g]).len()
                == self.store()[g].len()
        &&& forall|g: int, j: int|
            0 <= g < self.store().len() && 0 <= j < self.store()[g].len() ==> {
                let task = #[trigger] self.store()[g][j];
                let k = self.origins@[g][j];
                &&& task.wf()
                &&& 0 <= k < self.launched
                &&& self.plan@[k].group == g
                &&& self.plan@[k].param == task.param
                &&& self.places@[k] == j
            }
        &&& forall|k: int|
            0 <= k < self.launched ==> {
                let j = #[trigger] self.places@[k];
                let g = self.plan@[k].group as int;
                if j >= 0 {
                    j < self.store()[g].len() && self.origins@[g][j] == k
                } else {
                    exists|i: int|
                        0 <= i < self.running@.len() && (#[trigger] self.running@[i]).id == k
                }
            }
        &&& forall|i: int|
            0 <= i < self.running@.len() ==> self.places@[(#[trigger] self.running@[i]).id as int]
                < 0
        &&& self.history@.len() == self.launched
        &&& forall|k: int|
            0 <= k < self.launched && self.places@[k] >= 0 ==> settle(
                1,
                self.retry_limit as nat,
                #[trigger] self.history@[k],
            ) == Some(Fate::Accept)
        &&& self.phase != Phase::Aborted ==> forall|i: int|
            0 <= i < self.running@.len() ==> {
                let slot = #[trigger] self.running@[i];
                &&& settle(1, self.retry_limit as nat, self.history@[slot.id as int]) is None
                &&& self.history@[slot.id as int].len() + 1 == slot.attempts
            }
        &&& match self.phase {
            Phase::Created => self.plan@.len() == 0,
            Phase::Dispatching => true,
            Phase::Finished => self.queue@.len() == 0 && self.running@.len() == 0,
            Phase::Aborted => self.running@.len() >= 1 || self.plan@.len() == 0,
        }
    }

    /// What it means that the books are in order.
    ///
    /// There is one list of records for each group. The window is at least
    /// one wide and never holds more invocations than it is wide. The plan
    /// is made of the tasks launched so far followed by those that wait, and
    /// every job belongs to a group. Every task launched has either
    /// completed or is under way; a task under way is the job of the plan
    /// with its number, and no two of them carry the same number. The
    /// store holds one record for each completed task; every record belongs
    /// to a successful attempt and to a launched job of its group, which
    /// has this record and no other. A launched task without a record is
    /// under way. The attempts reported for a task with a record settle the
    /// task as accepted under the retry policy; those reported for a task
    /// under way have not settled it, and the attempt under way is the next
    /// one.
    pub proof fn lemma_books(&self)
        requires
            self.wf(),
        ensures
            self.store().len() == self.groups().len(),
            self.group_configs().len() == self.groups().len(),
            crate::groups::distinct(self.groups()),
            1 <= self.window() <= usize::MAX,
            self.attempts_allowed() <= u32::MAX,
            self.in_flight().len() <= self.window(),
            self.plan().len() == self.launched() + self.pending().len(),
            self.pending() == self.plan().skip(self.launched() as int),
            self.launched() == self.completed() + self.in_flight().len(),
            total_len(self.store()) == self.completed(),
            forall|k: int|
                0 <= k < self.plan().len() ==> (#[trigger] self.plan()[k]).group
                    < self.groups().len(),
            forall|i: int|
                0 <= i < self.in_flight().len() ==> {
                    let slot = #[trigger] self.in_flight()[i];
                    &&& slot.id < self.launched()
                    &&& self.plan()[slot.id as int].group == slot.group
                    &&& self.plan()[slot.id as int].param == slot.param
                    &&& slot.attempts >= 1
                },
            forall|i: int, j: int|
                0 <= i < j < self.in_flight().len() ==> (#[trigger] self.in_flight()[i]).id != (
                #[trigger] self.in_flight()[j]).id,
            forall|g: int, j: int|
                0 <= g < self.store().len() && 0 <= j < self.store()[g].len() ==> {
                    let task = #[trigger] self.store()[g][j];
                    let k = self.origin(g, j);
                    &&& task.wf()
                    &&& 0 <= k < self.launched()
                    &&& self.plan()[k].group == g
                    &&& self.plan()[k].param == task.param
                    &&& self.place(k) == j
                },
            forall|k: int|
                0 <= k < self.launched() ==> {
                    let j = #[trigger] self.place(k);
                    let g = self.plan()[k].group as int;
                    if j >= 0 {
                        j < self.store()[g].len() && self.origin(g, j) == k
                    } else {
                        slot_at(self.in_flight(), k as usize) >= 0
                    }
                },
            self.reports().len() == self.launched(),
            forall|k: int|
                0 <= k < self.launched() && self.place(k) >= 0 ==> settle(
                    1,
                    self.attempts_allowed(),
                    #[trigger] self.reports()[k],
                ) == Some(Fate::Accept),
            self.phase() != Phase::Aborted ==> forall|i: int|
                0 <= i < self.in_flight().len() ==> {
                    let slot = #[trigger] self.in_flight()[i];
                    &&& settle(1, self.attempts_allowed(), self.reports()[slot.id as int]) is None
                    &&& self.reports()[slot.id as int].len() + 1 == slot.attempts
                },
            self.phase() == Phase::Created ==> self.plan().len() == 0,
            self.phase() == Phase::Finished ==> self.pending().len() == 0 && self.in_flight().len()
                == 0,
    {
        self.configs.lemma_same_len();
        assert forall|k: int| 0 <= k < self.launched() && (#[trigger] self.place(k)) < 0 implies slot_at(
            self.in_flight(),
            k as usize,
        ) >= 0 by {
            lemma_slot_at(self.in_flight(), k as usize);
        }
    }

    /// The window is never exceeded: whatever was launched and reported so
    /// far, no more invocations are under way than `task_concurrent` allows.
    pub proof fn lemma_window_is_respected(&self)
        requires
            self.wf(),
        ensures
            self.in_flight().len() <= self.window(),
    {
    }

    /// A run that a task has aborted is short of at least one record: the
    /// store holds fewer records than the run has tasks.
    pub proof fn lemma_abort_leaves_a_task_out(&self)
        requires
            self.wf(),
            self.phase() == Phase::Aborted,
            self.plan().len() > 0,
        ensures
            total_len(self.store()) + 1 <= self.plan().len(),
    {
    }

    /// A run that has finished has launched and completed every task of its
    /// plan, and holds as many records as the plan has tasks.
    pub proof fn lemma_finished_run_is_whole(&self)
        requires
            self.wf(),
            self.phase() == Phase::Finished,
        ensures
            self.launched() == self.plan().len(),
            self.completed() == self.plan().len(),
            total_len(self.store()) == self.plan().len(),
    {
    }

    /// In a run that has finished, every task of the plan has its record:
    /// it stands among the records of the group of the task, and carries
    /// the parameter set of the task.
    pub proof fn lemma_finished_run_records_every_task(&self, k: int)
        requires
            self.wf(),
            self.phase() == Phase::Finished,
            0 <= k < self.plan().len(),
        ensures
            0 <= self.plan()[k].group < self.store().len(),
            0 <= self.place(k) < self.store()[self.plan()[k].group as int].len(),
            self.origin(self.plan()[k].group as int, self.place(k)) == k,
            self.store()[self.plan()[k].group as int][self.place(k)].param == self.plan()[k].param,
            self.store()[self.plan()[k].group as int][self.place(k)].wf(),
    {
        let g = self.plan@[k].group as int;
        let j = self.places@[k];
        assert(j >= 0);
        assert(self.store()[g][j].wf());
    }

    /// In a run that has finished, every group holds as many records as the
    /// plan holds parameter sets for it.
    pub proof fn lemma_finished_run_counts_each_group(&self, group: usize)
        requires
            self.wf(),
            self.phase() == Phase::Finished,
            group < self.store().len(),
        ensures
            self.store()[group as int].len() == params_of_group(self.plan(), group).len(),
    {
        let g = group as int;
        let records = vstd::set_lib::set_int_range(0, self.store()[g].len() as int);
        let positions = positions_of_group(self.plan@, group);
        let origin = |j: int| self.origins@[g][j];
        vstd::set_lib::lemma_int_range(0, self.store()[g].len() as int);
        lemma_positions_of_group(self.plan@, group);
        assert forall|j: int| records.contains(j) implies {
            &&& positions.contains(#[trigger] origin(j))
            &&& self.places@[origin(j)] == j
        } by {
            assert(self.store()[g][j].wf());
        }
        assert forall|k: int| positions.contains(k) implies records.map(origin).contains(k) by {
            let j = self.places@[k];
            assert(j >= 0);
            assert(records.contains(j) && origin(j) == k);
        }
        assert(records.map(origin) =~= positions);
        assert(vstd::relations::injective_on(origin, records));
        vstd::set_lib::lemma_map_size(records, positions, origin);
    }

    /// In a run that has finished and whose plan was made of `expansions`,
    /// every group holds as many records as its expansion has parameter
    /// sets.
    pub proof fn lemma_finished_run_matches_expansions(
        &self,
        expansions: Seq<Vec<P>>,
        group: usize,
    )
        requires
            self.wf(),
            self.phase() == Phase::Finished,
            expansions.len() == self.groups().len(),
            self.plan() == flatten(rows(expansions)),
            group < expansions.len(),
        ensures
            group < self.store().len(),
            self.store()[group as int].len() == expansions[group as int]@.len(),
    {
        self.configs.lemma_same_len();
        lemma_plan_keeps_expansions(rows(expansions), group);
        self.lemma_finished_run_counts_each_group(group);
    }

    /// What the report of one more attempt makes of a task under way: taken
    /// together with the attempts reported before, the attempt settles the
    /// task as its own fate says, or leaves the task under way where that
    /// fate is `Again`.
    pub proof fn lemma_report_settles(&self, i: int, next: Attempt)
        requires
            self.wf(),
            self.phase() == Phase::Dispatching,
            0 <= i < self.in_flight().len(),
        ensures
            self.in_flight()[i].id < self.reports().len(),
            settle(
                1,
                self.attempts_allowed(),
                self.reports()[self.in_flight()[i].id as int].push(next),
            ) == match fate(self.in_flight()[i].attempts as nat, self.attempts_allowed(), next) {
                Fate::Again => None,
                other => Some(other),
            },
    {
        let slot = self.running@[i];
        lemma_settle_next(1, self.retry_limit as nat, self.history@[slot.id as int], next);
    }

    /// A run finishes only where every task was accepted: in a run that has
    /// finished, the attempts reported for each task of the plan settle the
    /// task as accepted under the retry policy.
    pub proof fn lemma_finished_run_accepted_every_task(&self, k: int)
        requires
            self.wf(),
            self.phase() == Phase::Finished,
            0 <= k < self.plan().len(),
        ensures
            k < self.reports().len(),
            settle(1, self.attempts_allowed(), self.reports()[k]) == Some(Fate::Accept),
    {
        assert(self.places@[k] >= 0);
    }

    /// A run with a task whose every attempt fails does not finish, however
    /// the other tasks fare and in whatever order the attempts end.
    pub proof fn lemma_failing_task_keeps_run_from_finishing(&self, k: int)
        requires
            self.wf(),
            0 <= k < self.plan().len(),
            k < self.launched() ==> forall|i: int|
                0 <= i < self.reports()[k].len() ==> fails(#[trigger] self.reports()[k][i]),
        ensures
            self.phase() != Phase::Finished,
    {
        if self.phase() == Phase::Finished {
            self.lemma_finished_run_accepted_every_task(k);
            lemma_failures_are_never_accepted(1, self.retry_limit as nat, self.history@[k]);
        }
    }

    /// No task is recorded twice: two records that differ in their group or
    /// in their position belong to two tasks.
    pub proof fn lemma_records_are_distinct(&self, g1: int, j1: int, g2: int, j2: int)
        requires
            self.wf(),
            0 <= g1 < self.store().len(),
            0 <= j1 < self.store()[g1].len(),
            0 <= g2 < self.store().len(),
            0 <= j2 < self.store()[g2].len(),
            g1 != g2 || j1 != j2,
        ensures
            self.origin(g1, j1) != self.origin(g2, j2),
    {
        assert(self.store()[g1][j1].wf() && self.store()[g2][j2].wf());
        assert(self.plan()[self.origin(g1, j1)].group == g1 && self.place(self.origin(g1, j1)) == j1);
        assert(self.plan()[self.origin(g2, j2)].group == g2 && self.place(self.origin(g2, j2)) == j2);
    }

    /// No task that is under way has a record, and no task that has a
    /// record is under way.
    pub proof fn lemma_task_under_way_has_no_record(&self, i: int)
        requires
            self.wf(),
            0 <= i < self.in_flight().len(),
        ensures
            self.in_flight()[i].id < self.launched(),
            self.place(self.in_flight()[i].id as int) < 0,
    {
    }

    /// An executor with the given settings and groups, before anything has
    /// happened.
    ///
    /// A window admits at least one invocation: asked for a width of 0, the
    /// executor keeps a width of 1.
    pub fn new(
        config_path: String,
        config_format: ConfigFormat,
        ns3_path: String,
        task_concurrent: usize,
        retry_limit: u32,
        configs: GroupMap<T>,
    ) -> (exe: Self)
        requires
            configs.wf(),
        ensures
            exe.wf(),
            exe.config_file() == config_path@,
            exe.format() == config_format,
            exe.tool_dir() == ns3_path@,
            exe.window() == at_least_one(task_concurrent),
            exe.attempts_allowed() == retry_limit,
            exe.groups() == configs.names(),
            exe.group_configs() == configs.values(),
            exe.phase() == Phase::Created,
            exe.plan().len() == 0,
            exe.pending().len() == 0,
            exe.in_flight().len() == 0,
            exe.launched() == 0,
            exe.completed() == 0,
            exe.reports().len() == 0,
            exe.store().len() == configs.names().len(),
            forall|g: int| 0 <= g < exe.store().len() ==> (#[trigger] exe.store()[g]).len() == 0,
    {
        let task_concurrent = widen(task_concurrent);
        let outputs: GroupMap<Vec<Task<P>>> = configs.empty_lists();
        let exe = Executor {
            config_path,
            config_format,
            ns3_path,
            task_concurrent,
            retry_limit,
            configs,
            outputs,
            phase: Phase::Created,
            queue: VecDeque::new(),
            running: Vec::new(),
            launched: 0,
            completed: 0,
            plan: Ghost(Seq::empty()),
            origins: Ghost(Seq::new(configs.names().len(), |g: int| Seq::empty())),
            places: Ghost(Seq::empty()),
            history: Ghost(Seq::empty()),
        };
        proof {
            lemma_total_len_empty(exe.store());
            assert(exe.queue@ =~= exe.plan@.skip(0));
        }
        exe
    }

    /// Whether the next job may be launched now: the run is dispatching, a
    /// job waits, and the window has room.
    pub open spec fn can_launch(&self) -> bool {
        &&& self.phase() == Phase::Dispatching
        &&& self.pending().len() > 0
        &&& self.in_flight().len() < self.window()
    }

    /// Launches the next job with the command line `command`.
    ///
    /// The job leaves the queue and takes a slot in the window, under the
    /// next free task number and with its first attempt under way.
    pub fn launch(&mut self, command: String) -> (started: (usize, Invocation))
        requires
            old(self).wf(),
            old(self).can_launch(),
        ensures
            final(self).wf(),
            final(self).same_setup(old(self)),
            final(self).phase() == Phase::Dispatching,
            final(self).plan() == old(self).plan(),
            final(self).store() == old(self).store(),
            final(self).completed() == old(self).completed(),
            final(self).launched() == old(self).launched() + 1,
            final(self).pending() == old(self).pending().drop_first(),
            final(self).reports() == old(self).reports().push(Seq::empty()),
            started.0 == old(self).launched(),
            started.1.runs(old(self).tool_dir(), command@),
            final(self).in_flight() == old(self).in_flight().push(
                Slot {
                    id: started.0,
                    group: old(self).pending()[0].group,
                    param: old(self).pending()[0].param,
                    command,
                    attempts: 1,
                },
            ),
    {
        let invocation = Invocation::run(self.ns3_path.as_str(), command.as_str());
        let job = self.queue.pop_front().unwrap();
        let id = self.launched;
        assert(job == self.plan@[id as int]);
        self.running.push(Slot { id, group: job.group, param: job.param, command, attempts: 1 });
        self.launched = id + 1;
        self.places = Ghost(self.places@.push(-1));
        self.history = Ghost(self.history@.push(Seq::empty()));
        proof {
            assert(self.queue@ =~= self.plan@.skip(self.launched as int));
            assert(self.queue@ =~= old(self).queue@.drop_first());
            let last = self.running@.len() - 1;
            assert(self.running@[last].id == id);
            assert forall|k: int| 0 <= k < self.launched && (#[trigger] self.places@[k]) < 0 implies (
            exists|i: int| 0 <= i < self.running@.len() && (#[trigger] self.running@[i]).id == k) by {
                if k < id {
                    assert(old(self).places@[k] < 0);
                    let i = choose|i: int|
                        0 <= i < old(self).running@.len() && (#[trigger] old(self).running@[i]).id
                            == k;
                    assert(self.running@[i].id == k);
                }
            }
        }
        (id, invocation)
    }

    /// Says what the driver of the run has to do next.
    ///
    /// Before the build step was reported: run the build step. While the
    /// run is dispatching: launch the next job where one waits and the
    /// window has room; otherwise wait for an invocation under way; and
    /// where nothing waits and nothing is under way, the run has finished.
    /// After the run has finished or was aborted there is nothing to do.
    ///
    /// The command of a launch is what `build_cmd` gave for the parameter
    /// set of the job. It is asked for once and kept in the slot of the task.
    pub fn next_action(&mut self) -> (action: Action)
        requires
            old(self).wf(),
        ensures
            final(self).wf(),
            final(self).same_setup(old(self)),
            final(self).plan() == old(self).plan(),
            final(self).store() == old(self).store(),
            final(self).completed() == old(self).completed(),
            match action {
                Action::Build(invocation) => {
                    &&& old(self).phase() == Phase::Created
                    &&& invocation.builds(old(self).tool_dir())
                    &&& *final(self) == *old(self)
                },
                Action::Launch { id, invocation } => {
                    &&& old(self).can_launch()
                    &&& final(self).phase() == Phase::Dispatching
                    &&& id == old(self).launched()
                    &&& final(self).launched() == old(self).launched() + 1
                    &&& final(self).pending() == old(self).pending().drop_first()
                    &&& final(self).in_flight().len() == old(self).in_flight().len() + 1
                    &&& final(self).in_flight().drop_last() == old(self).in_flight()
                    &&& final(self).in_flight().last().id == id
                    &&& final(self).in_flight().last().group == old(self).pending()[0].group
                    &&& final(self).in_flight().last().param == old(self).pending()[0].param
                    &&& final(self).in_flight().last().attempts == 1
                    &&& final(self).reports() == old(self).reports().push(Seq::empty())
                    &&& call_ensures(
                        P::build_cmd,
                        (&old(self).pending()[0].param,),
                        final(self).in_flight().last().command,
                    )
                    &&& invocation.runs(old(self).tool_dir(), final(self).in_flight().last().command@)
                },
                Action::Wait => {
                    &&& old(self).phase() == Phase::Dispatching
                    &&& !old(self).can_launch()
                    &&& old(self).in_flight().len() > 0
                    &&& *final(self) == *old(self)
                },
                Action::Done => {
                    &&& old(self).phase() != Phase::Created
                    &&& old(self).phase() == Phase::Dispatching ==> {
                        &&& old(self).pending().len() == 0
                        &&& old(self).in_flight().len() == 0
                        &&& final(self).phase() == Phase::Finished
                    }
                    &&& old(self).phase() != Phase::Dispatching ==> *final(self) == *old(self)
                    &&& final(self).pending() == old(self).pending()
                    &&& final(self).in_flight() == old(self).in_flight()
                    &&& final(self).launched() == old(self).launched()
                    &&& final(self).reports() == old(self).reports()
                },
            },
    {
        match self.phase {
            Phase::Created => Action::Build(Invocation::build(self.ns3_path.as_str())),
            Phase::Dispatching => {
                if self.queue.len() > 0 && self.running.len() < self.task_concurrent {
                    let command = self.queue[0].param.build_cmd();
                    let (id, invocation) = self.launch(command);
                    assert(self.running@.drop_last() =~= old(self).running@);
                    Action::Launch { id, invocation }
                } else if self.running.len() > 0 {
                    Action::Wait
                } else {
                    self.phase = Phase::Finished;
                    Action::Done
                }
            },
            Phase::Finished => Action::Done,
            Phase::Aborted => Action::Done,
        }
    }

    /// Begins the dispatch with the given expansions, one for each group
    /// in the order of `groups`.
    ///
    /// The plan of the run is the expansions flattened: group after group,
    /// and inside a group in the order of its expansion.
    pub fn start_with(&mut self, expansions: Vec<Vec<P>>)
        requires
            old(self).wf(),
            old(self).phase() == Phase::Created,
            expansions.len() == old(self).groups().len(),
        ensures
            final(self).wf(),
            final(self).same_setup(old(self)),
            final(self).phase() == Phase::Dispatching,
            final(self).plan() == flatten(rows(expansions@)),
            final(self).pending() == final(self).plan(),
            final(self).in_flight() == old(self).in_flight(),
            final(self).store() == old(self).store(),
            final(self).launched() == old(self).launched(),
            final(self).completed() == old(self).completed(),
            final(self).reports() == old(self).reports(),
    {
        proof {
            lemma_flatten(rows(expansions@));
            lemma_total_len_zero(self.store());
        }
        let queue = flatten_plan(expansions);
        assert(queue@.len() == queue.len());
        self.plan = Ghost(queue@);
        self.queue = queue;
        self.phase = Phase::Dispatching;
        proof {
            assert(self.queue@ =~= self.plan@.skip(self.launched as int));
        }
    }

    /// Takes the report of how the build step ended.
    ///
    /// Before anything else was reported, a build that passed opens the
    /// dispatch: `build_param` is asked once for the expansion of each
    /// group, and what it gave, flattened group after group, is the plan of
    /// the run. A build that did not pass aborts the run before any task is
    /// launched. Later reports change nothing.
    pub fn build_finished(&mut self, outcome: Attempt) -> (gate: Result<(), Error>)
        requires
            old(self).wf(),
        ensures
            final(self).wf(),
            final(self).same_setup(old(self)),
            final(self).store() == old(self).store(),
            final(self).in_flight() == old(self).in_flight(),
            final(self).launched() == old(self).launched(),
            final(self).completed() == old(self).completed(),
            final(self).reports() == old(self).reports(),
            old(self).phase() != Phase::Created ==> gate is Ok && *final(self) == *old(self),
            old(self).phase() == Phase::Created ==> match gate {
                Ok(_) => {
                    &&& build_passes(outcome)
                    &&& final(self).phase() == Phase::Dispatching
                    &&& final(self).pending() == final(self).plan()
                    &&& exists|expansions: Seq<Vec<P>>|
                        {
                            &&& expansions.len() == old(self).groups().len()
                            &&& final(self).plan() == flatten(#[trigger] rows(expansions))
                            &&& forall|g: int|
                                0 <= g < expansions.len() ==> call_ensures(
                                    T::build_param,
                                    (&old(self).group_configs()[g],),
                                    #[trigger] expansions[g],
                                )
                        }
                },
                Err(error) => {
                    &&& !build_passes(outcome)
                    &&& build_rejection(outcome, error)
                    &&& final(self).phase() == Phase::Aborted
                    &&& final(self).plan() == old(self).plan()
                    &&& final(self).pending() == old(self).pending()
                },
            },
    {
        match self.phase {
            Phase::Created => {},
            _ => {
                return Ok(());
            },
        }
        match build_ns3_program(outcome) {
            Err(error) => {
                self.phase = Phase::Aborted;
                Err(error)
            },
            Ok(_) => {
                let mut expansions: Vec<Vec<P>> = Vec::new();
                let mut i: usize = 0;
                while i < self.configs.len()
                    invariant
                        i <= self.configs.names().len(),
                        expansions.len() == i,
                        forall|g: int|
                            0 <= g < i ==> call_ensures(
                                T::build_param,
                                (&self.configs.values()[g],),
                                #[trigger] expansions@[g],
                            ),
                    decreases self.configs.names().len() - i,
                {
                    expansions.push(self.configs.value_at(i).build_param());
                    i = i + 1;
                }
                let ghost expanded = expansions@;
                self.start_with(expansions);
                assert(self.plan() == flatten(rows(expanded)));
                Ok(())
            },
        }
    }

    /// Takes the report of how one attempt of task number `id` ended.
    ///
    /// A report for a task that is not under way, or that comes while the
    /// run is not dispatching, is dropped. Otherwise the retry policy
    /// decides. Where another attempt is due, the task keeps its slot and
    /// the same invocation is to be started again. Where the attempt
    /// succeeded, the task leaves the window and its record is added to the
    /// records of its group. Where the task has failed for good, the run is
    /// aborted with the error of that task, and the store stays as it is.
    pub fn attempt_finished(&mut self, id: usize, outcome: Attempt) -> (progress: Result<
        Progress,
        Error,
    >)
        requires
            old(self).wf(),
        ensures
            final(self).wf(),
            final(self).same_setup(old(self)),
            final(self).plan() == old(self).plan(),
            final(self).pending() == old(self).pending(),
            final(self).launched() == old(self).launched(),
            ({
                let k = slot_at(old(self).in_flight(), id);
                if old(self).phase() != Phase::Dispatching || k < 0 {
                    &&& progress matches Ok(Progress::Ignored)
                    &&& *final(self) == *old(self)
                } else {
                    let slot = old(self).in_flight()[k];
                    let g = slot.group as int;
                    &&& final(self).reports() == old(self).reports().update(
                        id as int,
                        old(self).reports()[id as int].push(outcome),
                    )
                    &&& match fate(slot.attempts as nat, old(self).attempts_allowed(), outcome) {
                        Fate::Again => {
                            &&& progress matches Ok(Progress::Retry(invocation))
                            &&& invocation.runs(old(self).tool_dir(), slot.command@)
                            &&& final(self).phase() == Phase::Dispatching
                            &&& final(self).store() == old(self).store()
                            &&& final(self).completed() == old(self).completed()
                            &&& final(self).in_flight() == old(self).in_flight().update(
                                k,
                                Slot {
                                    id: slot.id,
                                    group: slot.group,
                                    param: slot.param,
                                    command: slot.command,
                                    attempts: (slot.attempts + 1) as u32,
                                },
                            )
                        },
                        Fate::Accept => {
                            &&& progress matches Ok(Progress::Recorded)
                            &&& final(self).phase() == Phase::Dispatching
                            &&& final(self).completed() == old(self).completed() + 1
                            &&& final(self).in_flight() == old(self).in_flight().remove(k)
                            &&& 0 <= g < old(self).store().len()
                            &&& final(self).store().len() == old(self).store().len()
                            &&& forall|h: int|
                                0 <= h < old(self).store().len() && h != g ==> (
                                #[trigger] final(self).store()[h]) == old(self).store()[h]
                            &&& final(self).store()[g].len() == old(self).store()[g].len() + 1
                            &&& final(self).store()[g].drop_last() == old(self).store()[g]
                            &&& final(self).origin(g, old(self).store()[g].len() as int) == id
                            &&& final(self).store()[g].last().param == slot.param
                            &&& outcome == Attempt::Exited(final(self).store()[g].last().output)
                            &&& final(self).store()[g].last().wf()
                        },
                        rejected => {
                            &&& progress matches Err(error)
                            &&& rejection(outcome, rejected, error)
                            &&& final(self).phase() == Phase::Aborted
                            &&& final(self).store() == old(self).store()
                            &&& final(self).completed() == old(self).completed()
                            &&& final(self).in_flight() == old(self).in_flight()
                        },
                    }
                }
            }),
    {
        match self.phase {
            Phase::Dispatching => {},
            _ => {
                return Ok(Progress::Ignored);
            },
        }
        let k = match self.find_slot(id) {
            Some(k) => k,
            None => {
                return Ok(Progress::Ignored);
            },
        };
        let attempts = self.running[k].attempts;
        proof {
            lemma_slot_at(self.running@, id);
            lemma_settle_next(1, self.retry_limit as nat, self.history@[id as int], outcome);
        }
        self.history = Ghost(
            self.history@.update(id as int, self.history@[id as int].push(outcome)),
        );
        match execute_ns3_program(attempts, self.retry_limit, outcome) {
            Ruling::Again => {
                let invocation = Invocation::run(
                    self.ns3_path.as_str(),
                    self.running[k].command.as_str(),
                );
                self.running[k].attempts = attempts + 1;
                proof {
                    let slot = old(self).running@[k as int];
                    assert(self.running@ =~= old(self).running@.update(
                        k as int,
                        Slot {
                            id: slot.id,
                            group: slot.group,
                            param: slot.param,
                            command: slot.command,
                            attempts: (slot.attempts + 1) as u32,
                        },
                    ));
                    assert forall|i: int| 0 <= i < self.running@.len() implies (
                    #[trigger] self.running@[i]).id == old(self).running@[i].id by {}
                    assert forall|n: int|
                        0 <= n < self.launched && (#[trigger] self.places@[n]) < 0 implies (exists|
                        i: int,
                    | 0 <= i < self.running@.len() && (#[trigger] self.running@[i]).id == n) by {
                        let was = choose|i: int|
                            0 <= i < old(self).running@.len() && (
                            #[trigger] old(self).running@[i]).id == n;
                        assert(self.running@[was].id == n);
                    }
                }
                Ok(Progress::Retry(invocation))
            },
            Ruling::Accept { output, stdout, stderr } => {
                let slot = self.running.remove(k);
                let g = slot.group;
                let task = Task { param: slot.param, output, stdout, stderr };
                assert(g < self.outputs.values().len()) by {
                    assert(old(self).running@[k as int] == slot);
                    assert(old(self).plan@[slot.id as int].group == g);
                }
                let ghost before = self.store();
                let ghost row = before[g as int].push(task);
                let ghost at = before[g as int].len() as int;
                self.outputs.value_at_mut(g).push(task);
                self.completed = self.completed + 1;
                self.origins = Ghost(
                    self.origins@.update(g as int, self.origins@[g as int].push(slot.id as int)),
                );
                self.places = Ghost(self.places@.update(slot.id as int, at));
                proof {
                    lemma_slot_at(old(self).running@, id);
                    assert(self.store() =~= before.update(g as int, row));
                    lemma_total_len_update(before, g as int, row);
                    assert(row.drop_last() =~= before[g as int]);
                    assert(old(self).running@[k as int] == slot);
                    assert forall|h: int, j: int|
                        0 <= h < self.store().len() && 0 <= j < self.store()[h].len() implies {
                        let t = #[trigger] self.store()[h][j];
                        let o = self.origins@[h][j];
                        &&& t.wf()
                        &&& 0 <= o < self.launched
                        &&& self.plan@[o].group == h
                        &&& self.plan@[o].param == t.param
                        &&& self.places@[o] == j
                    } by {
                        if h == g && j == at {
                        } else {
                            assert(self.store()[h][j] == before[h][j]);
                            assert(old(self).store()[h][j] == before[h][j]);
                        }
                    }
                    assert forall|i: int| 0 <= i < self.running@.len() implies self.places@[(
                    #[trigger] self.running@[i]).id as int] < 0 by {
                        let was = if i < k { i } else { i + 1 };
                        assert(self.running@[i] == old(self).running@[was]);
                    }
                    assert forall|n: int| 0 <= n < self.launched implies {
                        let j = #[trigger] self.places@[n];
                        let h = self.plan@[n].group as int;
                        if j >= 0 {
                            j < self.store()[h].len() && self.origins@[h][j] == n
                        } else {
                            exists|i: int|
                                0 <= i < self.running@.len() && (#[trigger] self.running@[i]).id
                                    == n
                        }
                    } by {
                        if n != slot.id {
                            let j = old(self).places@[n];
                            if j < 0 {
                                let was = choose|i: int|
                                    0 <= i < old(self).running@.len() && (
                                    #[trigger] old(self).running@[i]).id == n;
                                let now = if was < k { was } else { was - 1 };
                                assert(self.running@[now] == old(self).running@[was]);
                            }
                        }
                    }
                }
                Ok(Progress::Recorded)
            },
            Ruling::Reject(error) => {
                self.phase = Phase::Aborted;
                Err(error)
            },
        }
    }

    /// The position of the slot of task number `id`, where the task is
    /// under way.
    fn find_slot(&self, id: usize) -> (found: Option<usize>)
        ensures
            match found {
                Some(k) => k == slot_at(self.in_flight(), id) && k < self.in_flight().len(),
                None => slot_at(self.in_flight(), id) == -1,
            },
    {
        let ghost slots = self.running@;
        let mut i: usize = self.running.len();
        assert(slots.take(slots.len() as int) == slots);
        while i > 0
            invariant
                i <= self.running.len(),
                slots == self.running@,
                slot_at(slots, id) == slot_at(slots.take(i as int), id),
            decreases i,
        {
            let ghost head = slots.take(i as int);
            assert(head.last() == slots[i - 1]);
            assert(head.drop_last() == slots.take(i - 1));
            if self.running[i - 1].id == id {
                return Some(i - 1);
            }
            i = i - 1;
        }
        assert(slots.take(0).len() == 0);
        None
    }

    /// The resolved path of the configuration file.
    pub fn get_config_path(&self) -> (path: &str)
        ensures
            path@ == self.config_file(),
    {
        self.config_path.as_str()
    }

    /// The format of the configuration file.
    pub fn get_config_format(&self) -> (format: &ConfigFormat)
        ensures
            *format == self.format(),
    {
        &self.config_format
    }

    /// The directory of the external tool.
    pub fn get_ns3_path(&self) -> (path: &str)
        ensures
            path@ == self.tool_dir(),
    {
        self.ns3_path.as_str()
    }

    /// The most invocations that may be under way at the same time.
    pub fn get_task_concurrent(&self) -> (n: usize)
        ensures
            n == self.window(),
    {
        self.task_concurrent
    }

    /// The most attempts that one task may take.
    pub fn get_retry_limit(&self) -> (n: u32)
        ensures
            n == self.attempts_allowed(),
    {
        self.retry_limit
    }

    /// The configuration of every group.
    pub fn get_configs(&self) -> (configs: &GroupMap<T>)
        ensures
            configs.names() == self.groups(),
            configs.values() == self.group_configs(),
    {
        &self.configs
    }

    /// The records of the completed tasks of every group.
    pub fn get_outputs(&self) -> (outputs: &GroupMap<Vec<Task<P>>>)
        ensures
            self.wf() ==> outputs.names() == self.groups(),
            rows(outputs.values()) == self.store(),
    {
        &self.outputs
    }

    /// Where the run stands.
    pub fn get_phase(&self) -> (phase: Phase)
        ensures
            phase == self.phase(),
    {
        self.phase
    }

    /// How many invocations are under way.
    pub fn in_flight_count(&self) -> (n: usize)
        ensures
            n == self.in_flight().len(),
    {
        self.running.len()
    }

    /// How many tasks were launched so far.
    pub fn launched_count(&self) -> (n: usize)
        ensures
            n == self.launched(),
    {
        self.launched
    }

    /// How many tasks have completed so far.
    pub fn completed_count(&self) -> (n: usize)
        ensures
            n == self.completed(),
    {
        self.completed
    }

    /// How many tasks the run holds in all; 0 until the build step has passed.
    pub fn total_count(&self) -> (n: usize)
        requires
            self.wf(),
        ensures
            n == self.plan().len(),
    {
        self.launched + self.queue.len()
    }
}

} // verus!
