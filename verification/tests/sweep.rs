use ns3_parallel::dispatch::{Action, Invocation, Phase, Progress};
use ns3_parallel::executor::{ConfigFormat, Settings};
use ns3_parallel::groups::GroupMap;
use ns3_parallel::task::{Attempt, ProcessOutput};
use ns3_parallel::{BuildCmd, BuildParam, Error, Executor, ExecutorBuilder};

#[derive(Debug, Clone)]
struct Config {
    sim_time: u32,
    app_name: String,
    policy: Vec<u32>,
}

impl Default for Config {
    fn default() -> Self {
        Config { sim_time: 100, app_name: "ns3-tcp-bbr".to_string(), policy: vec![1, 2, 3] }
    }
}

#[derive(Debug, Clone, PartialEq)]
struct Param {
    sim_time: u32,
    app_name: String,
    policy: u32,
}

impl BuildParam<Param> for Config {
    fn build_param(&self) -> Vec<Param> {
        let mut params = Vec::new();
        for policy in &self.policy {
            params.push(Param {
                sim_time: self.sim_time,
                app_name: self.app_name.clone(),
                policy: *policy,
            });
        }
        params
    }
}

impl BuildCmd for Param {
    fn build_cmd(&self) -> String {
        format!(
            "simple-ns3 --app-name={} --sim-time={} --policy={}",
            self.app_name, self.sim_time, self.policy
        )
    }
}

fn config(policy: Vec<u32>) -> Config {
    Config { sim_time: 100, app_name: "x".to_string(), policy }
}

fn success(stdout: &str) -> Attempt {
    Attempt::Exited(ProcessOutput {
        success: true,
        code: Some(0),
        stdout: stdout.as_bytes().to_vec(),
        stderr: Vec::new(),
    })
}

fn failure() -> Attempt {
    Attempt::Exited(ProcessOutput {
        success: false,
        code: Some(1),
        stdout: Vec::new(),
        stderr: b"boom".to_vec(),
    })
}

fn settings(task_concurrent: usize, retry_limit: u32) -> Settings {
    ExecutorBuilder::new()
        .config_path("config.toml")
        .config_format(ConfigFormat::Toml)
        .ns3_path("ns-3.33")
        .task_concurrent(task_concurrent)
        .retry_limit(retry_limit)
        .settings()
}

fn executor(
    task_concurrent: usize,
    retry_limit: u32,
    groups: Vec<(&str, Config)>,
) -> Executor<Config, Param> {
    let mut configs = GroupMap::new();
    for (name, config) in groups {
        configs.insert(name.to_string(), config);
    }
    settings(task_concurrent, retry_limit)
        .build(
            Ok("/work/config.toml".to_string()),
            Ok("/opt/ns-3.33/waf".to_string()),
            Ok(configs),
        )
        .unwrap()
}

struct Run {
    result: Result<(), Error>,
    most_in_flight: usize,
    launches: Vec<(usize, Invocation)>,
    attempts: usize,
}

// Drives a run to its end. `answer` plays the external program: it is told
// the command and the number of the attempt and says how the attempt ended.
// `newest_first` picks which of the invocations under way ends next.
fn drive(
    exe: &mut Executor<Config, Param>,
    build: Attempt,
    newest_first: bool,
    answer: &mut dyn FnMut(&str, u32) -> Attempt,
) -> Run {
    let mut active: Vec<(usize, Invocation, u32)> = Vec::new();
    let mut run = Run { result: Ok(()), most_in_flight: 0, launches: Vec::new(), attempts: 0 };
    let mut build = Some(build);
    loop {
        match exe.next_action() {
            Action::Build(invocation) => {
                assert_eq!(invocation.args, vec!["build".to_string()]);
                if let Err(error) = exe.build_finished(build.take().unwrap()) {
                    run.result = Err(error);
                    break;
                }
            }
            Action::Launch { id, invocation } => {
                run.launches.push((id, invocation.clone()));
                active.push((id, invocation, 1));
                run.most_in_flight = run.most_in_flight.max(active.len());
                assert_eq!(exe.in_flight_count(), active.len());
            }
            Action::Wait => {
                let at = if newest_first { active.len() - 1 } else { 0 };
                let (id, invocation, attempt) = active.remove(at);
                run.attempts += 1;
                let outcome = answer(&invocation.args[1], attempt);
                match exe.attempt_finished(id, outcome) {
                    Ok(Progress::Retry(again)) => {
                        assert_eq!(again.args, invocation.args);
                        assert_eq!(again.program, invocation.program);
                        assert_eq!(again.dir, invocation.dir);
                        active.push((id, again, attempt + 1));
                    }
                    Ok(Progress::Recorded) => {}
                    Ok(Progress::Ignored) => panic!("a report of a task under way was dropped"),
                    Err(error) => {
                        run.result = Err(error);
                        break;
                    }
                }
            }
            Action::Done => break,
        }
    }
    run
}

fn recorded(exe: &Executor<Config, Param>) -> usize {
    let outputs = exe.get_outputs();
    let mut n = 0;
    for i in 0..outputs.len() {
        n += outputs.value_at(i).len();
    }
    n
}

#[test]
fn end_to_end_three_policies() {
    let mut exe = executor(2, 1, vec![("groupA", config(vec![1, 2, 3]))]);
    let run = drive(&mut exe, success(""), false, &mut |command, _| success(command));
    assert!(run.result.is_ok());
    assert_eq!(exe.get_phase(), Phase::Finished);
    let tasks = exe.get_outputs().get("groupA").unwrap();
    assert_eq!(tasks.len(), 3);
    let mut policies: Vec<u32> = tasks.iter().map(|t| t.param.policy).collect();
    policies.sort();
    assert_eq!(policies, vec![1, 2, 3]);
    for task in tasks {
        assert_eq!(task.param.sim_time, 100);
        assert_eq!(task.param.app_name, "x");
        assert_eq!(
            task.read_stdout(),
            format!("simple-ns3 --app-name=x --sim-time=100 --policy={}", task.param.policy)
        );
        assert!(task.output.success);
    }
    assert!(run.most_in_flight <= 2);
    assert_eq!(exe.launched_count(), 3);
    assert_eq!(exe.completed_count(), 3);
    assert_eq!(exe.total_count(), 3);
}

#[test]
fn expansion_gives_one_task_per_value() {
    for k in 0..6u32 {
        let values: Vec<u32> = (0..k).map(|v| 10 * v + 7).collect();
        let mut exe = executor(4, 1, vec![("sweep", config(values.clone()))]);
        let run = drive(&mut exe, success(""), false, &mut |_, _| success(""));
        assert!(run.result.is_ok());
        assert_eq!(exe.total_count(), k as usize);
        assert_eq!(run.launches.len(), k as usize);
        let ids: Vec<usize> = run.launches.iter().map(|l| l.0).collect();
        assert_eq!(ids, (0..k as usize).collect::<Vec<usize>>());
        let commands: Vec<String> = run.launches.iter().map(|l| l.1.args[1].clone()).collect();
        let expected: Vec<String> = values
            .iter()
            .map(|v| format!("simple-ns3 --app-name=x --sim-time=100 --policy={}", v))
            .collect();
        assert_eq!(commands, expected);
        let tasks = exe.get_outputs().get("sweep").unwrap();
        let found: Vec<u32> = tasks.iter().map(|t| t.param.policy).collect();
        assert_eq!(found, values);
    }
}

#[test]
fn command_is_built_once_and_kept_for_every_attempt() {
    let param = Param { sim_time: 5, app_name: "a b".to_string(), policy: 9 };
    assert_eq!(param.build_cmd(), param.clone().build_cmd());
    assert_eq!(param.build_cmd(), "simple-ns3 --app-name=a b --sim-time=5 --policy=9");

    let mut exe = executor(1, 3, vec![("g", config(vec![4]))]);
    let mut seen: Vec<String> = Vec::new();
    let run = drive(&mut exe, success(""), false, &mut |command, attempt| {
        seen.push(command.to_string());
        if attempt < 3 {
            failure()
        } else {
            success("")
        }
    });
    assert!(run.result.is_ok());
    assert_eq!(seen.len(), 3);
    assert_eq!(seen[0], "simple-ns3 --app-name=x --sim-time=100 --policy=4");
    assert_eq!(seen[1], seen[0]);
    assert_eq!(seen[2], seen[0]);
}

#[test]
fn invocation_shape() {
    let mut exe = executor(1, 1, vec![("g", config(vec![4]))]);
    match exe.next_action() {
        Action::Build(invocation) => {
            assert_eq!(invocation.program, "/opt/ns-3.33/waf");
            assert_eq!(invocation.args, vec!["build".to_string()]);
            assert_eq!(invocation.dir, "/opt/ns-3.33");
        }
        other => panic!("unexpected action {:?}", other),
    }
    exe.build_finished(success("")).unwrap();
    match exe.next_action() {
        Action::Launch { id, invocation } => {
            assert_eq!(id, 0);
            assert_eq!(invocation.program, "/opt/ns-3.33/waf");
            assert_eq!(
                invocation.args,
                vec![
                    "--run".to_string(),
                    "simple-ns3 --app-name=x --sim-time=100 --policy=4".to_string()
                ]
            );
            assert_eq!(invocation.dir, "/opt/ns-3.33");
        }
        other => panic!("unexpected action {:?}", other),
    }
}

#[test]
fn window_is_never_exceeded() {
    for window in 1..6usize {
        for size in 0..12u32 {
            for newest_first in [false, true] {
                let mut exe = executor(
                    window,
                    2,
                    vec![
                        ("a", config((0..size).collect())),
                        ("b", config((0..size / 2).collect())),
                    ],
                );
                let run = drive(&mut exe, success(""), newest_first, &mut |_, attempt| {
                    if attempt == 1 {
                        failure()
                    } else {
                        success("")
                    }
                });
                assert!(run.result.is_ok());
                let total = (size + size / 2) as usize;
                assert!(run.most_in_flight <= window);
                assert_eq!(run.most_in_flight, window.min(total));
                assert_eq!(recorded(&exe), total);
                assert_eq!(run.attempts, 2 * total);
            }
        }
    }
}

#[test]
fn window_waits_when_full() {
    let mut exe = executor(2, 1, vec![("g", config(vec![1, 2, 3]))]);
    assert!(matches!(exe.next_action(), Action::Build(_)));
    assert!(matches!(exe.next_action(), Action::Build(_)));
    exe.build_finished(success("")).unwrap();
    assert_eq!(exe.get_phase(), Phase::Dispatching);
    assert!(matches!(exe.next_action(), Action::Launch { id: 0, .. }));
    assert!(matches!(exe.next_action(), Action::Launch { id: 1, .. }));
    assert!(matches!(exe.next_action(), Action::Wait));
    assert!(matches!(exe.next_action(), Action::Wait));
    assert_eq!(exe.in_flight_count(), 2);
    assert!(matches!(exe.attempt_finished(1, success("one")), Ok(Progress::Recorded)));
    assert_eq!(exe.in_flight_count(), 1);
    assert!(matches!(exe.next_action(), Action::Launch { id: 2, .. }));
    assert!(matches!(exe.next_action(), Action::Wait));
    assert!(matches!(exe.attempt_finished(0, success("zero")), Ok(Progress::Recorded)));
    assert!(matches!(exe.next_action(), Action::Wait));
    assert!(matches!(exe.attempt_finished(2, success("two")), Ok(Progress::Recorded)));
    assert!(matches!(exe.next_action(), Action::Done));
    assert_eq!(exe.get_phase(), Phase::Finished);
    assert!(matches!(exe.next_action(), Action::Done));
    let tasks = exe.get_outputs().get("g").unwrap();
    let order: Vec<(u32, &str)> = tasks.iter().map(|t| (t.param.policy, t.read_stdout())).collect();
    assert_eq!(order, vec![(2, "one"), (1, "zero"), (3, "two")]);
}

#[test]
fn retry_succeeds_when_the_limit_is_reached() {
    for k in 1..6u32 {
        let mut exe = executor(2, k, vec![("g", config(vec![1]))]);
        let run = drive(&mut exe, success(""), false, &mut |_, attempt| {
            if attempt < k {
                failure()
            } else {
                success("done")
            }
        });
        assert!(run.result.is_ok());
        assert_eq!(run.attempts, k as usize);
        let tasks = exe.get_outputs().get("g").unwrap();
        assert_eq!(tasks.len(), 1);
        assert_eq!(tasks[0].read_stdout(), "done");
        assert_eq!(tasks[0].param, Param { sim_time: 100, app_name: "x".to_string(), policy: 1 });
    }
}

#[test]
fn retry_fails_when_the_limit_is_too_small() {
    for k in 2..6u32 {
        let mut exe = executor(2, k - 1, vec![("g", config(vec![1]))]);
        let run = drive(&mut exe, success(""), false, &mut |_, attempt| {
            if attempt < k {
                failure()
            } else {
                success("done")
            }
        });
        assert!(matches!(run.result, Err(Error::RetryLimitExceed)));
        assert_eq!(run.attempts, (k - 1) as usize);
        assert_eq!(exe.get_outputs().get("g").unwrap().len(), 0);
        assert_eq!(exe.get_phase(), Phase::Aborted);
    }
}

#[test]
fn limit_of_zero_or_one_makes_the_first_failure_final() {
    for limit in 0..2u32 {
        let mut exe = executor(2, limit, vec![("g", config(vec![1]))]);
        let run = drive(&mut exe, success(""), false, &mut |_, _| failure());
        assert!(matches!(run.result, Err(Error::RetryLimitExceed)));
        assert_eq!(run.attempts, 1);
        assert_eq!(recorded(&exe), 0);

        let mut exe = executor(2, limit, vec![("g", config(vec![1]))]);
        let run = drive(&mut exe, success(""), false, &mut |_, _| success("fine"));
        assert!(run.result.is_ok());
        assert_eq!(recorded(&exe), 1);
    }
}

#[test]
fn fast_abort_keeps_partial_results() {
    for newest_first in [false, true] {
        for window in 1..5usize {
            let mut exe = executor(
                window,
                2,
                vec![("a", config(vec![1, 2, 13, 4])), ("b", config(vec![5, 6]))],
            );
            let run = drive(&mut exe, success(""), newest_first, &mut |command, _| {
                if command.ends_with("--policy=13") {
                    failure()
                } else {
                    success("")
                }
            });
            assert!(matches!(run.result, Err(Error::RetryLimitExceed)));
            assert_eq!(exe.get_phase(), Phase::Aborted);
            let total = exe.total_count();
            assert_eq!(total, 6);
            assert!(recorded(&exe) <= total - 1);
            assert_eq!(recorded(&exe), exe.completed_count());
            for i in 0..exe.get_outputs().len() {
                for task in exe.get_outputs().value_at(i) {
                    assert_ne!(task.param.policy, 13);
                }
            }
            let before = recorded(&exe);
            assert!(matches!(exe.next_action(), Action::Done));
            for id in 0..total {
                assert!(matches!(exe.attempt_finished(id, success("late")), Ok(Progress::Ignored)));
            }
            assert_eq!(recorded(&exe), before);
        }
    }
}

#[test]
fn spawn_failure_is_fatal_and_not_retried() {
    let mut exe = executor(2, 5, vec![("g", config(vec![1, 2]))]);
    let run = drive(&mut exe, success(""), false, &mut |_, _| {
        Attempt::SpawnFailed("Os { code: 2, kind: NotFound }".to_string())
    });
    match run.result {
        Err(Error::ExecuteFail(msg)) => assert_eq!(
            msg,
            "Failed to execute NS3 program. Err: Os { code: 2, kind: NotFound }."
        ),
        other => panic!("unexpected result {:?}", other),
    }
    assert_eq!(run.attempts, 1);
    assert_eq!(recorded(&exe), 0);
}

#[test]
fn output_that_is_not_text_is_an_error() {
    let mut exe = executor(1, 5, vec![("g", config(vec![1]))]);
    let run = drive(&mut exe, success(""), false, &mut |_, _| {
        Attempt::Exited(ProcessOutput {
            success: true,
            code: Some(0),
            stdout: vec![0x66, 0xff, 0x6f],
            stderr: Vec::new(),
        })
    });
    match run.result {
        Err(Error::ExecuteFail(msg)) => {
            assert_eq!(msg, "The output of the NS3 program is not valid UTF-8.")
        }
        other => panic!("unexpected result {:?}", other),
    }
    assert_eq!(recorded(&exe), 0);
}

#[test]
fn output_is_decoded_as_text() {
    let mut exe = executor(1, 1, vec![("g", config(vec![1]))]);
    let run = drive(&mut exe, success(""), false, &mut |_, _| {
        Attempt::Exited(ProcessOutput {
            success: true,
            code: Some(0),
            stdout: "gr\u{fc}\u{df}e \u{2713}".as_bytes().to_vec(),
            stderr: b"warn".to_vec(),
        })
    });
    assert!(run.result.is_ok());
    let task = &exe.get_outputs().get("g").unwrap()[0];
    assert_eq!(task.read_stdout(), "gr\u{fc}\u{df}e \u{2713}");
    assert_eq!(task.read_stderr(), "warn");
    assert_eq!(task.read(), ("gr\u{fc}\u{df}e \u{2713}", "warn"));
    assert_eq!(task.read_raw_stdout(), "gr\u{fc}\u{df}e \u{2713}".as_bytes().to_vec());
    assert_eq!(task.read_raw_stderr(), b"warn".to_vec());
    assert_eq!(task.read_raw(), ("gr\u{fc}\u{df}e \u{2713}".as_bytes().to_vec(), b"warn".to_vec()));
    assert_eq!(task.output.code, Some(0));
}

#[test]
fn failed_build_aborts_before_any_launch() {
    let mut exe = executor(2, 1, vec![("g", config(vec![1, 2]))]);
    let run = drive(&mut exe, failure(), false, &mut |_, _| panic!("a task was launched"));
    match run.result {
        Err(Error::BuildFail(msg)) => {
            assert_eq!(msg, "Failed to build NS3 program. Err: \nboom.\n")
        }
        other => panic!("unexpected result {:?}", other),
    }
    assert!(run.launches.is_empty());
    assert_eq!(exe.get_phase(), Phase::Aborted);
    assert_eq!(exe.launched_count(), 0);
    assert_eq!(exe.total_count(), 0);
    assert!(matches!(exe.next_action(), Action::Done));
    assert!(exe.build_finished(success("")).is_ok());
    assert_eq!(exe.get_phase(), Phase::Aborted);
}

#[test]
fn build_that_cannot_start_aborts_the_run() {
    let mut exe = executor(2, 1, vec![("g", config(vec![1, 2]))]);
    let run = drive(
        &mut exe,
        Attempt::SpawnFailed("denied".to_string()),
        false,
        &mut |_, _| panic!("a task was launched"),
    );
    match run.result {
        Err(Error::ExecuteFail(msg)) => {
            assert_eq!(msg, "Failed to execute NS3 program. Err: denied.")
        }
        other => panic!("unexpected result {:?}", other),
    }
    assert!(run.launches.is_empty());
}

#[test]
fn reports_outside_the_protocol_are_dropped() {
    let mut exe = executor(2, 1, vec![("g", config(vec![1, 2]))]);
    assert!(matches!(exe.attempt_finished(0, success("")), Ok(Progress::Ignored)));
    exe.build_finished(success("")).unwrap();
    assert!(matches!(exe.attempt_finished(0, success("")), Ok(Progress::Ignored)));
    assert!(matches!(exe.next_action(), Action::Launch { id: 0, .. }));
    assert!(matches!(exe.attempt_finished(7, success("")), Ok(Progress::Ignored)));
    assert!(exe.build_finished(failure()).is_ok());
    assert_eq!(exe.get_phase(), Phase::Dispatching);
    assert!(matches!(exe.attempt_finished(0, success("")), Ok(Progress::Recorded)));
    assert!(matches!(exe.attempt_finished(0, success("")), Ok(Progress::Ignored)));
    assert_eq!(recorded(&exe), 1);
}

#[test]
fn groups_keep_their_own_results() {
    let mut exe = executor(
        3,
        1,
        vec![("a", config(vec![1, 2])), ("b", config(vec![])), ("c", config(vec![3]))],
    );
    let run = drive(&mut exe, success(""), true, &mut |_, _| success(""));
    assert!(run.result.is_ok());
    let outputs = exe.get_outputs();
    assert_eq!(outputs.len(), 3);
    assert_eq!(exe.get_configs().len(), 3);
    for i in 0..3 {
        assert_eq!(outputs.name_at(i), exe.get_configs().name_at(i));
    }
    let mut a: Vec<u32> = outputs.get("a").unwrap().iter().map(|t| t.param.policy).collect();
    a.sort();
    assert_eq!(a, vec![1, 2]);
    assert!(outputs.get("b").unwrap().is_empty());
    let c: Vec<u32> = outputs.get("c").unwrap().iter().map(|t| t.param.policy).collect();
    assert_eq!(c, vec![3]);
    assert!(outputs.get("d").is_none());
}

#[test]
fn empty_plan_finishes_at_once() {
    let mut exe = executor(2, 1, vec![]);
    let run = drive(&mut exe, success(""), false, &mut |_, _| panic!("a task was launched"));
    assert!(run.result.is_ok());
    assert_eq!(exe.get_phase(), Phase::Finished);
    assert_eq!(exe.total_count(), 0);
}

#[test]
fn getters_report_the_settings() {
    let exe = executor(3, 7, vec![("g", config(vec![1]))]);
    assert_eq!(exe.get_config_path(), "/work/config.toml");
    assert_eq!(*exe.get_config_format(), ConfigFormat::Toml);
    assert_eq!(exe.get_ns3_path(), "/opt/ns-3.33");
    assert_eq!(exe.get_task_concurrent(), 3);
    assert_eq!(exe.get_retry_limit(), 7);
    assert_eq!(exe.get_configs().get("g").unwrap().policy, vec![1]);
    assert_eq!(exe.get_outputs().get("g").unwrap().len(), 0);
    assert_eq!(exe.get_phase(), Phase::Created);
}
