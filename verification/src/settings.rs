//! The settings of an executor: what a caller may choose, the defaults for
//! what was not chosen, and the checks that stand before a run.

use vstd::prelude::*;
use vstd::string::StringExecFns;
use crate::dispatch::Phase;
use crate::error::Error;
use crate::executor::Executor;
use crate::groups::GroupMap;
use crate::paths::{
    check_config_file, check_ns3_dir, config_file_ok, config_file_rejection, ns3_dir_rejection,
    parent,
};
use crate::sweep::{BuildCmd, BuildParam};

verus! {

/// The structured format of the configuration file.
#[derive(Debug, Clone, Copy, PartialEq, Eq, Structural)]
pub enum ConfigFormat {
    Ron,
    Json,
    Toml,
    Yaml,
}

/// The number of attempts a task may take where none was chosen.
pub const DEFAULT_RETRY_LIMIT: u32 = 5;

/// The settings of an executor with every default filled in.
#[derive(Debug, Clone)]
pub struct Settings {
    pub config_path: String,
    pub config_format: ConfigFormat,
    pub ns3_path: String,
    pub task_concurrent: usize,
    pub retry_limit: u32,
}

/// The name under which a configuration file of the given format is looked
/// for where no path was chosen.
pub open spec fn default_config_name(format: ConfigFormat) -> Seq<char> {
    match format {
        ConfigFormat::Ron => "config.ron"@,
        ConfigFormat::Json => "config.json"@,
        ConfigFormat::Toml => "config.toml"@,
        ConfigFormat::Yaml => "config.yaml"@,
    }
}

/// Asks `num_cpus::get` how many logical processors this process may use.
///
/// Trusted, and nothing is claimed of the number: it depends on the
/// machine and on the limits set for the process.
#[verifier::external_body]
fn available_cpus() -> usize {
    num_cpus::get()
}

/// Collects the optional settings of an executor before it is built.
#[derive(Debug, Clone)]
pub struct ExecutorBuilder {
    pub config_path: Option<String>,
    pub config_format: Option<ConfigFormat>,
    pub ns3_path: Option<String>,
    pub task_concurrent: Option<usize>,
    pub retry_limit: Option<u32>,
}

impl ExecutorBuilder {
    /// A builder with no setting chosen.
    pub fn new() -> (b: Self)
        ensures
            b.config_path is None,
            b.config_format is None,
            b.ns3_path is None,
            b.task_concurrent is None,
            b.retry_limit is None,
    {
        Self {
            config_path: None,
            config_format: None,
            ns3_path: None,
            task_concurrent: None,
            retry_limit: None,
        }
    }

    /// Chooses the configuration file.
    pub fn config_path(self, config_path: &str) -> (b: Self)
        ensures
            b.config_path matches Some(p) && p@ == config_path@,
            b.config_format == self.config_format,
            b.ns3_path == self.ns3_path,
            b.task_concurrent == self.task_concurrent,
            b.retry_limit == self.retry_limit,
    {
        let mut b = self;
        b.config_path = Some(String::from_str(config_path));
        b
    }

    /// Chooses the format of the configuration file.
    pub fn config_format(self, config_format: ConfigFormat) -> (b: Self)
        ensures
            b.config_format == Some(config_format),
            b.config_path == self.config_path,
            b.ns3_path == self.ns3_path,
            b.task_concurrent == self.task_concurrent,
            b.retry_limit == self.retry_limit,
    {
        let mut b = self;
        b.config_format = Some(config_format);
        b
    }

    /// Chooses the directory of the external tool.
    pub fn ns3_path(self, ns3_path: &str) -> (b: Self)
        ensures
            b.ns3_path matches Some(p) && p@ == ns3_path@,
            b.config_path == self.config_path,
            b.config_format == self.config_format,
            b.task_concurrent == self.task_concurrent,
            b.retry_limit == self.retry_limit,
    {
        let mut b = self;
        b.ns3_path = Some(String::from_str(ns3_path));
        b
    }

    /// Chooses how many invocations may run at the same time.
    pub fn task_concurrent(self, task_concurrent: usize) -> (b: Self)
        ensures
            b.task_concurrent == Some(task_concurrent),
            b.config_path == self.config_path,
            b.config_format == self.config_format,
            b.ns3_path == self.ns3_path,
            b.retry_limit == self.retry_limit,
    {
        let mut b = self;
        b.task_concurrent = Some(task_concurrent);
        b
    }

    /// Chooses how many attempts one task may take.
    pub fn retry_limit(self, retry_limit: u32) -> (b: Self)
        ensures
            b.retry_limit == Some(retry_limit),
            b.config_path == self.config_path,
            b.config_format == self.config_format,
            b.ns3_path == self.ns3_path,
            b.task_concurrent == self.task_concurrent,
    {
        let mut b = self;
        b.retry_limit = Some(retry_limit);
        b
    }

    /// The format in effect: the one chosen, or TOML.
    pub open spec fn format_in_effect(self) -> ConfigFormat {
        match self.config_format {
            Some(format) => format,
            None => ConfigFormat::Toml,
        }
    }

    /// The path of the configuration file in effect: the one chosen, or the
    /// default name of the format in effect.
    pub open spec fn config_path_in_effect(self) -> Seq<char> {
        match self.config_path {
            Some(path) => path@,
            None => default_config_name(self.format_in_effect()),
        }
    }

    /// The directory of the tool in effect: the one chosen, or the root.
    pub open spec fn ns3_path_in_effect(self) -> Seq<char> {
        match self.ns3_path {
            Some(path) => path@,
            None => "/"@,
        }
    }

    /// The width of the window in effect: the one chosen, or the number of
    /// processors `cpus`, and in either case at least 1.
    pub open spec fn task_concurrent_in_effect(self, cpus: usize) -> usize {
        match self.task_concurrent {
            Some(n) => at_least_one(n),
            None => at_least_one(cpus),
        }
    }

    /// The retry limit in effect: the one chosen, or the default.
    pub open spec fn retry_limit_in_effect(self) -> u32 {
        match self.retry_limit {
            Some(n) => n,
            None => DEFAULT_RETRY_LIMIT,
        }
    }

    /// Fills in the defaults, on a machine with `cpus` processors.
    pub fn settings_with(self, cpus: usize) -> (s: Settings)
        ensures
            s.config_format == self.format_in_effect(),
            s.config_path@ == self.config_path_in_effect(),
            s.ns3_path@ == self.ns3_path_in_effect(),
            s.task_concurrent == self.task_concurrent_in_effect(cpus),
            s.retry_limit == self.retry_limit_in_effect(),
    {
        let config_format = match self.config_format {
            Some(format) => format,
            None => ConfigFormat::Toml,
        };
        let config_path = match self.config_path {
            Some(path) => path,
            None => match config_format {
                ConfigFormat::Ron => String::from_str("config.ron"),
                ConfigFormat::Json => String::from_str("config.json"),
                ConfigFormat::Toml => String::from_str("config.toml"),
                ConfigFormat::Yaml => String::from_str("config.yaml"),
            },
        };
        let ns3_path = match self.ns3_path {
            Some(path) => path,
            None => String::from_str("/"),
        };
        let task_concurrent = match self.task_concurrent {
            Some(n) => widen(n),
            None => widen(cpus),
        };
        let retry_limit = match self.retry_limit {
            Some(n) => n,
            None => DEFAULT_RETRY_LIMIT,
        };
        Settings { config_path, config_format, ns3_path, task_concurrent, retry_limit }
    }

    /// Fills in the defaults. Where no width of the window was chosen, it
    /// is the number of processors that this process may use. The window
    /// is at least 1 wide whatever was chosen or found.
    pub fn settings(self) -> (s: Settings)
        ensures
            s.config_format == self.format_in_effect(),
            s.config_path@ == self.config_path_in_effect(),
            s.ns3_path@ == self.ns3_path_in_effect(),
            s.task_concurrent >= 1,
            self.task_concurrent matches Some(n) ==> s.task_concurrent == at_least_one(n),
            s.retry_limit == self.retry_limit_in_effect(),
    {
        let cpus = match self.task_concurrent {
            Some(n) => n,
            None => available_cpus(),
        };
        self.settings_with(cpus)
    }

    /// Builds the executor from what was found on disk, with the defaults
    /// filled in as `settings` does.
    ///
    /// `located_config` is what resolving the path of the configuration
    /// file gave, `located_entry` what resolving the entry point of the
    /// tool gave: the resolved path, or the reason why there is no such
    /// file. `configs` holds the groups read from the configuration file,
    /// or the error met while reading it.
    pub fn build<T: Default + BuildParam<P>, P: BuildCmd>(
        self,
        located_config: Result<String, String>,
        located_entry: Result<String, String>,
        configs: Result<GroupMap<T>, Error>,
    ) -> (built: Result<Executor<T, P>, Error>)
        requires
            configs matches Ok(groups) ==> groups.wf(),
        ensures
            exists|s: Settings|
                {
                    &&& s.config_format == self.format_in_effect()
                    &&& s.config_path@ == self.config_path_in_effect()
                    &&& s.ns3_path@ == self.ns3_path_in_effect()
                    &&& s.task_concurrent >= 1
                    &&& self.task_concurrent matches Some(n) ==> s.task_concurrent == at_least_one(
                        n,
                    )
                    &&& s.retry_limit == self.retry_limit_in_effect()
                    &&& #[trigger] s.builds(located_config, located_entry, configs, built)
                },
    {
        let settings = self.settings();
        settings.build(located_config, located_entry, configs)
    }
}

impl Default for ExecutorBuilder {
    /// A builder with no setting chosen.
    fn default() -> (b: Self)
        ensures
            b.config_path is None,
            b.config_format is None,
            b.ns3_path is None,
            b.task_concurrent is None,
            b.retry_limit is None,
    {
        ExecutorBuilder::new()
    }
}

/// The width of a window that was asked to be `n` wide: a window admits at
/// least one invocation, so a width of 0 counts as 1.
pub open spec fn at_least_one(n: usize) -> usize {
    if n == 0 {
        1
    } else {
        n
    }
}

/// The width of a window that was asked to be `n` wide.
pub fn widen(n: usize) -> (width: usize)
    ensures
        width == at_least_one(n),
{
    if n == 0 {
        1
    } else {
        n
    }
}

impl Settings {
    /// Whether `built` is what building from these settings and from what
    /// was found on disk has to give.
    ///
    /// The checks are made in this order, and the first that fails gives
    /// the error: the configuration file was found and has the extension of
    /// its format; the entry point was found; the configuration was read.
    /// The executor keeps the resolved path of the configuration file, as
    /// the directory of the tool the one that holds the resolved entry
    /// point, and a window that is at least 1 wide.
    pub open spec fn builds<T: Default + BuildParam<P>, P: BuildCmd>(
        self,
        located_config: Result<String, String>,
        located_entry: Result<String, String>,
        configs: Result<GroupMap<T>, Error>,
        built: Result<Executor<T, P>, Error>,
    ) -> bool {
        match built {
            Ok(exe) => {
                &&& config_file_ok(located_config, self.config_format)
                &&& located_config matches Ok(path)
                &&& located_entry matches Ok(entry)
                &&& configs matches Ok(groups)
                &&& exe.wf()
                &&& exe.config_file() == path@
                &&& exe.format() == self.config_format
                &&& exe.tool_dir() == parent(entry@)
                &&& exe.window() == at_least_one(self.task_concurrent)
                &&& exe.attempts_allowed() == self.retry_limit
                &&& exe.groups() == groups.names()
                &&& exe.group_configs() == groups.values()
                &&& exe.phase() == Phase::Created
                &&& exe.plan().len() == 0
                &&& exe.pending().len() == 0
                &&& exe.in_flight().len() == 0
                &&& exe.launched() == 0
                &&& exe.completed() == 0
                &&& exe.reports().len() == 0
                &&& exe.store().len() == groups.names().len()
                &&& forall|g: int|
                    0 <= g < exe.store().len() ==> (#[trigger] exe.store()[g]).len() == 0
            },
            Err(error) => {
                if !config_file_ok(located_config, self.config_format) || located_entry is Err {
                    self.resolve_rejection(located_config, located_entry, error)
                } else {
                    configs == Err::<GroupMap<T>, Error>(error)
                }
            },
        }
    }

    /// Whether `error` is the error owed for settings that cannot be
    /// resolved against what was found on disk: the error of the first
    /// check that fails.
    pub open spec fn resolve_rejection(
        self,
        located_config: Result<String, String>,
        located_entry: Result<String, String>,
        error: Error,
    ) -> bool {
        if !config_file_ok(located_config, self.config_format) {
            config_file_rejection(located_config, self.config_format, error)
        } else {
            ns3_dir_rejection(located_entry, error)
        }
    }

    /// Checks the settings against what was found on disk, and puts the
    /// resolved paths in the place of the configured ones.
    ///
    /// `located_config` is what resolving `config_path` gave,
    /// `located_entry` what resolving the entry point inside `ns3_path`
    /// gave: the resolved path, or the reason why there is no such file.
    /// The settings pass exactly when the configuration file was found and
    /// has the extension of its format, and the entry point was found.
    pub fn resolve(
        self,
        located_config: Result<String, String>,
        located_entry: Result<String, String>,
    ) -> (resolved: Result<Settings, Error>)
        ensures
            match resolved {
                Ok(s) => {
                    &&& config_file_ok(located_config, self.config_format)
                    &&& located_config matches Ok(path)
                    &&& located_entry matches Ok(entry)
                    &&& s.config_path@ == path@
                    &&& s.ns3_path@ == parent(entry@)
                    &&& s.config_format == self.config_format
                    &&& s.task_concurrent == self.task_concurrent
                    &&& s.retry_limit == self.retry_limit
                },
                Err(error) => {
                    &&& !config_file_ok(located_config, self.config_format) || located_entry is Err
                    &&& self.resolve_rejection(located_config, located_entry, error)
                },
            },
    {
        let config_path = match check_config_file(located_config, &self.config_format) {
            Ok(path) => path,
            Err(error) => {
                return Err(error);
            },
        };
        let ns3_path = match check_ns3_dir(located_entry) {
            Ok(dir) => dir,
            Err(error) => {
                return Err(error);
            },
        };
        Ok(
            Settings {
                config_path,
                config_format: self.config_format,
                ns3_path,
                task_concurrent: self.task_concurrent,
                retry_limit: self.retry_limit,
            },
        )
    }

    /// Builds the executor from what was found on disk.
    ///
    /// `located_config` is what resolving `config_path` gave,
    /// `located_entry` what resolving the entry point inside `ns3_path`
    /// gave: the resolved path, or the reason why there is no such file.
    /// `configs` holds the groups read from the configuration file, or the
    /// error met while reading it.
    ///
    /// What comes of it is said by `builds`.
    pub fn build<T: Default + BuildParam<P>, P: BuildCmd>(
        self,
        located_config: Result<String, String>,
        located_entry: Result<String, String>,
        configs: Result<GroupMap<T>, Error>,
    ) -> (built: Result<Executor<T, P>, Error>)
        requires
            configs matches Ok(groups) ==> groups.wf(),
        ensures
            self.builds(located_config, located_entry, configs, built),
    {
        let resolved = match self.resolve(located_config, located_entry) {
            Ok(resolved) => resolved,
            Err(error) => {
                return Err(error);
            },
        };
        let groups = match configs {
            Ok(groups) => groups,
            Err(error) => {
                return Err(error);
            },
        };
        Ok(
            Executor::new(
                resolved.config_path,
                resolved.config_format,
                resolved.ns3_path,
                resolved.task_concurrent,
                resolved.retry_limit,
                groups,
            ),
        )
    }
}

} // verus!
