//! The plugin registry: the mapping from plugin name to a loaded
//! capability and its descriptor, with directory-scan filtering,
//! registration with replacement, enable/disable, and the retry
//! discipline of capability execution.
//!
//! Opening a dynamic module and sleeping between attempts are outside
//! work: the host performs them and drives the retry protocol through
//! [`ExecStep`], while every decision is made here.

use vstd::prelude::*;
use crate::error::{is_execution_error_transient, PluginError};
use crate::plugin::Plugin;
use crate::strutil::{ends_with, str_ends_with, str_eq};

verus! {

/// The descriptor of one registered plugin.
#[derive(Clone, Debug)]
pub struct PluginInfo {
    pub name: String,
    pub version: String,
    pub description: String,
    pub enabled: bool,
    pub loaded: bool,
    pub path: String,
}

/// A loaded entry: the capability instance together with its
/// descriptor. The backing module handle is co-owned with the
/// capability inside `P` by the host, so both are released together.
struct PluginEntry<P> {
    plugin: P,
    info: PluginInfo,
}

/// The registry: unique plugin names, each owning one loaded entry,
/// and the directory that is scanned for dynamic modules.
pub struct PluginRegistry<P> {
    entries: Vec<PluginEntry<P>>,
    plugins_dir: String,
}

/// Some descriptor in `infos` carries the name `name`.
pub open spec fn has_name(infos: Seq<PluginInfo>, name: Seq<char>) -> bool {
    exists|i: int| 0 <= i < infos.len() && infos[i].name@ == name
}

/// The position of the descriptor named `name`.
pub open spec fn name_index(infos: Seq<PluginInfo>, name: Seq<char>) -> int {
    choose|i: int| 0 <= i < infos.len() && infos[i].name@ == name
}

/// No two descriptors carry the same name.
pub open spec fn unique_names(infos: Seq<PluginInfo>) -> bool {
    forall|i: int, j: int|
        0 <= i < j < infos.len() ==> infos[i].name@ != infos[j].name@
}

/// With unique names, a descriptor's position is the name's index.
pub proof fn lemma_name_index_unique(infos: Seq<PluginInfo>, name: Seq<char>, i: int)
    requires
        unique_names(infos),
        0 <= i < infos.len(),
        infos[i].name@ == name,
    ensures
        has_name(infos, name),
        name_index(infos, name) == i,
{
    assert(has_name(infos, name));
    let j = name_index(infos, name);
    if i < j {
        assert(infos[i].name@ != infos[j].name@);
    } else if j < i {
        assert(infos[j].name@ != infos[i].name@);
    }
}

/// Replacing the entry under a name keeps the names unique.
pub proof fn lemma_unique_after_replace(infos: Seq<PluginInfo>, i: int, info: PluginInfo)
    requires
        unique_names(infos),
        0 <= i < infos.len(),
        infos[i].name@ == info.name@,
    ensures
        unique_names(infos.update(i, info)),
{
}

/// Appending an absent name keeps the names unique.
pub proof fn lemma_unique_after_push(infos: Seq<PluginInfo>, info: PluginInfo)
    requires
        unique_names(infos),
        !has_name(infos, info.name@),
    ensures
        unique_names(infos.push(info)),
{
    let out = infos.push(info);
    assert forall|i: int, j: int| 0 <= i < j < out.len() implies out[i].name@ != out[j].name@ by {
        if j == infos.len() {
            assert(out[i] == infos[i]);
        }
    }
}

/// A file name carries one of the recognized dynamic-module suffixes,
/// with a nonempty stem before the dot.
pub open spec fn is_library_file_name(name: Seq<char>) -> bool {
    ||| (name.len() > ".so"@.len() && ends_with(name, ".so"@))
    ||| (name.len() > ".dll"@.len() && ends_with(name, ".dll"@))
    ||| (name.len() > ".dylib"@.len() && ends_with(name, ".dylib"@))
}

/// The file names of one directory listing that carry a recognized
/// dynamic-module suffix, in order.
pub open spec fn library_candidates(names: Seq<Seq<char>>) -> Seq<Seq<char>>
    decreases names.len(),
{
    if names.len() == 0 {
        Seq::empty()
    } else {
        let rest = library_candidates(names.drop_last());
        if is_library_file_name(names.last()) {
            rest.push(names.last())
        } else {
            rest
        }
    }
}

/// The continuation of an execution that pauses between attempts.
#[derive(Clone, Copy, Debug, PartialEq, Eq, Structural)]
pub struct RetryState {
    /// The attempt to run next, counted from 1.
    pub next_attempt: u32,
    /// The attempt bound this execution started with.
    pub max_retries: u32,
    /// The pause between attempts, in milliseconds.
    pub retry_delay_ms: u64,
}

impl RetryState {
    /// A state a paused execution can be resumed from.
    pub open spec fn wf(&self) -> bool {
        1 <= self.next_attempt <= self.max_retries
    }
}

/// One step of the execution protocol. The host performs the sleeps:
/// on `Sleep` it waits the given time and resumes with the state.
#[derive(Debug)]
pub enum ExecStep {
    /// The execution finished with this outcome.
    Done(Result<String, PluginError>),
    /// Wait `delay_ms` milliseconds, then resume from `resume`.
    Sleep { delay_ms: u64, resume: RetryState },
}

/// Everything an execution step can be, against the registry state it
/// was taken in: absent names fail as NotFound, disabled plugins as
/// PluginDisabled without any attempt, and a present, enabled plugin
/// yields its capability's output, an ExecutionFailed wrapping of the
/// last message, or a pause of exactly the configured delay.
pub open spec fn exec_step_ok(
    r: &ExecStep,
    infos: Seq<PluginInfo>,
    name: Seq<char>,
    max_retries: u32,
    retry_delay_ms: u64,
) -> bool {
    match r {
        ExecStep::Done(outcome) => match outcome {
            Ok(_) => has_name(infos, name) && infos[name_index(infos, name)].enabled,
            Err(e) => match e {
                PluginError::NotFound { name: n } => n@ == name && !has_name(infos, name),
                PluginError::PluginDisabled { name: n } => n@ == name && has_name(infos, name)
                    && !infos[name_index(infos, name)].enabled,
                PluginError::ExecutionFailed { .. } => has_name(infos, name) && infos[name_index(
                    infos,
                    name,
                )].enabled,
                _ => false,
            },
        },
        ExecStep::Sleep { delay_ms, resume } => {
            &&& has_name(infos, name)
            &&& infos[name_index(infos, name)].enabled
            &&& *delay_ms == retry_delay_ms
            &&& retry_delay_ms > 0
            &&& resume.max_retries == max_retries
            &&& resume.retry_delay_ms == retry_delay_ms
            &&& 2 <= resume.next_attempt <= max_retries
        },
    }
}

/// A disabled plugin is a hard stop: whatever the retry bound and the
/// delay, the only step an execution can take against a registry
/// whose named entry is disabled is the PluginDisabled failure — it
/// is never attempted and never retried.
pub proof fn lemma_disabled_is_hard_stop(
    r: &ExecStep,
    infos: Seq<PluginInfo>,
    name: Seq<char>,
    max_retries: u32,
    retry_delay_ms: u64,
)
    requires
        exec_step_ok(r, infos, name, max_retries, retry_delay_ms),
        has_name(infos, name),
        !infos[name_index(infos, name)].enabled,
    ensures
        r matches ExecStep::Done(Err(PluginError::PluginDisabled { name: n })) && n@ == name,
{
}

impl<P> View for PluginRegistry<P> {
    type V = Seq<PluginInfo>;

    closed spec fn view(&self) -> Seq<PluginInfo> {
        self.entries@.map_values(|e: PluginEntry<P>| e.info)
    }
}

impl<P: Plugin> PluginRegistry<P> {
    /// Names are unique keys: the registry's standing invariant.
    pub open spec fn wf(&self) -> bool {
        unique_names(self@)
    }

    /// The directory this registry scans for dynamic modules.
    pub closed spec fn dir_spec(&self) -> Seq<char> {
        self.plugins_dir@
    }

    /// An empty registry over the given scan directory.
    pub fn new(plugins_dir: &str) -> (r: Self)
        ensures
            r@.len() == 0,
            r.wf(),
            r.dir_spec() == plugins_dir@,
    {
        PluginRegistry { entries: Vec::new(), plugins_dir: plugins_dir.to_owned() }
    }

    /// The scan directory.
    pub fn plugins_dir(&self) -> (r: &str)
        ensures
            r@ == self.dir_spec(),
    {
        self.plugins_dir.as_str()
    }

    /// Whether a directory entry's file name is a potential dynamic
    /// module: the suffixes of every platform are recognized, so
    /// cross-built artifacts are filtered in and fail harmlessly later.
    pub fn is_plugin_library(&self, file_name: &str) -> (r: bool)
        ensures
            r == is_library_file_name(file_name@),
    {
        let n = file_name.unicode_len();
        (n > ".so".unicode_len() && str_ends_with(file_name, ".so")) || (n
            > ".dll".unicode_len() && str_ends_with(file_name, ".dll")) || (n
            > ".dylib".unicode_len() && str_ends_with(file_name, ".dylib"))
    }

    /// The file names among `file_names` that look like dynamic
    /// modules, in order: the candidate list of one directory scan.
    pub fn filter_plugin_candidates(&self, file_names: &Vec<String>) -> (r: Vec<String>)
        ensures
            r.deep_view() == library_candidates(file_names.deep_view()),
    {
        let mut out: Vec<String> = Vec::new();
        let mut i: usize = 0;
        proof {
            assert(file_names.deep_view().subrange(0, 0) =~= Seq::<Seq<char>>::empty());
        }
        while i < file_names.len()
            invariant
                i <= file_names@.len(),
                file_names.deep_view().len() == file_names@.len(),
                forall|j: int|
                    0 <= j < file_names@.len() ==> file_names.deep_view()[j]
                        == file_names@[j]@,
                out.deep_view() == library_candidates(
                    file_names.deep_view().subrange(0, i as int),
                ),
            decreases file_names@.len() - i,
        {
            let ghost pre = file_names.deep_view().subrange(0, i as int);
            let ghost cur = file_names.deep_view().subrange(0, i + 1 as int);
            let ghost elem = file_names.deep_view()[i as int];
            proof {
                assert(cur.drop_last() =~= pre);
                assert(cur.last() == elem);
            }
            if self.is_plugin_library(file_names[i].as_str()) {
                out.push(file_names[i].clone());
                proof {
                    assert(out.deep_view() =~= library_candidates(pre).push(elem));
                }
            }
            i = i + 1;
        }
        proof {
            assert(file_names.deep_view().subrange(0, file_names@.len() as int)
                =~= file_names.deep_view());
        }
        out
    }

    /// The position of the entry named `name`, if any.
    fn find_index(&self, name: &str) -> (r: Option<usize>)
        ensures
            match r {
                Some(i) => i < self@.len() && self@[i as int].name@ == name@,
                None => !has_name(self@, name@),
            },
    {
        let mut i: usize = 0;
        while i < self.entries.len()
            invariant
                i <= self.entries@.len(),
                self@.len() == self.entries@.len(),
                forall|j: int| 0 <= j < self@.len() ==> self@[j] == self.entries@[j].info,
                forall|j: int| 0 <= j < i ==> self@[j].name@ != name@,
            decreases self.entries@.len() - i,
        {
            if str_eq(self.entries[i].info.name.as_str(), name) {
                return Some(i);
            }
            i = i + 1;
        }
        None
    }

    /// Register a capability instance loaded from `path`: read its
    /// descriptor, default it to enabled, and insert it under its
    /// name, replacing any entry that already carries that name.
    pub fn register_plugin(&mut self, plugin: P, path: &str) -> (name: String)
        requires
            old(self).wf(),
        ensures
            final(self).wf(),
            final(self).dir_spec() == old(self).dir_spec(),
            ({
                let i = if has_name(old(self)@, name@) {
                    name_index(old(self)@, name@)
                } else {
                    old(self)@.len() as int
                };
                &&& final(self)@.len() == if has_name(old(self)@, name@) {
                    old(self)@.len()
                } else {
                    old(self)@.len() + 1
                }
                &&& 0 <= i < final(self)@.len()
                &&& final(self)@[i].name@ == name@
                &&& final(self)@[i].enabled
                &&& final(self)@[i].loaded
                &&& final(self)@[i].path@ == path@
                &&& forall|j: int|
                    0 <= j < final(self)@.len() && j != i ==> final(self)@[j] == old(self)@[j]
            }),
    {
        let name = plugin.name().to_owned();
        let version = plugin.version().to_owned();
        let description = plugin.description().to_owned();
        let info = PluginInfo {
            name: name.clone(),
            version,
            description,
            enabled: true,
            loaded: true,
            path: path.to_owned(),
        };
        let ghost info_ghost = info;
        let entry = PluginEntry { plugin, info };
        match self.find_index(name.as_str()) {
            Some(i) => {
                proof {
                    lemma_name_index_unique(self@, name@, i as int);
                }
                self.entries[i] = entry;
                proof {
                    assert(self@ =~= old(self)@.update(i as int, info_ghost));
                    lemma_unique_after_replace(old(self)@, i as int, info_ghost);
                }
            },
            None => {
                self.entries.push(entry);
                proof {
                    assert(self@ =~= old(self)@.push(info_ghost));
                    lemma_unique_after_push(old(self)@, info_ghost);
                }
            },
        }
        name
    }

    /// The descriptor of the named plugin, if it is registered.
    pub fn get_plugin_info(&self, name: &str) -> (r: Option<PluginInfo>)
        requires
            self.wf(),
        ensures
            match r {
                Some(info) => has_name(self@, name@) && info == self@[name_index(self@, name@)],
                None => !has_name(self@, name@),
            },
    {
        match self.find_index(name) {
            Some(i) => {
                proof {
                    lemma_name_index_unique(self@, name@, i as int);
                }
                Some(duplicate_info(&self.entries[i].info))
            },
            None => None,
        }
    }

    /// The descriptors of all registered plugins, in registration order.
    pub fn list_plugins(&self) -> (r: Vec<PluginInfo>)
        ensures
            r@ == self@,
    {
        let mut out: Vec<PluginInfo> = Vec::new();
        let mut i: usize = 0;
        while i < self.entries.len()
            invariant
                i <= self.entries@.len(),
                self@.len() == self.entries@.len(),
                forall|j: int| 0 <= j < self@.len() ==> self@[j] == self.entries@[j].info,
                out@ == self@.subrange(0, i as int),
            decreases self.entries@.len() - i,
        {
            out.push(duplicate_info(&self.entries[i].info));
            i = i + 1;
            proof {
                assert(out@ =~= self@.subrange(0, i as int));
            }
        }
        proof {
            assert(out@ =~= self@);
        }
        out
    }

    /// Whether the named plugin is registered.
    pub fn has_plugin(&self, name: &str) -> (r: bool)
        ensures
            r == has_name(self@, name@),
    {
        match self.find_index(name) {
            Some(i) => {
                proof {
                    assert(has_name(self@, name@));
                }
                true
            },
            None => false,
        }
    }

    /// The number of registered plugins.
    pub fn plugin_count(&self) -> (r: usize)
        ensures
            r == self@.len(),
    {
        self.entries.len()
    }

    /// Mark the named plugin enabled; NotFound when it is absent.
    /// Only the in-memory flag changes; persistence is the manager's.
    pub fn enable_plugin(&mut self, name: &str) -> (r: Result<(), PluginError>)
        requires
            old(self).wf(),
        ensures
            final(self).wf(),
            final(self).dir_spec() == old(self).dir_spec(),
            match r {
                Ok(()) => has_name(old(self)@, name@) && ({
                    let i = name_index(old(self)@, name@);
                    &&& final(self)@.len() == old(self)@.len()
                    &&& final(self)@[i].name == old(self)@[i].name
                    &&& final(self)@[i].version == old(self)@[i].version
                    &&& final(self)@[i].description == old(self)@[i].description
                    &&& final(self)@[i].path == old(self)@[i].path
                    &&& final(self)@[i].loaded == old(self)@[i].loaded
                    &&& final(self)@[i].enabled == true
                    &&& forall|j: int|
                        0 <= j < old(self)@.len() && j != i ==> final(self)@[j] == old(self)@[j]
                }),
                Err(e) => !has_name(old(self)@, name@) && final(self)@ == old(self)@ && (
                e matches PluginError::NotFound { name: n } && n@ == name@),
            },
    {
        self.set_enabled(name, true)
    }

    /// Mark the named plugin disabled; NotFound when it is absent.
    pub fn disable_plugin(&mut self, name: &str) -> (r: Result<(), PluginError>)
        requires
            old(self).wf(),
        ensures
            final(self).wf(),
            final(self).dir_spec() == old(self).dir_spec(),
            match r {
                Ok(()) => has_name(old(self)@, name@) && ({
                    let i = name_index(old(self)@, name@);
                    &&& final(self)@.len() == old(self)@.len()
                    &&& final(self)@[i].name == old(self)@[i].name
                    &&& final(self)@[i].version == old(self)@[i].version
                    &&& final(self)@[i].description == old(self)@[i].description
                    &&& final(self)@[i].path == old(self)@[i].path
                    &&& final(self)@[i].loaded == old(self)@[i].loaded
                    &&& final(self)@[i].enabled == false
                    &&& forall|j: int|
                        0 <= j < old(self)@.len() && j != i ==> final(self)@[j] == old(self)@[j]
                }),
                Err(e) => !has_name(old(self)@, name@) && final(self)@ == old(self)@ && (
                e matches PluginError::NotFound { name: n } && n@ == name@),
            },
    {
        self.set_enabled(name, false)
    }

    /// Set the enabled flag of the named plugin.
    fn set_enabled(&mut self, name: &str, value: bool) -> (r: Result<(), PluginError>)
        requires
            old(self).wf(),
        ensures
            final(self).wf(),
            final(self).dir_spec() == old(self).dir_spec(),
            match r {
                Ok(()) => has_name(old(self)@, name@) && ({
                    let i = name_index(old(self)@, name@);
                    &&& final(self)@.len() == old(self)@.len()
                    &&& final(self)@[i].name == old(self)@[i].name
                    &&& final(self)@[i].version == old(self)@[i].version
                    &&& final(self)@[i].description == old(self)@[i].description
                    &&& final(self)@[i].path == old(self)@[i].path
                    &&& final(self)@[i].loaded == old(self)@[i].loaded
                    &&& final(self)@[i].enabled == value
                    &&& forall|j: int|
                        0 <= j < old(self)@.len() && j != i ==> final(self)@[j] == old(self)@[j]
                }),
                Err(e) => !has_name(old(self)@, name@) && final(self)@ == old(self)@ && (
                e matches PluginError::NotFound { name: n } && n@ == name@),
            },
    {
        match self.find_index(name) {
            Some(i) => {
                proof {
                    lemma_name_index_unique(self@, name@, i as int);
                }
                self.entries[i].info.enabled = value;
                proof {
                    assert(self@ =~= old(self)@.update(i as int, self@[i as int]));
                    assert(self@[i as int].name@ == old(self)@[i as int].name@);
                    lemma_unique_after_replace(old(self)@, i as int, self@[i as int]);
                }
                Ok(())
            },
            None => Err(PluginError::NotFound { name: name.to_owned() }),
        }
    }

    /// Execute the named plugin with the default retry discipline.
    pub fn execute_plugin(&self, name: &str, input: &str) -> (r: ExecStep)
        requires
            self.wf(),
        ensures
            exec_step_ok(&r, self@, name@, 2, 100),
    {
        self.execute_plugin_with_retry(name, input, 2, 100)
    }

    /// Execute the named plugin: NotFound when absent, PluginDisabled
    /// when its flag is off (a hard stop, attempted zero times), and
    /// otherwise up to `max_retries` capability attempts, pausing
    /// `retry_delay_ms` between attempts while the last failure's
    /// message counts as transient. With a zero delay the whole retry
    /// loop runs here and the step is always `Done`.
    pub fn execute_plugin_with_retry(
        &self,
        name: &str,
        input: &str,
        max_retries: u32,
        retry_delay_ms: u64,
    ) -> (r: ExecStep)
        requires
            self.wf(),
            max_retries >= 1,
        ensures
            exec_step_ok(&r, self@, name@, max_retries, retry_delay_ms),
            retry_delay_ms == 0 ==> (r matches ExecStep::Done(_)),
    {
        match self.find_index(name) {
            None => ExecStep::Done(Err(PluginError::NotFound { name: name.to_owned() })),
            Some(i) => {
                proof {
                    lemma_name_index_unique(self@, name@, i as int);
                }
                if !self.entries[i].info.enabled {
                    ExecStep::Done(Err(PluginError::PluginDisabled { name: name.to_owned() }))
                } else {
                    self.run_attempts(i, name, input, 1, max_retries, retry_delay_ms)
                }
            },
        }
    }

    /// One single capability attempt, with the same lookup and
    /// enabled checks as the retry path but no retrying: the unit the
    /// manager's deadline loop delegates to.
    pub fn execute_plugin_once(&self, name: &str, input: &str) -> (r: Result<String, PluginError>)
        requires
            self.wf(),
        ensures
            match r {
                Ok(_) => has_name(self@, name@) && self@[name_index(self@, name@)].enabled,
                Err(e) => match e {
                    PluginError::NotFound { name: n } => n@ == name@ && !has_name(self@, name@),
                    PluginError::PluginDisabled { name: n } => n@ == name@ && has_name(
                        self@,
                        name@,
                    ) && !self@[name_index(self@, name@)].enabled,
                    PluginError::ExecutionFailed { .. } => has_name(self@, name@)
                        && self@[name_index(self@, name@)].enabled,
                    _ => false,
                },
            },
    {
        match self.find_index(name) {
            None => Err(PluginError::NotFound { name: name.to_owned() }),
            Some(i) => {
                proof {
                    lemma_name_index_unique(self@, name@, i as int);
                }
                if !self.entries[i].info.enabled {
                    Err(PluginError::PluginDisabled { name: name.to_owned() })
                } else {
                    match self.entries[i].plugin.execute(input) {
                        Ok(output) => Ok(output),
                        Err(message) => Err(PluginError::ExecutionFailed { message }),
                    }
                }
            },
        }
    }

    /// Resume an execution that paused between attempts.
    pub fn resume_execution(&self, name: &str, input: &str, state: RetryState) -> (r: ExecStep)
        requires
            self.wf(),
            state.wf(),
        ensures
            exec_step_ok(&r, self@, name@, state.max_retries, state.retry_delay_ms),
            state.retry_delay_ms == 0 ==> (r matches ExecStep::Done(_)),
    {
        match self.find_index(name) {
            None => ExecStep::Done(Err(PluginError::NotFound { name: name.to_owned() })),
            Some(i) => {
                proof {
                    lemma_name_index_unique(self@, name@, i as int);
                }
                if !self.entries[i].info.enabled {
                    ExecStep::Done(Err(PluginError::PluginDisabled { name: name.to_owned() }))
                } else {
                    self.run_attempts(
                        i,
                        name,
                        input,
                        state.next_attempt,
                        state.max_retries,
                        state.retry_delay_ms,
                    )
                }
            },
        }
    }

    /// The attempt loop of one execution, from `attempt` on. Pauses
    /// are handed back to the caller as `Sleep` steps.
    fn run_attempts(
        &self,
        idx: usize,
        name: &str,
        input: &str,
        attempt: u32,
        max_retries: u32,
        retry_delay_ms: u64,
    ) -> (r: ExecStep)
        requires
            self.wf(),
            idx < self@.len(),
            self@[idx as int].name@ == name@,
            self@[idx as int].enabled,
            1 <= attempt <= max_retries,
        ensures
            exec_step_ok(&r, self@, name@, max_retries, retry_delay_ms),
            retry_delay_ms == 0 ==> (r matches ExecStep::Done(_)),
    {
        proof {
            lemma_name_index_unique(self@, name@, idx as int);
        }
        let mut current: u32 = attempt;
        loop
            invariant
                self.wf(),
                idx < self@.len(),
                self@.len() == self.entries@.len(),
                forall|j: int| 0 <= j < self@.len() ==> self@[j] == self.entries@[j].info,
                self@[idx as int].name@ == name@,
                self@[idx as int].enabled,
                has_name(self@, name@),
                name_index(self@, name@) == idx as int,
                1 <= current <= max_retries,
            decreases max_retries - current,
        {
            match self.entries[idx].plugin.execute(input) {
                Ok(output) => {
                    return ExecStep::Done(Ok(output));
                },
                Err(message) => {
                    if current < max_retries && is_execution_error_transient(message.as_str()) {
                        if retry_delay_ms == 0 {
                            current = current + 1;
                        } else {
                            return ExecStep::Sleep {
                                delay_ms: retry_delay_ms,
                                resume: RetryState {
                                    next_attempt: current + 1,
                                    max_retries,
                                    retry_delay_ms,
                                },
                            };
                        }
                    } else {
                        return ExecStep::Done(
                            Err(PluginError::ExecutionFailed { message }),
                        );
                    }
                },
            }
        }
    }
}

/// A fresh descriptor equal to the given one.
fn duplicate_info(info: &PluginInfo) -> (r: PluginInfo)
    ensures
        r == *info,
{
    PluginInfo {
        name: info.name.clone(),
        version: info.version.clone(),
        description: info.description.clone(),
        enabled: info.enabled,
        loaded: info.loaded,
        path: info.path.clone(),
    }
}

} // verus!
