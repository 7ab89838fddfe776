//! The plugin manager: a registry composed with the persisted
//! configuration. It reconciles enabled state between the two, adds a
//! call-level deadline on top of the registry's retry, and offers
//! batch operations and status aggregation.
//!
//! Reading the clock, sleeping, and persisting the configuration are
//! the host's work: the execution path hands control back through
//! [`ExecStep`](crate::registry::ExecStep) and [`DeadlineStep`], and
//! the host measures elapsed time and stores the configuration after
//! each mutation.

use vstd::prelude::*;
use vstd::string::StringExecFns;
use crate::config::{
    assoc_has_key, assoc_key_index, lemma_set_enabled_rel_unique, plugin_enabled_in,
    set_enabled_rel, setting_in, Config, PluginConfig,
};
use crate::error::{is_execution_error_transient, is_transient_spec, user_message_spec, PluginError};
use crate::plugin::Plugin;
use crate::registry::{has_name, name_index, ExecStep, PluginInfo, PluginRegistry, RetryState};

verus! {

/// The outcome of one outward-facing execution, with its timing.
#[derive(Clone, Debug)]
pub struct ExecutionResult {
    pub plugin: String,
    pub output: String,
    pub duration_ms: u64,
    pub success: bool,
}

/// A registry descriptor merged with the persisted enabled flag.
#[derive(Clone, Debug)]
pub struct PluginStatus {
    pub name: String,
    pub version: String,
    pub description: String,
    pub enabled: bool,
    pub loaded: bool,
    pub path: String,
    pub config_enabled: bool,
}

/// Options of one execution: the retry bound, the pause between
/// retries, and an optional overall deadline, in milliseconds.
#[derive(Clone, Copy, Debug, PartialEq, Eq)]
pub struct ExecutionOptions {
    pub max_retries: u32,
    pub retry_delay_ms: u64,
    pub timeout_ms: Option<u64>,
}

impl Default for ExecutionOptions {
    /// Two attempts, a tenth of a second apart, under a 30 s deadline.
    fn default() -> (r: ExecutionOptions)
        ensures
            r.max_retries == 2,
            r.retry_delay_ms == 100,
            r.timeout_ms == Some(30000u64),
    {
        ExecutionOptions { max_retries: 2, retry_delay_ms: 100, timeout_ms: Some(30000) }
    }
}

impl ExecutionOptions {
    /// A single attempt under the default deadline.
    pub fn no_retry() -> (r: ExecutionOptions)
        ensures
            r.max_retries == 1,
            r.retry_delay_ms == 0,
            r.timeout_ms == Some(30000u64),
    {
        ExecutionOptions { max_retries: 1, retry_delay_ms: 0, timeout_ms: Some(30000) }
    }

    /// Five attempts, a fifth of a second apart, under a minute.
    pub fn aggressive_retry() -> (r: ExecutionOptions)
        ensures
            r.max_retries == 5,
            r.retry_delay_ms == 200,
            r.timeout_ms == Some(60000u64),
    {
        ExecutionOptions { max_retries: 5, retry_delay_ms: 200, timeout_ms: Some(60000) }
    }

    /// The default retry discipline with no deadline at all.
    pub fn no_timeout() -> (r: ExecutionOptions)
        ensures
            r.max_retries == 2,
            r.retry_delay_ms == 100,
            r.timeout_ms is None,
    {
        ExecutionOptions { max_retries: 2, retry_delay_ms: 100, timeout_ms: None }
    }
}

/// What the deadline loop does after one attempt.
#[derive(Debug)]
pub enum DeadlineStep {
    /// Stop with this outcome.
    Finish(Result<String, PluginError>),
    /// Sleep `backoff_ms`, then attempt again.
    RetryAfter { backoff_ms: u64 },
}

/// What the deadline loop may retry: the structurally transient
/// kinds, and a wrapped capability failure whose message matches the
/// loose textual heuristic that classifies opaque capability errors.
pub open spec fn deadline_retryable(e: &PluginError) -> bool {
    ||| is_transient_spec(e)
    ||| (e matches PluginError::ExecutionFailed { message }
        && crate::error::execution_message_transient(message@))
}

/// The named plugin exists, its registry flag is on, and the persisted
/// configuration agrees: the conjunction the manager requires before
/// it lets a capability run.
pub open spec fn runnable(infos: Seq<PluginInfo>, cfg: Config, name: Seq<char>) -> bool {
    &&& has_name(infos, name)
    &&& infos[name_index(infos, name)].enabled
    &&& plugin_enabled_in(cfg.plugins@, name)
}

/// The status record of one descriptor under one configuration.
pub open spec fn status_of(info: PluginInfo, cfg: Config) -> PluginStatus {
    PluginStatus {
        name: info.name,
        version: info.version,
        description: info.description,
        enabled: info.enabled,
        loaded: info.loaded,
        path: info.path,
        config_enabled: plugin_enabled_in(cfg.plugins@, info.name@),
    }
}

/// The status records of a whole registry under one configuration.
pub open spec fn statuses_of(infos: Seq<PluginInfo>, cfg: Config) -> Seq<PluginStatus> {
    infos.map_values(|info: PluginInfo| status_of(info, cfg))
}

/// The statuses that count as enabled: flag and persisted flag both on.
pub open spec fn enabled_statuses(statuses: Seq<PluginStatus>) -> Seq<PluginStatus>
    decreases statuses.len(),
{
    if statuses.len() == 0 {
        Seq::empty()
    } else {
        let rest = enabled_statuses(statuses.drop_last());
        if statuses.last().enabled && statuses.last().config_enabled {
            rest.push(statuses.last())
        } else {
            rest
        }
    }
}

/// The statuses that count as disabled: either flag off.
pub open spec fn disabled_statuses(statuses: Seq<PluginStatus>) -> Seq<PluginStatus>
    decreases statuses.len(),
{
    if statuses.len() == 0 {
        Seq::empty()
    } else {
        let rest = disabled_statuses(statuses.drop_last());
        if !(statuses.last().enabled && statuses.last().config_enabled) {
            rest.push(statuses.last())
        } else {
            rest
        }
    }
}

/// `n` is one of the names in the list.
pub open spec fn names_contain(names: Seq<Seq<char>>, n: Seq<char>) -> bool {
    exists|j: int| 0 <= j < names.len() && names[j] == n
}

/// An execution step of the manager: as the registry's, except that a
/// plugin whose persisted flag is off is also a disabled hard stop.
pub open spec fn manager_step_ok(
    r: &ExecStep,
    infos: Seq<PluginInfo>,
    cfg: Config,
    name: Seq<char>,
    max_retries: u32,
    retry_delay_ms: u64,
) -> bool {
    match r {
        ExecStep::Done(outcome) => match outcome {
            Ok(_) => runnable(infos, cfg, name),
            Err(e) => match e {
                PluginError::NotFound { name: n } => n@ == name && !has_name(infos, name),
                PluginError::PluginDisabled { name: n } => n@ == name && has_name(infos, name)
                    && !runnable(infos, cfg, name),
                PluginError::ExecutionFailed { .. } => runnable(infos, cfg, name),
                _ => false,
            },
        },
        ExecStep::Sleep { delay_ms, resume } => {
            &&& runnable(infos, cfg, name)
            &&& *delay_ms == retry_delay_ms
            &&& retry_delay_ms > 0
            &&& resume.max_retries == max_retries
            &&& resume.retry_delay_ms == retry_delay_ms
            &&& 2 <= resume.next_attempt <= max_retries
        },
    }
}

/// The manager: the registry and the in-memory image of the persisted
/// configuration, kept reconciled.
pub struct PluginManager<P> {
    registry: PluginRegistry<P>,
    config: Config,
}

impl<P: Plugin> PluginManager<P> {
    /// The registry's descriptors.
    pub closed spec fn registry_spec(&self) -> Seq<PluginInfo> {
        self.registry@
    }

    /// The configuration image.
    pub closed spec fn config_spec(&self) -> Config {
        self.config
    }

    /// Both components keep their own invariants.
    pub closed spec fn wf(&self) -> bool {
        &&& self.registry.wf()
        &&& self.config.wf()
    }

    /// Compose a manager from a configuration image and a registry.
    /// The host reads or creates the durable configuration, builds the
    /// registry over the configured directory, and loads plugins.
    pub fn from_parts(config: Config, registry: PluginRegistry<P>) -> (r: PluginManager<P>)
        requires
            config.wf(),
            registry.wf(),
        ensures
            r.wf(),
            r.config_spec() == config,
            r.registry_spec() == registry@,
    {
        PluginManager { registry, config }
    }

    /// The configuration image.
    pub fn config(&self) -> (r: &Config)
        ensures
            r == self.config_spec(),
    {
        &self.config
    }

    /// The registry, for loading and direct queries.
    pub fn registry(&self) -> (r: &PluginRegistry<P>)
        ensures
            r@ == self.registry_spec(),
    {
        &self.registry
    }

    /// Hand a loaded capability to the registry: the manager-level
    /// step of the load path, after which the host reconciles the new
    /// entry's flag with the configuration.
    pub fn register_plugin(&mut self, plugin: P, path: &str) -> (name: String)
        requires
            old(self).wf(),
        ensures
            final(self).wf(),
            final(self).config_spec() == old(self).config_spec(),
            ({
                let pre = old(self).registry_spec();
                let post = final(self).registry_spec();
                let i = if has_name(pre, name@) {
                    name_index(pre, name@)
                } else {
                    pre.len() as int
                };
                &&& post.len() == if has_name(pre, name@) {
                    pre.len()
                } else {
                    pre.len() + 1
                }
                &&& 0 <= i < post.len()
                &&& post[i].name@ == name@
                &&& post[i].enabled
                &&& post[i].loaded
                &&& post[i].path@ == path@
                &&& forall|j: int| 0 <= j < post.len() && j != i ==> post[j] == pre[j]
            }),
    {
        self.registry.register_plugin(plugin, path)
    }

    /// The configured plugins directory.
    pub fn plugins_dir(&self) -> (r: &str)
        ensures
            r@ == self.config_spec().plugins_dir@,
    {
        self.config.plugins_dir()
    }

    /// Whether the named plugin is registered.
    pub fn has_plugin(&self, name: &str) -> (r: bool)
        ensures
            r == has_name(self.registry_spec(), name@),
    {
        self.registry.has_plugin(name)
    }

    /// The number of registered plugins.
    pub fn plugin_count(&self) -> (r: usize)
        ensures
            r == self.registry_spec().len(),
    {
        self.registry.plugin_count()
    }

    /// Force the registry flag of every just-loaded plugin to the
    /// persisted flag: the unconditional overwrite of initial load,
    /// which erases the default-enabled state a fresh module carries.
    pub fn reconcile_loaded(&mut self, loaded: &Vec<String>)
        requires
            old(self).wf(),
        ensures
            final(self).wf(),
            final(self).config_spec() == old(self).config_spec(),
            final(self).registry_spec().len() == old(self).registry_spec().len(),
            forall|i: int|
                #![trigger final(self).registry_spec()[i]]
                0 <= i < old(self).registry_spec().len() ==> ({
                    let pre = old(self).registry_spec()[i];
                    let post = final(self).registry_spec()[i];
                    &&& post.name == pre.name
                    &&& post.version == pre.version
                    &&& post.description == pre.description
                    &&& post.path == pre.path
                    &&& post.loaded == pre.loaded
                    &&& post.enabled == if names_contain(loaded.deep_view(), pre.name@) {
                        old(self).config_spec().plugin_enabled_spec(pre.name@)
                    } else {
                        pre.enabled
                    }
                }),
    {
        self.sync_names(loaded)
    }

    /// Replace the configuration image by a freshly reloaded one and
    /// flip every registered plugin's registry flag to the new
    /// persisted flag. Flags already in agreement are left alone, so
    /// the outcome equals the diff-based reconciliation.
    pub fn reload_config(&mut self, new_config: Config)
        requires
            old(self).wf(),
            new_config.wf(),
        ensures
            final(self).wf(),
            final(self).config_spec() == new_config,
            final(self).registry_spec().len() == old(self).registry_spec().len(),
            forall|i: int|
                #![trigger final(self).registry_spec()[i]]
                0 <= i < old(self).registry_spec().len() ==> ({
                    let pre = old(self).registry_spec()[i];
                    let post = final(self).registry_spec()[i];
                    &&& post.name == pre.name
                    &&& post.version == pre.version
                    &&& post.description == pre.description
                    &&& post.path == pre.path
                    &&& post.loaded == pre.loaded
                    &&& post.enabled == new_config.plugin_enabled_spec(pre.name@)
                }),
    {
        self.config = new_config;
        let names = self.registry_names();
        let ghost all = names.deep_view();
        self.sync_names(&names);
        proof {
            assert forall|i: int| 0 <= i < old(self).registry_spec().len() implies self
                .registry_spec()[i].enabled == new_config.plugin_enabled_spec(
                old(self).registry_spec()[i].name@,
            ) by {
                assert(all[i] == old(self).registry_spec()[i].name@);
                assert(names_contain(all, old(self).registry_spec()[i].name@));
            }
        }
    }

    /// The names of all registered plugins, in registry order.
    fn registry_names(&self) -> (r: Vec<String>)
        ensures
            r.deep_view().len() == self.registry_spec().len(),
            forall|i: int|
                0 <= i < self.registry_spec().len() ==> r.deep_view()[i]
                    == self.registry_spec()[i].name@,
    {
        let infos = self.registry.list_plugins();
        let mut names: Vec<String> = Vec::new();
        let mut i: usize = 0;
        while i < infos.len()
            invariant
                i <= infos@.len(),
                infos@ == self.registry_spec(),
                names@.len() == i,
                forall|j: int| 0 <= j < i ==> names@[j]@ == self.registry_spec()[j].name@,
            decreases infos@.len() - i,
        {
            names.push(infos[i].name.clone());
            i = i + 1;
        }
        proof {
            assert forall|j: int| 0 <= j < self.registry_spec().len() implies names.deep_view()[j]
                == self.registry_spec()[j].name@ by {
                assert(names.deep_view()[j] == names@[j]@);
            }
        }
        names
    }

    /// Set the registry flag of every named plugin to the persisted
    /// flag; names that are not registered are skipped.
    fn sync_names(&mut self, names: &Vec<String>)
        requires
            old(self).wf(),
        ensures
            final(self).wf(),
            final(self).config_spec() == old(self).config_spec(),
            final(self).registry_spec().len() == old(self).registry_spec().len(),
            forall|i: int|
                #![trigger final(self).registry_spec()[i]]
                0 <= i < old(self).registry_spec().len() ==> ({
                    let pre = old(self).registry_spec()[i];
                    let post = final(self).registry_spec()[i];
                    &&& post.name == pre.name
                    &&& post.version == pre.version
                    &&& post.description == pre.description
                    &&& post.path == pre.path
                    &&& post.loaded == pre.loaded
                    &&& post.enabled == if names_contain(names.deep_view(), pre.name@) {
                        old(self).config_spec().plugin_enabled_spec(pre.name@)
                    } else {
                        pre.enabled
                    }
                }),
    {
        let mut j: usize = 0;
        while j < names.len()
            invariant
                self.wf(),
                names.deep_view().len() == names@.len(),
                forall|t: int|
                    0 <= t < names@.len() ==> names.deep_view()[t] == names@[t]@,
                j <= names@.len(),
                self.config_spec() == old(self).config_spec(),
                self.registry_spec().len() == old(self).registry_spec().len(),
                forall|i: int|
                    #![trigger self.registry_spec()[i]]
                    0 <= i < old(self).registry_spec().len() ==> ({
                        let pre = old(self).registry_spec()[i];
                        let post = self.registry_spec()[i];
                        &&& post.name == pre.name
                        &&& post.version == pre.version
                        &&& post.description == pre.description
                        &&& post.path == pre.path
                        &&& post.loaded == pre.loaded
                        &&& post.enabled == if names_contain(
                            names.deep_view().subrange(0, j as int),
                            pre.name@,
                        ) {
                            old(self).config_spec().plugin_enabled_spec(pre.name@)
                        } else {
                            pre.enabled
                        }
                    }),
            decreases names@.len() - j,
        {
            let ghost mid = self.registry_spec();
            let ghost prefix = names.deep_view().subrange(0, j as int);
            let ghost ext = names.deep_view().subrange(0, j + 1 as int);
            let name = &names[j];
            let desired = self.config.is_plugin_enabled(name.as_str());
            let outcome = if desired {
                self.registry.enable_plugin(name.as_str())
            } else {
                self.registry.disable_plugin(name.as_str())
            };
            proof {
                assert(ext.drop_last() =~= prefix);
                assert(ext.last() == names@[j as int]@);
                assert forall|i: int|
                    #![trigger self.registry_spec()[i]]
                    0 <= i < old(self).registry_spec().len() implies ({
                        let pre = old(self).registry_spec()[i];
                        let post = self.registry_spec()[i];
                        &&& post.name == pre.name
                        &&& post.version == pre.version
                        &&& post.description == pre.description
                        &&& post.path == pre.path
                        &&& post.loaded == pre.loaded
                        &&& post.enabled == if names_contain(ext, pre.name@) {
                            old(self).config_spec().plugin_enabled_spec(pre.name@)
                        } else {
                            pre.enabled
                        }
                    }) by {
                    let pre = old(self).registry_spec()[i];
                    if names_contain(prefix, pre.name@) {
                        assert(names_contain(ext, pre.name@));
                    }
                    if pre.name@ == names@[j as int]@ {
                        assert(names_contain(ext, pre.name@));
                    } else {
                        if names_contain(ext, pre.name@) {
                            let t = choose|t: int|
                                0 <= t < ext.len() && ext[t] == pre.name@;
                            assert(t < prefix.len());
                            assert(names_contain(prefix, pre.name@));
                        }
                    }
                }
            }
            j = j + 1;
        }
        proof {
            assert(names.deep_view().subrange(0, names@.len() as int) =~= names.deep_view());
        }
    }

    /// All plugins, each merged with its persisted flag.
    pub fn list_plugins(&self) -> (r: Vec<PluginStatus>)
        requires
            self.wf(),
        ensures
            r@ == statuses_of(self.registry_spec(), self.config_spec()),
    {
        let infos = self.registry.list_plugins();
        let mut out: Vec<PluginStatus> = Vec::new();
        let mut i: usize = 0;
        while i < infos.len()
            invariant
                self.wf(),
                i <= infos@.len(),
                infos@ == self.registry_spec(),
                out@ == statuses_of(self.registry_spec(), self.config_spec()).subrange(
                    0,
                    i as int,
                ),
            decreases infos@.len() - i,
        {
            let config_enabled = self.config.is_plugin_enabled(infos[i].name.as_str());
            let status = PluginStatus {
                name: infos[i].name.clone(),
                version: infos[i].version.clone(),
                description: infos[i].description.clone(),
                enabled: infos[i].enabled,
                loaded: infos[i].loaded,
                path: infos[i].path.clone(),
                config_enabled,
            };
            out.push(status);
            i = i + 1;
            proof {
                assert(out@ =~= statuses_of(self.registry_spec(), self.config_spec()).subrange(
                    0,
                    i as int,
                ));
            }
        }
        proof {
            assert(out@ =~= statuses_of(self.registry_spec(), self.config_spec()));
        }
        out
    }

    /// The status of the named plugin, if it is registered.
    pub fn get_plugin_status(&self, name: &str) -> (r: Option<PluginStatus>)
        requires
            self.wf(),
        ensures
            match r {
                Some(status) => has_name(self.registry_spec(), name@) && status == status_of(
                    self.registry_spec()[name_index(self.registry_spec(), name@)],
                    self.config_spec(),
                ),
                None => !has_name(self.registry_spec(), name@),
            },
    {
        match self.registry.get_plugin_info(name) {
            Some(info) => {
                let config_enabled = self.config.is_plugin_enabled(info.name.as_str());
                Some(
                    PluginStatus {
                        name: info.name,
                        version: info.version,
                        description: info.description,
                        enabled: info.enabled,
                        loaded: info.loaded,
                        path: info.path,
                        config_enabled,
                    },
                )
            },
            None => None,
        }
    }

    /// Enabled plugins only: both flags on.
    pub fn list_enabled_plugins(&self) -> (r: Vec<PluginStatus>)
        requires
            self.wf(),
        ensures
            r@ == enabled_statuses(statuses_of(self.registry_spec(), self.config_spec())),
    {
        let statuses = self.list_plugins();
        let ghost full = statuses_of(self.registry_spec(), self.config_spec());
        let mut out: Vec<PluginStatus> = Vec::new();
        let mut i: usize = 0;
        proof {
            assert(full.subrange(0, 0) =~= Seq::<PluginStatus>::empty());
        }
        while i < statuses.len()
            invariant
                i <= statuses@.len(),
                statuses@ == full,
                out@ == enabled_statuses(full.subrange(0, i as int)),
            decreases statuses@.len() - i,
        {
            proof {
                assert(full.subrange(0, i + 1 as int).drop_last() =~= full.subrange(0, i as int));
            }
            if statuses[i].enabled && statuses[i].config_enabled {
                out.push(duplicate_status(&statuses[i]));
                proof {
                    assert(out@ =~= enabled_statuses(full.subrange(0, i as int)).push(
                        full[i as int],
                    ));
                }
            }
            i = i + 1;
        }
        proof {
            assert(full.subrange(0, full.len() as int) =~= full);
        }
        out
    }

    /// Disabled plugins only: either flag off.
    pub fn list_disabled_plugins(&self) -> (r: Vec<PluginStatus>)
        requires
            self.wf(),
        ensures
            r@ == disabled_statuses(statuses_of(self.registry_spec(), self.config_spec())),
    {
        let statuses = self.list_plugins();
        let ghost full = statuses_of(self.registry_spec(), self.config_spec());
        let mut out: Vec<PluginStatus> = Vec::new();
        let mut i: usize = 0;
        proof {
            assert(full.subrange(0, 0) =~= Seq::<PluginStatus>::empty());
        }
        while i < statuses.len()
            invariant
                i <= statuses@.len(),
                statuses@ == full,
                out@ == disabled_statuses(full.subrange(0, i as int)),
            decreases statuses@.len() - i,
        {
            proof {
                assert(full.subrange(0, i + 1 as int).drop_last() =~= full.subrange(0, i as int));
            }
            if !(statuses[i].enabled && statuses[i].config_enabled) {
                out.push(duplicate_status(&statuses[i]));
                proof {
                    assert(out@ =~= disabled_statuses(full.subrange(0, i as int)).push(
                        full[i as int],
                    ));
                }
            }
            i = i + 1;
        }
        proof {
            assert(full.subrange(0, full.len() as int) =~= full);
        }
        out
    }

    /// Enable the named plugin in the registry and in the
    /// configuration image; the host persists the image afterwards,
    /// and surfaces a persistence failure instead of swallowing it.
    pub fn enable_plugin(&mut self, name: &str) -> (r: Result<(), PluginError>)
        requires
            old(self).wf(),
        ensures
            final(self).wf(),
            match r {
                Ok(()) => ({
                    &&& has_name(old(self).registry_spec(), name@)
                    &&& registry_flag_set(
                        old(self).registry_spec(),
                        final(self).registry_spec(),
                        name@,
                        true,
                    )
                    &&& set_enabled_rel(
                        old(self).config_spec().plugins@,
                        final(self).config_spec().plugins@,
                        name@,
                        true,
                    )
                    &&& final(self).config_spec().plugin_enabled_spec(name@) == true
                    &&& config_rest_unchanged(old(self).config_spec(), final(self).config_spec())
                }),
                Err(e) => ({
                    &&& !has_name(old(self).registry_spec(), name@)
                    &&& final(self).registry_spec() == old(self).registry_spec()
                    &&& final(self).config_spec() == old(self).config_spec()
                    &&& (e matches PluginError::NotFound { name: n } && n@ == name@)
                }),
            },
    {
        self.set_plugin_enabled(name, true)
    }

    /// Disable the named plugin in the registry and in the
    /// configuration image; the host persists the image afterwards.
    pub fn disable_plugin(&mut self, name: &str) -> (r: Result<(), PluginError>)
        requires
            old(self).wf(),
        ensures
            final(self).wf(),
            match r {
                Ok(()) => ({
                    &&& has_name(old(self).registry_spec(), name@)
                    &&& registry_flag_set(
                        old(self).registry_spec(),
                        final(self).registry_spec(),
                        name@,
                        false,
                    )
                    &&& set_enabled_rel(
                        old(self).config_spec().plugins@,
                        final(self).config_spec().plugins@,
                        name@,
                        false,
                    )
                    &&& final(self).config_spec().plugin_enabled_spec(name@) == false
                    &&& config_rest_unchanged(old(self).config_spec(), final(self).config_spec())
                }),
                Err(e) => ({
                    &&& !has_name(old(self).registry_spec(), name@)
                    &&& final(self).registry_spec() == old(self).registry_spec()
                    &&& final(self).config_spec() == old(self).config_spec()
                    &&& (e matches PluginError::NotFound { name: n } && n@ == name@)
                }),
            },
    {
        self.set_plugin_enabled(name, false)
    }

    /// Set one plugin's flag in both components.
    fn set_plugin_enabled(&mut self, name: &str, value: bool) -> (r: Result<(), PluginError>)
        requires
            old(self).wf(),
        ensures
            final(self).wf(),
            match r {
                Ok(()) => ({
                    &&& has_name(old(self).registry_spec(), name@)
                    &&& registry_flag_set(
                        old(self).registry_spec(),
                        final(self).registry_spec(),
                        name@,
                        value,
                    )
                    &&& set_enabled_rel(
                        old(self).config_spec().plugins@,
                        final(self).config_spec().plugins@,
                        name@,
                        value,
                    )
                    &&& final(self).config_spec().plugin_enabled_spec(name@) == value
                    &&& config_rest_unchanged(old(self).config_spec(), final(self).config_spec())
                }),
                Err(e) => ({
                    &&& !has_name(old(self).registry_spec(), name@)
                    &&& final(self).registry_spec() == old(self).registry_spec()
                    &&& final(self).config_spec() == old(self).config_spec()
                    &&& (e matches PluginError::NotFound { name: n } && n@ == name@)
                }),
            },
    {
        if !self.registry.has_plugin(name) {
            return Err(PluginError::NotFound { name: name.to_owned() });
        }
        let step = if value {
            self.registry.enable_plugin(name)
        } else {
            self.registry.disable_plugin(name)
        };
        proof {
            assert(step is Ok);
        }
        if value {
            self.config.enable_plugin(name);
        } else {
            self.config.disable_plugin(name);
        }
        Ok(())
    }

    /// The record of the named plugin in the configuration image,
    /// created enabled and empty if absent.
    pub fn get_plugin_config(&mut self, name: &str) -> (r: PluginConfig)
        requires
            old(self).wf(),
        ensures
            final(self).wf(),
            final(self).registry_spec() == old(self).registry_spec(),
            assoc_has_key(final(self).config_spec().plugins@, name@),
            r.enabled == final(self).config_spec().plugins@[assoc_key_index(
                final(self).config_spec().plugins@,
                name@,
            )].1.enabled,
            r.settings@ == final(self).config_spec().plugins@[assoc_key_index(
                final(self).config_spec().plugins@,
                name@,
            )].1.settings@,
    {
        self.config.get_plugin_config(name)
    }

    /// Store one setting of the named plugin in the configuration
    /// image; the host persists the image afterwards.
    pub fn set_plugin_setting(&mut self, plugin_name: &str, key: &str, value: &str)
        requires
            old(self).wf(),
        ensures
            final(self).wf(),
            final(self).registry_spec() == old(self).registry_spec(),
            final(self).config_spec().setting_spec(plugin_name@, key@) == Some(value@),
            final(self).config_spec().plugin_enabled_spec(plugin_name@) == old(
                self,
            ).config_spec().plugin_enabled_spec(plugin_name@),
            forall|other: Seq<char>|
                other != plugin_name@ ==> final(self).config_spec().plugin_enabled_spec(other)
                    == old(self).config_spec().plugin_enabled_spec(other),
            forall|k: Seq<char>|
                k != key@ ==> final(self).config_spec().setting_spec(plugin_name@, k) == old(
                    self,
                ).config_spec().setting_spec(plugin_name@, k),
            forall|other: Seq<char>, k: Seq<char>|
                other != plugin_name@ ==> final(self).config_spec().setting_spec(other, k) == old(
                    self,
                ).config_spec().setting_spec(other, k),
    {
        self.config.set_plugin_setting(plugin_name, key, value)
    }

    /// The stored value of one setting of the named plugin, if any.
    pub fn get_plugin_setting(&self, plugin_name: &str, key: &str) -> (r: Option<String>)
        requires
            self.wf(),
        ensures
            match r {
                Some(v) => self.config_spec().setting_spec(plugin_name@, key@) == Some(v@),
                None => self.config_spec().setting_spec(plugin_name@, key@) is None,
            },
    {
        self.config.get_plugin_setting(plugin_name, key)
    }

    /// The pre-execution check: the plugin must exist and both its
    /// flags must be on, else the NotFound or PluginDisabled hard stop.
    pub fn check_executable(&self, name: &str) -> (r: Result<(), PluginError>)
        requires
            self.wf(),
        ensures
            match r {
                Ok(()) => runnable(self.registry_spec(), self.config_spec(), name@),
                Err(e) => !runnable(self.registry_spec(), self.config_spec(), name@) && match e {
                    PluginError::NotFound { name: n } => n@ == name@ && !has_name(
                        self.registry_spec(),
                        name@,
                    ),
                    PluginError::PluginDisabled { name: n } => n@ == name@ && has_name(
                        self.registry_spec(),
                        name@,
                    ),
                    _ => false,
                },
            },
    {
        match self.registry.get_plugin_info(name) {
            None => Err(PluginError::NotFound { name: name.to_owned() }),
            Some(info) => {
                let config_enabled = self.config.is_plugin_enabled(name);
                if !info.enabled || !config_enabled {
                    Err(PluginError::PluginDisabled { name: name.to_owned() })
                } else {
                    Ok(())
                }
            },
        }
    }

    /// One capability attempt after the manager's checks: the unit
    /// the host's deadline loop repeats.
    pub fn execute_once(&self, name: &str, input: &str) -> (r: Result<String, PluginError>)
        requires
            self.wf(),
        ensures
            match r {
                Ok(_) => runnable(self.registry_spec(), self.config_spec(), name@),
                Err(e) => match e {
                    PluginError::NotFound { name: n } => n@ == name@ && !has_name(
                        self.registry_spec(),
                        name@,
                    ),
                    PluginError::PluginDisabled { name: n } => n@ == name@ && has_name(
                        self.registry_spec(),
                        name@,
                    ) && !runnable(self.registry_spec(), self.config_spec(), name@),
                    PluginError::ExecutionFailed { .. } => runnable(
                        self.registry_spec(),
                        self.config_spec(),
                        name@,
                    ),
                    _ => false,
                },
            },
    {
        match self.check_executable(name) {
            Err(e) => Err(e),
            Ok(()) => self.registry.execute_plugin_once(name, input),
        }
    }

    /// Begin an execution under the registry's retry discipline: the
    /// path taken when no deadline was asked for. With a zero retry
    /// delay the step is always `Done`; otherwise the host sleeps on
    /// `Sleep` and calls [`Self::resume_execution`].
    pub fn begin_execution(&self, name: &str, input: &str, options: &ExecutionOptions) -> (r:
        ExecStep)
        requires
            self.wf(),
            options.max_retries >= 1,
        ensures
            manager_step_ok(
                &r,
                self.registry_spec(),
                self.config_spec(),
                name@,
                options.max_retries,
                options.retry_delay_ms,
            ),
            options.retry_delay_ms == 0 ==> (r matches ExecStep::Done(_)),
    {
        match self.check_executable(name) {
            Err(e) => ExecStep::Done(Err(e)),
            Ok(()) => self.registry.execute_plugin_with_retry(
                name,
                input,
                options.max_retries,
                options.retry_delay_ms,
            ),
        }
    }

    /// Resume an execution that paused between retry attempts.
    pub fn resume_execution(&self, name: &str, input: &str, state: RetryState) -> (r: ExecStep)
        requires
            self.wf(),
            state.wf(),
        ensures
            manager_step_ok(
                &r,
                self.registry_spec(),
                self.config_spec(),
                name@,
                state.max_retries,
                state.retry_delay_ms,
            ),
            state.retry_delay_ms == 0 ==> (r matches ExecStep::Done(_)),
    {
        match self.check_executable(name) {
            Err(e) => ExecStep::Done(Err(e)),
            Ok(()) => self.registry.resume_execution(name, input, state),
        }
    }

    /// Enable each named plugin in turn, each attempt independent of
    /// the others: partial failure is normal, and the result list
    /// pairs every name with its own outcome, in input order.
    pub fn enable_plugins(&mut self, plugin_names: &Vec<String>) -> (r: Vec<
        (String, Result<(), PluginError>),
    >)
        requires
            old(self).wf(),
        ensures
            final(self).wf(),
            r@.len() == plugin_names@.len(),
            forall|i: int| 0 <= i < r@.len() ==> (#[trigger] r@[i]).0@ == plugin_names@[i]@,
            forall|i: int|
                0 <= i < r@.len() ==> (((#[trigger] r@[i]).1 is Ok) == has_name(
                    old(self).registry_spec(),
                    plugin_names@[i]@,
                )),
            forall|i: int|
                0 <= i < r@.len() ==> (((#[trigger] r@[i]).1 is Err) ==> (r@[i].1->Err_0
                    matches PluginError::NotFound { name: n } && n@ == plugin_names@[i]@)),
            batch_state_set(
                old(self).registry_spec(),
                final(self).registry_spec(),
                old(self).config_spec(),
                final(self).config_spec(),
                plugin_names.deep_view(),
                true,
            ),
    {
        self.set_plugins_enabled(plugin_names, true)
    }

    /// Disable each named plugin in turn, independently.
    pub fn disable_plugins(&mut self, plugin_names: &Vec<String>) -> (r: Vec<
        (String, Result<(), PluginError>),
    >)
        requires
            old(self).wf(),
        ensures
            final(self).wf(),
            r@.len() == plugin_names@.len(),
            forall|i: int| 0 <= i < r@.len() ==> (#[trigger] r@[i]).0@ == plugin_names@[i]@,
            forall|i: int|
                0 <= i < r@.len() ==> (((#[trigger] r@[i]).1 is Ok) == has_name(
                    old(self).registry_spec(),
                    plugin_names@[i]@,
                )),
            forall|i: int|
                0 <= i < r@.len() ==> (((#[trigger] r@[i]).1 is Err) ==> (r@[i].1->Err_0
                    matches PluginError::NotFound { name: n } && n@ == plugin_names@[i]@)),
            batch_state_set(
                old(self).registry_spec(),
                final(self).registry_spec(),
                old(self).config_spec(),
                final(self).config_spec(),
                plugin_names.deep_view(),
                false,
            ),
    {
        self.set_plugins_enabled(plugin_names, false)
    }

    /// The shared loop of the two batch operations.
    fn set_plugins_enabled(&mut self, plugin_names: &Vec<String>, value: bool) -> (r: Vec<
        (String, Result<(), PluginError>),
    >)
        requires
            old(self).wf(),
        ensures
            final(self).wf(),
            r@.len() == plugin_names@.len(),
            forall|i: int| 0 <= i < r@.len() ==> (#[trigger] r@[i]).0@ == plugin_names@[i]@,
            forall|i: int|
                0 <= i < r@.len() ==> (((#[trigger] r@[i]).1 is Ok) == has_name(
                    old(self).registry_spec(),
                    plugin_names@[i]@,
                )),
            forall|i: int|
                0 <= i < r@.len() ==> (((#[trigger] r@[i]).1 is Err) ==> (r@[i].1->Err_0
                    matches PluginError::NotFound { name: n } && n@ == plugin_names@[i]@)),
            batch_state_set(
                old(self).registry_spec(),
                final(self).registry_spec(),
                old(self).config_spec(),
                final(self).config_spec(),
                plugin_names.deep_view(),
                value,
            ),
    {
        let mut out: Vec<(String, Result<(), PluginError>)> = Vec::new();
        let mut j: usize = 0;
        while j < plugin_names.len()
            invariant
                self.wf(),
                old(self).wf(),
                plugin_names.deep_view().len() == plugin_names@.len(),
                forall|t: int|
                    0 <= t < plugin_names@.len() ==> plugin_names.deep_view()[t]
                        == plugin_names@[t]@,
                j <= plugin_names@.len(),
                out@.len() == j,
                forall|i: int| 0 <= i < j ==> (#[trigger] out@[i]).0@ == plugin_names@[i]@,
                forall|i: int|
                    0 <= i < j ==> (((#[trigger] out@[i]).1 is Ok) == has_name(
                        old(self).registry_spec(),
                        plugin_names@[i]@,
                    )),
                forall|i: int|
                    0 <= i < j ==> (((#[trigger] out@[i]).1 is Err) ==> (out@[i].1->Err_0
                        matches PluginError::NotFound { name: n } && n@ == plugin_names@[i]@)),
                batch_state_set(
                    old(self).registry_spec(),
                    self.registry_spec(),
                    old(self).config_spec(),
                    self.config_spec(),
                    plugin_names.deep_view().subrange(0, j as int),
                    value,
                ),
            decreases plugin_names@.len() - j,
        {
            let ghost pre_reg = self.registry_spec();
            let ghost pre_cfg = self.config_spec();
            let ghost prefix = plugin_names.deep_view().subrange(0, j as int);
            let ghost ext = plugin_names.deep_view().subrange(0, j + 1 as int);
            let name = plugin_names[j].clone();
            let outcome = self.set_plugin_enabled(name.as_str(), value);
            proof {
                assert(ext.drop_last() =~= prefix);
                assert(ext.last() == plugin_names@[j as int]@);
                assert(has_name(pre_reg, name@) == has_name(
                    old(self).registry_spec(),
                    name@,
                )) by {
                    if has_name(old(self).registry_spec(), name@) {
                        let t = choose|t: int|
                            0 <= t < old(self).registry_spec().len() && old(
                                self,
                            ).registry_spec()[t].name@ == name@;
                        assert(pre_reg[t].name@ == name@);
                    }
                    if has_name(pre_reg, name@) {
                        let t = choose|t: int|
                            0 <= t < pre_reg.len() && pre_reg[t].name@ == name@;
                        assert(old(self).registry_spec()[t].name@ == name@);
                    }
                }
                if outcome is Ok {
                    lemma_set_enabled_rel_unique(
                        pre_cfg.plugins@,
                        self.config_spec().plugins@,
                        name@,
                        value,
                    );
                }
                lemma_batch_state_step(
                    old(self).registry_spec(),
                    pre_reg,
                    self.registry_spec(),
                    old(self).config_spec(),
                    pre_cfg,
                    self.config_spec(),
                    prefix,
                    plugin_names@[j as int]@,
                    value,
                );
            }
            out.push((name, outcome));
            j = j + 1;
        }
        proof {
            assert(plugin_names.deep_view().subrange(0, plugin_names@.len() as int)
                =~= plugin_names.deep_view());
        }
        out
    }

    /// The deadline check made before each attempt of a timed
    /// execution: past the deadline, the outcome is a TimeoutError
    /// naming the plugin's execution.
    pub fn deadline_check(name: &str, elapsed_ms: u64, timeout_ms: u64) -> (r: Option<
        PluginError,
    >)
        ensures
            (r is Some) == (elapsed_ms >= timeout_ms),
            r matches Some(e) ==> (e matches PluginError::TimeoutError { operation } && operation@
                == "Plugin '"@ + name@ + "' execution"@),
    {
        if elapsed_ms >= timeout_ms {
            let operation = String::from_str("Plugin '").concat(name).concat("' execution");
            Some(PluginError::TimeoutError { operation })
        } else {
            None
        }
    }

    /// The decision made on one attempt's outcome in a timed
    /// execution: success and non-transient failures finish, and a
    /// transient failure backs off a fixed tenth of a second,
    /// independent of the configured retry delay. Only the deadline
    /// ends the retrying, checked between attempts and never during
    /// one.
    pub fn deadline_decision(outcome: Result<String, PluginError>) -> (r: DeadlineStep)
        ensures
            match r {
                DeadlineStep::Finish(o) => o == outcome && (o matches Err(e)
                    ==> !deadline_retryable(&e)),
                DeadlineStep::RetryAfter { backoff_ms } => backoff_ms == 100 && (outcome
                    matches Err(e) && deadline_retryable(&e)),
            },
    {
        match outcome {
            Ok(output) => DeadlineStep::Finish(Ok(output)),
            Err(e) => {
                let retry = if e.is_transient() {
                    true
                } else {
                    match &e {
                        PluginError::ExecutionFailed { message } => is_execution_error_transient(
                            message.as_str(),
                        ),
                        _ => false,
                    }
                };
                if retry {
                    DeadlineStep::RetryAfter { backoff_ms: 100 }
                } else {
                    DeadlineStep::Finish(Err(e))
                }
            },
        }
    }

    /// Fold an execution outcome and its measured wall-clock time into
    /// the result record the manager always hands outward: failures
    /// become data, with the user-facing message as the output.
    pub fn into_execution_result(name: &str, outcome: Result<String, PluginError>, duration_ms:
        u64) -> (r: ExecutionResult)
        ensures
            r.plugin@ == name@,
            r.duration_ms == duration_ms,
            match outcome {
                Ok(output) => r.success && r.output == output,
                Err(e) => !r.success && r.output@ == user_message_spec(&e),
            },
    {
        match outcome {
            Ok(output) => ExecutionResult {
                plugin: name.to_owned(),
                output,
                duration_ms,
                success: true,
            },
            Err(e) => ExecutionResult {
                plugin: name.to_owned(),
                output: e.user_friendly_message(),
                duration_ms,
                success: false,
            },
        }
    }
}

impl ExecutionResult {
    /// The conventional-propagation view of a result record: the
    /// output on success, an ExecutionFailed carrying the user-facing
    /// message otherwise.
    pub fn into_simple(self) -> (r: Result<String, PluginError>)
        ensures
            match r {
                Ok(output) => self.success && output == self.output,
                Err(e) => !self.success && (e matches PluginError::ExecutionFailed { message }
                    && message == self.output),
            },
    {
        if self.success {
            Ok(self.output)
        } else {
            Err(PluginError::ExecutionFailed { message: self.output })
        }
    }
}

/// Everything of the configuration but the plugin records is equal,
/// and the settings of every record read the same.
pub open spec fn config_rest_unchanged(pre: Config, post: Config) -> bool {
    &&& post.plugins_dir == pre.plugins_dir
    &&& post.log_level == pre.log_level
    &&& post.server == pre.server
    &&& forall|o: Seq<char>, k: Seq<char>|
        #[trigger] setting_in(post.plugins@, o, k) == setting_in(pre.plugins@, o, k)
}

/// The named plugin's registry flag was set to `value`; every other
/// descriptor and every other field is untouched.
pub open spec fn registry_flag_set(
    pre: Seq<PluginInfo>,
    post: Seq<PluginInfo>,
    name: Seq<char>,
    value: bool,
) -> bool {
    &&& post.len() == pre.len()
    &&& has_name(pre, name)
    &&& ({
        let i = name_index(pre, name);
        &&& post[i].name == pre[i].name
        &&& post[i].version == pre[i].version
        &&& post[i].description == pre[i].description
        &&& post[i].path == pre[i].path
        &&& post[i].loaded == pre[i].loaded
        &&& post[i].enabled == value
        &&& forall|j: int| 0 <= j < pre.len() && j != i ==> post[j] == pre[j]
    })
}

/// The cumulative effect of one batch enable or disable over a list
/// of names: every listed, registered plugin's two flags read `value`,
/// and nothing else moved.
pub open spec fn batch_state_set(
    pre_reg: Seq<PluginInfo>,
    post_reg: Seq<PluginInfo>,
    pre_cfg: Config,
    post_cfg: Config,
    names: Seq<Seq<char>>,
    value: bool,
) -> bool {
    &&& post_reg.len() == pre_reg.len()
    &&& forall|i: int|
        #![trigger post_reg[i]]
        0 <= i < pre_reg.len() ==> ({
            let pre = pre_reg[i];
            let post = post_reg[i];
            &&& post.name == pre.name
            &&& post.version == pre.version
            &&& post.description == pre.description
            &&& post.path == pre.path
            &&& post.loaded == pre.loaded
            &&& post.enabled == if names_contain(names, pre.name@) {
                value
            } else {
                pre.enabled
            }
        })
    &&& forall|n: Seq<char>|
        #[trigger] plugin_enabled_in(post_cfg.plugins@, n) == if names_contain(names, n)
            && has_name(pre_reg, n) {
            value
        } else {
            plugin_enabled_in(pre_cfg.plugins@, n)
        }
    &&& forall|o: Seq<char>, k: Seq<char>|
        #[trigger] setting_in(post_cfg.plugins@, o, k) == setting_in(pre_cfg.plugins@, o, k)
    &&& post_cfg.plugins_dir == pre_cfg.plugins_dir
    &&& post_cfg.log_level == pre_cfg.log_level
    &&& post_cfg.server == pre_cfg.server
}

/// One more name processed extends the cumulative batch effect.
proof fn lemma_batch_state_step(
    reg0: Seq<PluginInfo>,
    reg1: Seq<PluginInfo>,
    reg2: Seq<PluginInfo>,
    cfg0: Config,
    cfg1: Config,
    cfg2: Config,
    prefix: Seq<Seq<char>>,
    name: Seq<char>,
    value: bool,
)
    requires
        crate::registry::unique_names(reg0),
        batch_state_set(reg0, reg1, cfg0, cfg1, prefix, value),
        // the step on `name`: either it was applied to both components,
        // or the name is unregistered and nothing changed
        if has_name(reg1, name) {
            &&& registry_flag_set(reg1, reg2, name, value)
            &&& set_enabled_rel(cfg1.plugins@, cfg2.plugins@, name, value)
            &&& plugin_enabled_in(cfg2.plugins@, name) == value
            &&& cfg2.plugins_dir == cfg1.plugins_dir
            &&& cfg2.log_level == cfg1.log_level
            &&& cfg2.server == cfg1.server
            &&& forall|o: Seq<char>, k: Seq<char>|
                #[trigger] setting_in(cfg2.plugins@, o, k) == setting_in(cfg1.plugins@, o, k)
            &&& forall|other: Seq<char>|
                other != name ==> plugin_enabled_in(cfg2.plugins@, other) == plugin_enabled_in(
                    cfg1.plugins@,
                    other,
                )
        } else {
            reg2 == reg1 && cfg2 == cfg1
        },
    ensures
        batch_state_set(reg0, reg2, cfg0, cfg2, prefix.push(name), value),
{
    let ext = prefix.push(name);
    assert forall|n: Seq<char>| #[trigger] names_contain(ext, n) implies (names_contain(
        prefix,
        n,
    ) || n == name) by {
        let t = choose|t: int| 0 <= t < ext.len() && ext[t] == n;
        if t < prefix.len() {
            assert(names_contain(prefix, n));
        }
    }
    assert forall|n: Seq<char>| names_contain(prefix, n) implies names_contain(ext, n) by {
        let t = choose|t: int| 0 <= t < prefix.len() && prefix[t] == n;
        assert(ext[t] == n);
    }
    assert(names_contain(ext, name)) by {
        assert(ext[prefix.len() as int] == name);
    }
    assert(has_name(reg1, name) == has_name(reg0, name)) by {
        if has_name(reg0, name) {
            let i = choose|i: int| 0 <= i < reg0.len() && reg0[i].name@ == name;
            assert(reg1[i].name@ == name);
        }
        if has_name(reg1, name) {
            let i = choose|i: int| 0 <= i < reg1.len() && reg1[i].name@ == name;
            assert(reg0[i].name@ == name);
        }
    }
    if has_name(reg1, name) {
        let i = name_index(reg1, name);
        assert(0 <= i < reg1.len() && reg1[i].name@ == name);
        assert(reg0[i].name@ == name);
        assert forall|j: int|
            #![trigger reg2[j]]
            0 <= j < reg0.len() implies ({
            let pre = reg0[j];
            let post = reg2[j];
            &&& post.name == pre.name
            &&& post.version == pre.version
            &&& post.description == pre.description
            &&& post.path == pre.path
            &&& post.loaded == pre.loaded
            &&& post.enabled == if names_contain(ext, pre.name@) {
                value
            } else {
                pre.enabled
            }
        }) by {
            if j == i {
                assert(reg0[j].name@ == name);
                assert(names_contain(ext, reg0[j].name@));
            } else {
                assert(reg2[j] == reg1[j]);
                // names are unique, so only entry i carries `name`
                assert(reg0[j].name@ != name);
                assert(names_contain(ext, reg0[j].name@) == names_contain(
                    prefix,
                    reg0[j].name@,
                ));
            }
        }
        assert forall|n: Seq<char>| #[trigger] plugin_enabled_in(cfg2.plugins@, n) == (
        if names_contain(ext, n) && has_name(reg0, n) {
            value
        } else {
            plugin_enabled_in(cfg0.plugins@, n)
        }) by {
            if n != name {
                assert(plugin_enabled_in(cfg2.plugins@, n) == plugin_enabled_in(
                    cfg1.plugins@,
                    n,
                ));
            }
        }
    } else {
        assert forall|n: Seq<char>| #[trigger] plugin_enabled_in(cfg2.plugins@, n) == (
        if names_contain(ext, n) && has_name(reg0, n) {
            value
        } else {
            plugin_enabled_in(cfg0.plugins@, n)
        }) by {
            if n == name {
                assert(!has_name(reg0, name));
            }
        }
        assert forall|j: int|
            #![trigger reg2[j]]
            0 <= j < reg0.len() implies reg2[j].enabled == (
        if names_contain(ext, reg0[j].name@) {
            value
        } else {
            reg0[j].enabled
        }) by {
            if reg0[j].name@ == name {
                assert(reg1[j].name@ == name);
                assert(has_name(reg1, name));
            } else {
                assert(names_contain(ext, reg0[j].name@) == names_contain(
                    prefix,
                    reg0[j].name@,
                ));
            }
        }
    }
}

/// A fresh status record equal to the given one.
fn duplicate_status(s: &PluginStatus) -> (r: PluginStatus)
    ensures
        r == *s,
{
    PluginStatus {
        name: s.name.clone(),
        version: s.version.clone(),
        description: s.description.clone(),
        enabled: s.enabled,
        loaded: s.loaded,
        path: s.path.clone(),
        config_enabled: s.config_enabled,
    }
}

} // verus!
