//! The in-memory configuration of the plugin system: the scan
//! directory, the log level, the server settings, and the per-plugin
//! enabled flags and key/value settings that the durable store
//! persists. Reading and writing the durable file is the host's work;
//! every rule about the configuration's content lives here.

use vstd::prelude::*;
use crate::strutil::str_eq;

verus! {

/// Server configuration of the HTTP front end.
#[derive(Clone, Debug)]
pub struct ServerConfig {
    pub host: String,
    pub port: u16,
    pub enabled: bool,
}

/// Per-plugin persisted state: the desired enabled flag and arbitrary
/// key/value settings, keyed uniquely.
#[derive(Clone, Debug)]
pub struct PluginConfig {
    pub enabled: bool,
    pub settings: Vec<(String, String)>,
}

/// The whole configuration document, with per-plugin records keyed
/// uniquely by plugin name.
#[derive(Clone, Debug)]
pub struct Config {
    pub plugins_dir: String,
    pub log_level: String,
    pub server: ServerConfig,
    pub plugins: Vec<(String, PluginConfig)>,
}

/// Some pair in `m` carries the key `key`.
pub open spec fn assoc_has_key<V>(m: Seq<(String, V)>, key: Seq<char>) -> bool {
    exists|i: int| 0 <= i < m.len() && m[i].0@ == key
}

/// The position of the pair keyed `key`.
pub open spec fn assoc_key_index<V>(m: Seq<(String, V)>, key: Seq<char>) -> int {
    choose|i: int| 0 <= i < m.len() && m[i].0@ == key
}

/// No two pairs carry the same key.
pub open spec fn assoc_unique_keys<V>(m: Seq<(String, V)>) -> bool {
    forall|i: int, j: int| 0 <= i < j < m.len() ==> m[i].0@ != m[j].0@
}

/// With unique keys, a pair's position is its key's index.
pub proof fn lemma_assoc_key_index_unique<V>(m: Seq<(String, V)>, key: Seq<char>, i: int)
    requires
        assoc_unique_keys(m),
        0 <= i < m.len(),
        m[i].0@ == key,
    ensures
        assoc_has_key(m, key),
        assoc_key_index(m, key) == i,
{
    assert(assoc_has_key(m, key));
    let j = assoc_key_index::<V>(m, key);
    if i < j {
        assert(m[i].0@ != m[j].0@);
    } else if j < i {
        assert(m[j].0@ != m[i].0@);
    }
}

/// Replacing the value under one key, keeping its key string, keeps
/// the keys unique and leaves every other pair where it was.
pub proof fn lemma_assoc_update_frame<V>(pre: Seq<(String, V)>, post: Seq<(String, V)>, i: int)
    requires
        assoc_unique_keys(pre),
        0 <= i < pre.len(),
        post.len() == pre.len(),
        post[i].0 == pre[i].0,
        forall|j: int| 0 <= j < pre.len() && j != i ==> post[j] == pre[j],
    ensures
        assoc_unique_keys(post),
        assoc_has_key(post, pre[i].0@),
        assoc_key_index(post, pre[i].0@) == i,
        forall|other: Seq<char>|
            other != pre[i].0@ ==> assoc_has_key(post, other) == assoc_has_key(pre, other),
        forall|other: Seq<char>|
            other != pre[i].0@ && assoc_has_key(pre, other) ==> assoc_key_index(post, other)
                == assoc_key_index(pre, other) && post[assoc_key_index(pre, other)]
                == pre[assoc_key_index(pre, other)],
{
    assert forall|a: int, b: int| 0 <= a < b < post.len() implies post[a].0@ != post[b].0@ by {
        assert(pre[a].0@ != pre[b].0@);
    }
    lemma_assoc_key_index_unique(post, pre[i].0@, i);
    assert forall|other: Seq<char>|
        other != pre[i].0@ && assoc_has_key(pre, other) implies assoc_key_index(post, other)
        == assoc_key_index(pre, other) && post[assoc_key_index(pre, other)]
        == pre[assoc_key_index(pre, other)] by {
        let k = assoc_key_index(pre, other);
        assert(0 <= k < pre.len() && pre[k].0@ == other);
        assert(k != i);
        lemma_assoc_key_index_unique(post, other, k);
    }
    assert forall|other: Seq<char>|
        other != pre[i].0@ implies assoc_has_key(post, other) == assoc_has_key(pre, other) by {
        if assoc_has_key(post, other) {
            let k = assoc_key_index(post, other);
            assert(0 <= k < post.len() && post[k].0@ == other);
            assert(k != i);
            assert(pre[k].0@ == other);
        }
    }
}

/// Appending a pair under an absent key keeps the keys unique and
/// leaves every existing pair where it was.
pub proof fn lemma_assoc_append_frame<V>(
    pre: Seq<(String, V)>,
    post: Seq<(String, V)>,
    name: Seq<char>,
)
    requires
        assoc_unique_keys(pre),
        !assoc_has_key(pre, name),
        post.len() == pre.len() + 1,
        post[pre.len() as int].0@ == name,
        forall|j: int| 0 <= j < pre.len() ==> post[j] == pre[j],
    ensures
        assoc_unique_keys(post),
        assoc_has_key(post, name),
        assoc_key_index(post, name) == pre.len() as int,
        forall|other: Seq<char>|
            other != name ==> assoc_has_key(post, other) == assoc_has_key(pre, other),
        forall|other: Seq<char>|
            other != name && assoc_has_key(pre, other) ==> assoc_key_index(post, other)
                == assoc_key_index(pre, other) && post[assoc_key_index(pre, other)]
                == pre[assoc_key_index(pre, other)],
{
    let n = pre.len() as int;
    assert forall|a: int, b: int| 0 <= a < b < post.len() implies post[a].0@ != post[b].0@ by {
        if b < n {
            assert(pre[a].0@ != pre[b].0@);
        } else {
            assert(post[b].0@ == name);
            assert(post[a] == pre[a]);
        }
    }
    lemma_assoc_key_index_unique(post, name, n);
    assert forall|other: Seq<char>|
        other != name && assoc_has_key(pre, other) implies assoc_key_index(post, other)
        == assoc_key_index(pre, other) && post[assoc_key_index(pre, other)]
        == pre[assoc_key_index(pre, other)] by {
        let k = assoc_key_index(pre, other);
        assert(0 <= k < pre.len() && pre[k].0@ == other);
        lemma_assoc_key_index_unique(post, other, k);
    }
    assert forall|other: Seq<char>|
        other != name implies assoc_has_key(post, other) == assoc_has_key(pre, other) by {
        if assoc_has_key(post, other) {
            let k = assoc_key_index(post, other);
            assert(0 <= k < post.len() && post[k].0@ == other);
            assert(k != n);
            assert(pre[k].0@ == other);
        }
    }
}

/// The value the records hold for one setting of one plugin.
pub open spec fn setting_in(
    plugins: Seq<(String, PluginConfig)>,
    name: Seq<char>,
    key: Seq<char>,
) -> Option<Seq<char>> {
    if assoc_has_key(plugins, name) {
        let settings = plugins[assoc_key_index(plugins, name)].1.settings@;
        if assoc_has_key(settings, key) {
            Some(settings[assoc_key_index(settings, key)].1@)
        } else {
            None
        }
    } else {
        None
    }
}

/// The enabled flag that the records give the named plugin: its
/// record's flag, or enabled by default where no record exists.
pub open spec fn plugin_enabled_in(plugins: Seq<(String, PluginConfig)>, name: Seq<char>) -> bool {
    if assoc_has_key(plugins, name) {
        plugins[assoc_key_index(plugins, name)].1.enabled
    } else {
        true
    }
}

/// How one enable or disable of `name` changes the plugin records:
/// the named record's flag becomes `value` (the record is created with
/// empty settings if absent), its settings stay, and every other
/// record is untouched.
pub open spec fn set_enabled_rel(
    pre: Seq<(String, PluginConfig)>,
    post: Seq<(String, PluginConfig)>,
    name: Seq<char>,
    value: bool,
) -> bool {
    if assoc_has_key(pre, name) {
        let i = assoc_key_index(pre, name);
        &&& post.len() == pre.len()
        &&& post[i].0 == pre[i].0
        &&& post[i].1.enabled == value
        &&& post[i].1.settings == pre[i].1.settings
        &&& forall|j: int| 0 <= j < pre.len() && j != i ==> post[j] == pre[j]
    } else {
        &&& post.len() == pre.len() + 1
        &&& post[pre.len() as int].0@ == name
        &&& post[pre.len() as int].1.enabled == value
        &&& post[pre.len() as int].1.settings@ == Seq::<(String, String)>::empty()
        &&& forall|j: int| 0 <= j < pre.len() ==> post[j] == pre[j]
    }
}

/// One enable or disable step keeps the keys unique.
pub proof fn lemma_set_enabled_rel_unique(
    pre: Seq<(String, PluginConfig)>,
    post: Seq<(String, PluginConfig)>,
    name: Seq<char>,
    value: bool,
)
    requires
        assoc_unique_keys(pre),
        set_enabled_rel(pre, post, name, value),
    ensures
        assoc_unique_keys(post),
        assoc_has_key(post, name),
        plugin_enabled_in(post, name) == value,
        forall|other: Seq<char>|
            other != name ==> plugin_enabled_in(post, other) == plugin_enabled_in(pre, other),
        forall|o: Seq<char>, k: Seq<char>| setting_in(post, o, k) == setting_in(pre, o, k),
{
    if assoc_has_key(pre, name) {
        let i = assoc_key_index(pre, name);
        assert forall|a: int, b: int| 0 <= a < b < post.len() implies post[a].0@ != post[b].0@ by {
            assert(pre[a].0@ != pre[b].0@);
        }
        lemma_assoc_key_index_unique(post, name, i);
    } else {
        let n = pre.len() as int;
        assert forall|a: int, b: int| 0 <= a < b < post.len() implies post[a].0@ != post[b].0@ by {
            if b < n {
                assert(pre[a].0@ != pre[b].0@);
            } else {
                assert(post[b].0@ == name);
                assert(!assoc_has_key(pre, name));
                assert(post[a] == pre[a]);
            }
        }
        lemma_assoc_key_index_unique(post, name, n);
    }
    assert forall|other: Seq<char>| other != name implies plugin_enabled_in(post, other)
        == plugin_enabled_in(pre, other) by {
        if assoc_has_key(pre, other) {
            let k = assoc_key_index(pre, other);
            assert(post[k].0@ == other && post[k].1.enabled == pre[k].1.enabled);
            lemma_assoc_key_index_unique(post, other, k);
        } else {
            if assoc_has_key(post, other) {
                let k = assoc_key_index(post, other);
                assert(0 <= k < post.len() && post[k].0@ == other);
                assert(k < pre.len() ==> pre[k].0@ == other);
            }
        }
    }
    assert forall|o: Seq<char>, k: Seq<char>| setting_in(post, o, k) == setting_in(pre, o, k) by {
        if o == name {
            if assoc_has_key(pre, name) {
                let i = assoc_key_index(pre, name);
                assert(post[i].1.settings == pre[i].1.settings);
            } else {
                let n = pre.len() as int;
                assert(assoc_key_index(post, name) == n);
                assert(!assoc_has_key(post[n].1.settings@, k));
            }
        } else {
            if assoc_has_key(pre, o) {
                let kx = assoc_key_index(pre, o);
                assert(post[kx] == pre[kx]);
                lemma_assoc_key_index_unique(post, o, kx);
            } else {
                if assoc_has_key(post, o) {
                    let kx = assoc_key_index(post, o);
                    assert(0 <= kx < post.len() && post[kx].0@ == o);
                    assert(kx < pre.len() ==> pre[kx].0@ == o);
                }
            }
        }
    }
}

/// Enabling and then disabling a plugin round-trips its flag to
/// disabled and touches nothing else: any configuration that went
/// through the two steps reads the flag as off, for that plugin alone.
/// A manager rebuilt from the resulting records therefore reads the
/// same flag, which is how the change survives reconstruction from
/// the persisted store.
pub proof fn lemma_enable_disable_round_trip(
    p0: Seq<(String, PluginConfig)>,
    p1: Seq<(String, PluginConfig)>,
    p2: Seq<(String, PluginConfig)>,
    name: Seq<char>,
)
    requires
        assoc_unique_keys(p0),
        set_enabled_rel(p0, p1, name, true),
        set_enabled_rel(p1, p2, name, false),
    ensures
        !plugin_enabled_in(p2, name),
        forall|other: Seq<char>|
            other != name ==> plugin_enabled_in(p2, other) == plugin_enabled_in(p0, other),
{
    lemma_set_enabled_rel_unique(p0, p1, name, true);
    lemma_set_enabled_rel_unique(p1, p2, name, false);
}

/// The log levels the system accepts.
pub open spec fn valid_log_level(s: Seq<char>) -> bool {
    s == "error"@ || s == "warn"@ || s == "info"@ || s == "debug"@ || s == "trace"@
}

impl Default for ServerConfig {
    /// The default server configuration: local host, port 8080, enabled.
    fn default() -> (r: ServerConfig)
        ensures
            r.host@ == "127.0.0.1"@,
            r.port == 8080,
            r.enabled == true,
    {
        ServerConfig { host: "127.0.0.1".to_owned(), port: 8080, enabled: true }
    }
}

impl Default for PluginConfig {
    /// A fresh plugin record: enabled, with no settings.
    fn default() -> (r: PluginConfig)
        ensures
            r.enabled == true,
            r.settings@ == Seq::<(String, String)>::empty(),
    {
        PluginConfig { enabled: true, settings: Vec::new() }
    }
}

impl Default for Config {
    /// The default configuration document.
    fn default() -> (r: Config)
        ensures
            r.plugins_dir@ == "target/plugins"@,
            r.log_level@ == "info"@,
            r.server.host@ == "127.0.0.1"@,
            r.server.port == 8080,
            r.server.enabled == true,
            r.plugins@ == Seq::<(String, PluginConfig)>::empty(),
            r.wf(),
    {
        Config {
            plugins_dir: "target/plugins".to_owned(),
            log_level: "info".to_owned(),
            server: ServerConfig::default(),
            plugins: Vec::new(),
        }
    }
}

impl Config {
    /// Plugin records and each record's settings are keyed uniquely.
    pub open spec fn wf(&self) -> bool {
        &&& assoc_unique_keys(self.plugins@)
        &&& forall|i: int|
            0 <= i < self.plugins@.len() ==> assoc_unique_keys(#[trigger] self.plugins@[i].1.settings@)
    }

    /// The enabled flag the configuration gives the named plugin.
    pub open spec fn plugin_enabled_spec(&self, name: Seq<char>) -> bool {
        plugin_enabled_in(self.plugins@, name)
    }

    /// The value the configuration holds for one setting of one plugin.
    pub open spec fn setting_spec(&self, name: Seq<char>, key: Seq<char>) -> Option<Seq<char>> {
        setting_in(self.plugins@, name, key)
    }

    /// Validate a loaded configuration and repair invalid values with
    /// their defaults: an empty plugins directory, an unknown log
    /// level, an empty server host, and a zero server port are each
    /// replaced; everything else is kept as it came.
    pub fn validate_and_fix_config(config: Config) -> (r: Config)
        ensures
            r.plugins_dir@ == if config.plugins_dir@.len() == 0 {
                "target/plugins"@
            } else {
                config.plugins_dir@
            },
            r.log_level@ == if valid_log_level(config.log_level@) {
                config.log_level@
            } else {
                "info"@
            },
            r.server.host@ == if config.server.host@.len() == 0 {
                "127.0.0.1"@
            } else {
                config.server.host@
            },
            r.server.port == if config.server.port == 0 {
                8080 as u16
            } else {
                config.server.port
            },
            r.server.enabled == config.server.enabled,
            r.plugins == config.plugins,
            config.wf() ==> r.wf(),
    {
        let mut config = config;
        if config.plugins_dir.as_str().is_empty() {
            config.plugins_dir = "target/plugins".to_owned();
        }
        let level_known = str_eq(config.log_level.as_str(), "error")
            || str_eq(config.log_level.as_str(), "warn")
            || str_eq(config.log_level.as_str(), "info")
            || str_eq(config.log_level.as_str(), "debug")
            || str_eq(config.log_level.as_str(), "trace");
        if !level_known {
            config.log_level = "info".to_owned();
        }
        if config.server.host.as_str().is_empty() {
            config.server.host = "127.0.0.1".to_owned();
        }
        if config.server.port == 0 {
            config.server.port = 8080;
        }
        config
    }

    /// Whether the named plugin is enabled; absent records mean enabled.
    pub fn is_plugin_enabled(&self, name: &str) -> (r: bool)
        requires
            self.wf(),
        ensures
            r == self.plugin_enabled_spec(name@),
    {
        match assoc_find_index(&self.plugins, name) {
            Some(i) => {
                proof {
                    lemma_assoc_key_index_unique(self.plugins@, name@, i as int);
                }
                self.plugins[i].1.enabled
            },
            None => true,
        }
    }

    /// Record the named plugin as enabled, creating its record if absent.
    pub fn enable_plugin(&mut self, name: &str)
        requires
            old(self).wf(),
        ensures
            final(self).wf(),
            set_enabled_rel(old(self).plugins@, final(self).plugins@, name@, true),
            final(self).plugin_enabled_spec(name@) == true,
            final(self).plugins_dir == old(self).plugins_dir,
            final(self).log_level == old(self).log_level,
            final(self).server == old(self).server,
    {
        self.set_plugin_enabled(name, true)
    }

    /// Record the named plugin as disabled, creating its record if absent.
    pub fn disable_plugin(&mut self, name: &str)
        requires
            old(self).wf(),
        ensures
            final(self).wf(),
            set_enabled_rel(old(self).plugins@, final(self).plugins@, name@, false),
            final(self).plugin_enabled_spec(name@) == false,
            final(self).plugins_dir == old(self).plugins_dir,
            final(self).log_level == old(self).log_level,
            final(self).server == old(self).server,
    {
        self.set_plugin_enabled(name, false)
    }

    /// Set the named plugin's enabled flag in the records.
    fn set_plugin_enabled(&mut self, name: &str, value: bool)
        requires
            old(self).wf(),
        ensures
            final(self).wf(),
            set_enabled_rel(old(self).plugins@, final(self).plugins@, name@, value),
            final(self).plugin_enabled_spec(name@) == value,
            final(self).plugins_dir == old(self).plugins_dir,
            final(self).log_level == old(self).log_level,
            final(self).server == old(self).server,
    {
        match assoc_find_index(&self.plugins, name) {
            Some(i) => {
                proof {
                    lemma_assoc_key_index_unique(self.plugins@, name@, i as int);
                }
                self.plugins[i].1.enabled = value;
                proof {
                    lemma_set_enabled_rel_unique(
                        old(self).plugins@,
                        self.plugins@,
                        name@,
                        value,
                    );
                }
            },
            None => {
                self.plugins.push(
                    (name.to_owned(), PluginConfig { enabled: value, settings: Vec::new() }),
                );
                proof {
                    lemma_set_enabled_rel_unique(
                        old(self).plugins@,
                        self.plugins@,
                        name@,
                        value,
                    );
                }
            },
        }
    }

    /// The named plugin's record, created enabled and empty if absent.
    pub fn get_plugin_config(&mut self, name: &str) -> (r: PluginConfig)
        requires
            old(self).wf(),
        ensures
            final(self).wf(),
            assoc_has_key(final(self).plugins@, name@),
            r.enabled == final(self).plugins@[assoc_key_index(final(self).plugins@, name@)].1.enabled,
            r.settings@ == final(self).plugins@[assoc_key_index(
                final(self).plugins@,
                name@,
            )].1.settings@,
            assoc_has_key(old(self).plugins@, name@) ==> *final(self)
                == *old(self),
            !assoc_has_key(old(self).plugins@, name@) ==> {
                &&& final(self).plugins@.len() == old(self).plugins@.len() + 1
                &&& final(self).plugins@[old(self).plugins@.len() as int].0@ == name@
                &&& final(self).plugins@[old(self).plugins@.len() as int].1.enabled == true
                &&& final(self).plugins@[old(self).plugins@.len() as int].1.settings@
                    == Seq::<(String, String)>::empty()
                &&& forall|j: int|
                    0 <= j < old(self).plugins@.len() ==> final(self).plugins@[j]
                        == old(self).plugins@[j]
                &&& final(self).plugins_dir == old(self).plugins_dir
                &&& final(self).log_level == old(self).log_level
                &&& final(self).server == old(self).server
            },
    {
        match assoc_find_index(&self.plugins, name) {
            Some(i) => {
                proof {
                    lemma_assoc_key_index_unique(self.plugins@, name@, i as int);
                }
                duplicate_plugin_config(&self.plugins[i].1)
            },
            None => {
                let ghost n = self.plugins@.len() as int;
                self.plugins.push((name.to_owned(), PluginConfig::default()));
                proof {
                    assert forall|a: int, b: int|
                        0 <= a < b < self.plugins@.len() implies self.plugins@[a].0@
                        != self.plugins@[b].0@ by {
                        if b < n {
                            assert(old(self).plugins@[a].0@ != old(self).plugins@[b].0@);
                        } else {
                            assert(self.plugins@[b].0@ == name@);
                            assert(self.plugins@[a] == old(self).plugins@[a]);
                        }
                    }
                    lemma_assoc_key_index_unique(self.plugins@, name@, n);
                }
                duplicate_plugin_config(&self.plugins[self.plugins.len() - 1].1)
            },
        }
    }

    /// Store one setting of the named plugin, creating its record if
    /// absent and replacing the key's previous value if present.
    pub fn set_plugin_setting(&mut self, name: &str, key: &str, value: &str)
        requires
            old(self).wf(),
        ensures
            final(self).wf(),
            final(self).setting_spec(name@, key@) == Some(value@),
            final(self).plugin_enabled_spec(name@) == old(self).plugin_enabled_spec(name@),
            forall|other: Seq<char>|
                other != name@ ==> final(self).plugin_enabled_spec(other) == old(
                    self,
                ).plugin_enabled_spec(other),
            forall|other: Seq<char>, k: Seq<char>|
                other != name@ ==> final(self).setting_spec(other, k) == old(self).setting_spec(
                    other,
                    k,
                ),
            forall|k: Seq<char>|
                k != key@ ==> final(self).setting_spec(name@, k) == old(self).setting_spec(
                    name@,
                    k,
                ),
            final(self).plugins_dir == old(self).plugins_dir,
            final(self).log_level == old(self).log_level,
            final(self).server == old(self).server,
    {
        let idx = match assoc_find_index(&self.plugins, name) {
            Some(i) => {
                proof {
                    lemma_assoc_key_index_unique(self.plugins@, name@, i as int);
                }
                i
            },
            None => {
                self.plugins.push((name.to_owned(), PluginConfig::default()));
                proof {
                    lemma_assoc_append_frame(
                        old(self).plugins@,
                        self.plugins@,
                        name@,
                    );
                }
                self.plugins.len() - 1
            },
        };
        let ghost mid = self.plugins@;
        let ghost pi = idx as int;
        proof {
            assert(assoc_unique_keys(mid));
            assert(mid[pi].0@ == name@);
            assert(assoc_key_index(mid, name@) == pi);
            assert(assoc_unique_keys(mid[pi].1.settings@));
        }
        match assoc_find_index(&self.plugins[idx].1.settings, key) {
            Some(k) => {
                proof {
                    lemma_assoc_key_index_unique(mid[pi].1.settings@, key@, k as int);
                }
                self.plugins[idx].1.settings[k].1 = value.to_owned();
                proof {
                    lemma_assoc_update_frame(
                        mid[pi].1.settings@,
                        self.plugins@[pi].1.settings@,
                        k as int,
                    );
                }
            },
            None => {
                self.plugins[idx].1.settings.push((key.to_owned(), value.to_owned()));
                proof {
                    lemma_assoc_append_frame(
                        mid[pi].1.settings@,
                        self.plugins@[pi].1.settings@,
                        key@,
                    );
                }
            },
        }
        proof {
            assert(self.plugins@[pi].0 == mid[pi].0);
            lemma_assoc_update_frame(mid, self.plugins@, pi);
            assert(self.setting_spec(name@, key@) == Some(value@));
            assert forall|other: Seq<char>, k2: Seq<char>|
                other != name@ implies self.setting_spec(other, k2) == old(self).setting_spec(
                other,
                k2,
            ) && self.plugin_enabled_spec(other) == old(self).plugin_enabled_spec(other) by {
                lemma_setting_frame(old(self).plugins@, mid, self.plugins@, name@, other, k2);
            }
            assert(self.plugins@[pi].1.enabled == mid[pi].1.enabled);
            if assoc_has_key(old(self).plugins@, name@) {
                assert(assoc_key_index(old(self).plugins@, name@) == pi);
                assert(mid[pi].1.enabled == old(self).plugins@[pi].1.enabled);
            } else {
                assert(mid[pi].1.enabled == true);
                assert(old(self).plugin_enabled_spec(name@) == true);
            }
            assert(self.plugin_enabled_spec(name@) == old(self).plugin_enabled_spec(name@));
            assert forall|k2: Seq<char>| k2 != key@ implies self.setting_spec(name@, k2) == old(
                self,
            ).setting_spec(name@, k2) by {
                if assoc_has_key(old(self).plugins@, name@) {
                    assert(mid[pi].1.settings@ == old(self).plugins@[pi].1.settings@);
                } else {
                    assert(mid[pi].1.settings@ == Seq::<(String, String)>::empty());
                    assert(!assoc_has_key(mid[pi].1.settings@, k2));
                    assert(old(self).setting_spec(name@, k2) is None);
                }
            }
        }
    }

    /// The stored value of one setting of the named plugin, if any.
    pub fn get_plugin_setting(&self, name: &str, key: &str) -> (r: Option<String>)
        requires
            self.wf(),
        ensures
            match r {
                Some(v) => self.setting_spec(name@, key@) == Some(v@),
                None => self.setting_spec(name@, key@) is None,
            },
    {
        match assoc_find_index(&self.plugins, name) {
            Some(i) => {
                proof {
                    lemma_assoc_key_index_unique(self.plugins@, name@, i as int);
                }
                match assoc_find_index(&self.plugins[i].1.settings, key) {
                    Some(k) => {
                        proof {
                            lemma_assoc_key_index_unique(
                                self.plugins@[i as int].1.settings@,
                                key@,
                                k as int,
                            );
                        }
                        Some(self.plugins[i].1.settings[k].1.clone())
                    },
                    None => None,
                }
            },
            None => None,
        }
    }

    /// Replace the server settings that are given; keep the others.
    pub fn update_server_config(
        &mut self,
        host: Option<String>,
        port: Option<u16>,
        enabled: Option<bool>,
    )
        requires
            old(self).wf(),
        ensures
            final(self).wf(),
            final(self).server.host == if host is Some {
                host->0
            } else {
                old(self).server.host
            },
            final(self).server.port == if port is Some {
                port->0
            } else {
                old(self).server.port
            },
            final(self).server.enabled == if enabled is Some {
                enabled->0
            } else {
                old(self).server.enabled
            },
            final(self).plugins == old(self).plugins,
            final(self).plugins_dir == old(self).plugins_dir,
            final(self).log_level == old(self).log_level,
    {
        match host {
            Some(h) => {
                self.server.host = h;
            },
            None => {},
        }
        match port {
            Some(p) => {
                self.server.port = p;
            },
            None => {},
        }
        match enabled {
            Some(e) => {
                self.server.enabled = e;
            },
            None => {},
        }
    }

    /// The directory that is scanned for dynamic modules.
    pub fn plugins_dir(&self) -> (r: &str)
        ensures
            r@ == self.plugins_dir@,
    {
        self.plugins_dir.as_str()
    }

    /// Point the scan at another directory.
    pub fn set_plugins_dir(&mut self, path: &str)
        requires
            old(self).wf(),
        ensures
            final(self).wf(),
            final(self).plugins_dir@ == path@,
            final(self).plugins == old(self).plugins,
            final(self).log_level == old(self).log_level,
            final(self).server == old(self).server,
    {
        self.plugins_dir = path.to_owned();
    }
}

/// One plugin record changed its settings only: every other plugin's
/// settings read the same before and after.
proof fn lemma_setting_frame(
    pre: Seq<(String, PluginConfig)>,
    mid: Seq<(String, PluginConfig)>,
    post: Seq<(String, PluginConfig)>,
    name: Seq<char>,
    other: Seq<char>,
    k: Seq<char>,
)
    requires
        assoc_unique_keys(pre),
        other != name,
        // mid is pre with the record for `name` present (appended if absent)
        assoc_has_key(mid, name),
        forall|o: Seq<char>|
            o != name ==> assoc_has_key(mid, o) == assoc_has_key(pre, o),
        forall|o: Seq<char>|
            o != name && assoc_has_key(pre, o) ==> assoc_key_index(mid, o) == assoc_key_index(
                pre,
                o,
            ) && mid[assoc_key_index(pre, o)] == pre[assoc_key_index(pre, o)],
        // post is mid with only the record for `name` replaced
        assoc_unique_keys(mid),
        forall|o: Seq<char>|
            o != name ==> assoc_has_key(post, o) == assoc_has_key(mid, o),
        forall|o: Seq<char>|
            o != name && assoc_has_key(mid, o) ==> assoc_key_index(post, o) == assoc_key_index(
                mid,
                o,
            ) && post[assoc_key_index(mid, o)] == mid[assoc_key_index(mid, o)],
    ensures
        setting_in(post, other, k) == setting_in(pre, other, k),
        plugin_enabled_in(post, other) == plugin_enabled_in(pre, other),
{
    if assoc_has_key(pre, other) {
        let i = assoc_key_index(pre, other);
        assert(assoc_has_key(mid, other) && assoc_key_index(mid, other) == i && mid[i]
            == pre[i]);
        assert(assoc_has_key(post, other) && assoc_key_index(post, other) == i && post[i]
            == mid[i]);
    } else {
        assert(!assoc_has_key(mid, other));
        assert(!assoc_has_key(post, other));
    }
}

/// The position of the pair keyed `key`, if any.
fn assoc_find_index<V>(m: &Vec<(String, V)>, key: &str) -> (r: Option<usize>)
    ensures
        match r {
            Some(i) => i < m@.len() && m@[i as int].0@ == key@,
            None => !assoc_has_key(m@, key@),
        },
{
    let mut i: usize = 0;
    while i < m.len()
        invariant
            i <= m@.len(),
            forall|j: int| 0 <= j < i ==> m@[j].0@ != key@,
        decreases m@.len() - i,
    {
        if str_eq(m[i].0.as_str(), key) {
            return Some(i);
        }
        i = i + 1;
    }
    None
}

/// A fresh record reading equal to the given one.
fn duplicate_plugin_config(c: &PluginConfig) -> (r: PluginConfig)
    ensures
        r.enabled == c.enabled,
        r.settings@ == c.settings@,
{
    let mut settings: Vec<(String, String)> = Vec::new();
    let mut i: usize = 0;
    while i < c.settings.len()
        invariant
            i <= c.settings@.len(),
            settings@ == c.settings@.subrange(0, i as int),
        decreases c.settings@.len() - i,
    {
        settings.push((c.settings[i].0.clone(), c.settings[i].1.clone()));
        i = i + 1;
        proof {
            assert(settings@ =~= c.settings@.subrange(0, i as int));
        }
    }
    proof {
        assert(settings@ =~= c.settings@);
    }
    let r = PluginConfig { enabled: c.enabled, settings };
    proof {
        assert(r.settings@ == c.settings@);
    }
    r
}

} // verus!
