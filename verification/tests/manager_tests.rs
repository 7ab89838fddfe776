use std::cell::Cell;
use std::rc::Rc;

use dyn_plug::config::Config;
use dyn_plug::error::PluginError;
use dyn_plug::manager::{DeadlineStep, ExecutionOptions, ExecutionResult, PluginManager};
use dyn_plug::plugin::Plugin;
use dyn_plug::registry::{ExecStep, PluginRegistry};

/// A scripted capability: a set number of failures, then the output.
struct ScriptedPlugin {
    name: &'static str,
    failures: Cell<u32>,
    failure_message: &'static str,
    output: &'static str,
    calls: Rc<Cell<u32>>,
}

impl ScriptedPlugin {
    fn new(
        name: &'static str,
        failures: u32,
        failure_message: &'static str,
        output: &'static str,
    ) -> (ScriptedPlugin, Rc<Cell<u32>>) {
        let calls = Rc::new(Cell::new(0));
        (
            ScriptedPlugin {
                name,
                failures: Cell::new(failures),
                failure_message,
                output,
                calls: calls.clone(),
            },
            calls,
        )
    }
}

impl Plugin for ScriptedPlugin {
    fn name(&self) -> &str {
        self.name
    }

    fn version(&self) -> &str {
        "1.0.0"
    }

    fn description(&self) -> &str {
        "a scripted capability"
    }

    fn execute(&self, _input: &str) -> Result<String, String> {
        self.calls.set(self.calls.get() + 1);
        if self.failures.get() > 0 {
            self.failures.set(self.failures.get() - 1);
            Err(self.failure_message.to_string())
        } else {
            Ok(self.output.to_string())
        }
    }
}

fn empty_manager() -> PluginManager<ScriptedPlugin> {
    PluginManager::from_parts(Config::default(), PluginRegistry::new("target/plugins"))
}

/// Drive the retry protocol to completion without sleeping: the test
/// stands in for the host.
fn run_to_done(
    manager: &PluginManager<ScriptedPlugin>,
    name: &str,
    input: &str,
    options: &ExecutionOptions,
) -> Result<String, PluginError> {
    let mut step = manager.begin_execution(name, input, options);
    loop {
        match step {
            ExecStep::Done(outcome) => return outcome,
            ExecStep::Sleep { resume, .. } => {
                step = manager.resume_execution(name, input, resume);
            },
        }
    }
}

#[test]
fn test_manager_creation() {
    let manager = empty_manager();
    assert_eq!(manager.plugin_count(), 0);
}

#[test]
fn test_list_plugins_empty() {
    let manager = empty_manager();
    let plugins = manager.list_plugins();
    assert!(plugins.is_empty());
}

#[test]
fn manager_test_plugin_not_found() {
    let manager = empty_manager();

    let result = run_to_done(&manager, "nonexistent", "test", &ExecutionOptions::default());
    assert!(matches!(result, Err(PluginError::NotFound { .. })));

    // the simple path propagates the same failure
    let result = manager.execute_once("nonexistent", "test");
    assert!(matches!(result, Err(PluginError::NotFound { .. })));
}

#[test]
fn test_enable_disable_nonexistent_plugin() {
    let mut manager = empty_manager();

    let result = manager.enable_plugin("nonexistent");
    assert!(matches!(result, Err(PluginError::NotFound { .. })));

    let result = manager.disable_plugin("nonexistent");
    assert!(matches!(result, Err(PluginError::NotFound { .. })));
}

#[test]
fn manager_test_plugin_settings() {
    let mut manager = empty_manager();

    manager.set_plugin_setting("test_plugin", "test_key", "test_value");

    let retrieved = manager.get_plugin_setting("test_plugin", "test_key");
    assert_eq!(retrieved, Some("test_value".to_string()));
}

#[test]
fn test_batch_operations() {
    let mut manager = empty_manager();

    let plugin_names = vec!["plugin1".to_string(), "plugin2".to_string()];

    let results = manager.enable_plugins(&plugin_names);
    assert_eq!(results.len(), 2);
    assert!(results.iter().all(|(_, r)| r.is_err()));

    let results = manager.disable_plugins(&plugin_names);
    assert_eq!(results.len(), 2);
    assert!(results.iter().all(|(_, r)| r.is_err()));
}

#[test]
fn test_execution_result_format() {
    let manager = empty_manager();

    let result = run_to_done(&manager, "nonexistent", "test", &ExecutionOptions::default());
    assert!(matches!(result, Err(PluginError::NotFound { .. })));
}

#[test]
fn test_config_access() {
    let manager = empty_manager();

    let config = manager.config();
    assert_eq!(config.log_level, "info");
    assert!(config.server.enabled);
}

#[test]
fn test_plugins_dir() {
    let manager = empty_manager();

    let plugins_dir = manager.plugins_dir();
    assert!(plugins_dir.ends_with("target/plugins"));
}

#[test]
fn test_plugin_manager_basic_operations() {
    let mut manager = empty_manager();

    assert_eq!(manager.plugin_count(), 0);
    assert!(manager.list_plugins().is_empty());
    assert!(manager.list_enabled_plugins().is_empty());
    assert!(manager.list_disabled_plugins().is_empty());

    assert!(!manager.has_plugin("nonexistent"));
    assert!(manager.get_plugin_status("nonexistent").is_none());

    let result = manager.enable_plugin("nonexistent");
    assert!(matches!(result, Err(PluginError::NotFound { .. })));

    let result = manager.disable_plugin("nonexistent");
    assert!(matches!(result, Err(PluginError::NotFound { .. })));

    let result = run_to_done(&manager, "nonexistent", "test", &ExecutionOptions::default());
    assert!(matches!(result, Err(PluginError::NotFound { .. })));
}

#[test]
fn test_plugin_manager_configuration_integration() {
    let mut manager = empty_manager();

    let config = manager.config();
    assert_eq!(config.log_level, "info");
    assert!(config.server.enabled);

    manager.set_plugin_setting("test_plugin", "test_key", "test_value");

    let retrieved = manager.get_plugin_setting("test_plugin", "test_key");
    assert_eq!(retrieved, Some("test_value".to_string()));

    let plugins_dir = manager.plugins_dir();
    assert!(plugins_dir.ends_with("target/plugins"));
}

#[test]
fn test_plugin_manager_execution_options() {
    let manager = empty_manager();

    let options = ExecutionOptions::no_retry();
    let result = run_to_done(&manager, "nonexistent", "test", &options);
    assert!(matches!(result, Err(PluginError::NotFound { .. })));

    let options = ExecutionOptions::aggressive_retry();
    let result = run_to_done(&manager, "nonexistent", "test", &options);
    assert!(matches!(result, Err(PluginError::NotFound { .. })));

    let options = ExecutionOptions::no_timeout();
    let result = run_to_done(&manager, "nonexistent", "test", &options);
    assert!(matches!(result, Err(PluginError::NotFound { .. })));
}

#[test]
fn test_plugin_manager_batch_operations() {
    let mut manager = empty_manager();

    let plugin_names = vec!["plugin1".to_string(), "plugin2".to_string()];

    let results = manager.enable_plugins(&plugin_names);
    assert_eq!(results.len(), 2);
    assert!(results.iter().all(|(_, r)| r.is_err()));

    let results = manager.disable_plugins(&plugin_names);
    assert_eq!(results.len(), 2);
    assert!(results.iter().all(|(_, r)| r.is_err()));
}

#[test]
fn test_plugin_manager_config_reload() {
    let mut manager = empty_manager();

    manager.reload_config(Config::default());

    let config = manager.config();
    assert_eq!(config.log_level, "info");
}

#[test]
fn test_execution_options_creation() {
    let default_options = ExecutionOptions::default();
    assert_eq!(default_options.max_retries, 2);
    assert_eq!(default_options.retry_delay_ms, 100);
    assert_eq!(default_options.timeout_ms, Some(30000));

    let no_retry_options = ExecutionOptions::no_retry();
    assert_eq!(no_retry_options.max_retries, 1);

    let aggressive_options = ExecutionOptions::aggressive_retry();
    assert_eq!(aggressive_options.max_retries, 5);
    assert_eq!(aggressive_options.retry_delay_ms, 200);

    let no_timeout_options = ExecutionOptions::no_timeout();
    assert!(no_timeout_options.timeout_ms.is_none());
}

#[test]
fn test_plugin_manager_simple_execution() {
    let manager = empty_manager();

    let result = run_to_done(&manager, "nonexistent", "test", &ExecutionOptions::default());
    assert!(matches!(result, Err(PluginError::NotFound { .. })));
}

#[test]
fn test_plugin_state_management() {
    let manager = empty_manager();

    assert!(manager.list_plugins().is_empty());
    assert!(manager.list_enabled_plugins().is_empty());
    assert!(manager.list_disabled_plugins().is_empty());
}

#[test]
fn test_plugin_configuration_lifecycle() {
    let mut manager = empty_manager();

    manager.set_plugin_setting("test_plugin", "timeout", "30");
    manager.set_plugin_setting("test_plugin", "retries", "3");

    assert_eq!(
        manager.get_plugin_setting("test_plugin", "timeout"),
        Some("30".to_string())
    );
    assert_eq!(
        manager.get_plugin_setting("test_plugin", "retries"),
        Some("3".to_string())
    );

    let config = manager.config();
    assert!(config.plugins.iter().any(|(name, _)| name == "test_plugin"));
}

#[test]
fn enable_disable_round_trip_survives_reconstruction() {
    let mut manager = empty_manager();
    let (plugin, _) = ScriptedPlugin::new("p", 0, "", "ok");
    manager.register_plugin(plugin, "target/plugins/p.so");

    manager.enable_plugin("p").unwrap();
    assert!(manager.config().is_plugin_enabled("p"));

    manager.disable_plugin("p").unwrap();
    assert!(!manager.config().is_plugin_enabled("p"));

    // a manager rebuilt from the same persisted records reads the same flag
    let stored = manager.config().clone();
    let manager2: PluginManager<ScriptedPlugin> =
        PluginManager::from_parts(stored, PluginRegistry::new("target/plugins"));
    assert!(!manager2.config().is_plugin_enabled("p"));
}

#[test]
fn reconcile_loaded_overwrites_default_flag() {
    let mut config = Config::default();
    config.disable_plugin("p");
    let mut manager: PluginManager<ScriptedPlugin> =
        PluginManager::from_parts(config, PluginRegistry::new("target/plugins"));

    let (plugin, _) = ScriptedPlugin::new("p", 0, "", "ok");
    manager.register_plugin(plugin, "target/plugins/p.so");
    // freshly loaded plugins default to enabled
    assert!(manager.get_plugin_status("p").unwrap().enabled);

    // the persisted flag wins at load time, unconditionally
    manager.reconcile_loaded(&vec!["p".to_string()]);
    let status = manager.get_plugin_status("p").unwrap();
    assert!(!status.enabled);
    assert!(!status.config_enabled);
}

#[test]
fn reload_config_syncs_registry_flags() {
    let mut manager = empty_manager();
    let (plugin, _) = ScriptedPlugin::new("p", 0, "", "ok");
    manager.register_plugin(plugin, "target/plugins/p.so");
    assert!(manager.get_plugin_status("p").unwrap().enabled);

    let mut reloaded = Config::default();
    reloaded.disable_plugin("p");
    manager.reload_config(reloaded);

    let status = manager.get_plugin_status("p").unwrap();
    assert!(!status.enabled);
    assert!(!status.config_enabled);
}

#[test]
fn scripted_retry_executes_to_success() {
    // two transient failures, then success, observed through the
    // manager's execution path with a zero delay
    let mut manager = empty_manager();
    let (plugin, calls) = ScriptedPlugin::new("echo", 2, "resource busy", "ok");
    manager.register_plugin(plugin, "target/plugins/echo.so");

    let options = ExecutionOptions { max_retries: 3, retry_delay_ms: 0, timeout_ms: None };
    let outcome = run_to_done(&manager, "echo", "ok", &options);
    let result = PluginManager::<ScriptedPlugin>::into_execution_result("echo", outcome, 7);

    assert!(result.success);
    assert_eq!(result.output, "ok");
    assert_eq!(result.duration_ms, 7);
    assert_eq!(calls.get(), 3);
}

#[test]
fn disabled_plugin_is_hard_stop_under_any_options() {
    let mut manager = empty_manager();
    let (plugin, calls) = ScriptedPlugin::new("p", 0, "", "ok");
    manager.register_plugin(plugin, "target/plugins/p.so");
    manager.disable_plugin("p").unwrap();

    for options in [
        ExecutionOptions::default(),
        ExecutionOptions::no_retry(),
        ExecutionOptions::aggressive_retry(),
        ExecutionOptions::no_timeout(),
    ] {
        let outcome = run_to_done(&manager, "p", "x", &options);
        assert!(matches!(outcome, Err(PluginError::PluginDisabled { .. })));
    }
    assert_eq!(calls.get(), 0);
}

#[test]
fn deadline_loop_times_out() {
    // a capability that always raises a timeout-flavored error, under
    // a 50 ms deadline, with the host's clock simulated
    let mut manager = empty_manager();
    let (plugin, _) = ScriptedPlugin::new("p", u32::MAX, "timeout exceeded", "never");
    manager.register_plugin(plugin, "target/plugins/p.so");

    let timeout_ms = 50u64;
    let mut elapsed_ms = 0u64;
    let outcome: Result<String, PluginError> = loop {
        if let Some(e) =
            PluginManager::<ScriptedPlugin>::deadline_check("p", elapsed_ms, timeout_ms)
        {
            break Err(e);
        }
        let attempt = manager.execute_once("p", "x");
        match PluginManager::<ScriptedPlugin>::deadline_decision(attempt) {
            DeadlineStep::Finish(o) => break o,
            DeadlineStep::RetryAfter { backoff_ms } => {
                elapsed_ms += backoff_ms;
            },
        }
    };

    assert!(elapsed_ms >= timeout_ms);
    match &outcome {
        Err(PluginError::TimeoutError { operation }) => {
            assert_eq!(operation, "Plugin 'p' execution");
        },
        other => panic!("unexpected outcome: {:?}", other),
    }
    let result =
        PluginManager::<ScriptedPlugin>::into_execution_result("p", outcome, elapsed_ms);
    assert!(!result.success);
}

#[test]
fn batch_enable_partial_failure() {
    // "a" exists, "b" does not: two independent outcomes
    let mut manager = empty_manager();
    let (plugin, _) = ScriptedPlugin::new("a", 0, "", "ok");
    manager.register_plugin(plugin, "target/plugins/a.so");

    let results = manager.enable_plugins(&vec!["a".to_string(), "b".to_string()]);
    assert_eq!(results.len(), 2);
    assert_eq!(results[0].0, "a");
    assert!(results[0].1.is_ok());
    assert_eq!(results[1].0, "b");
    match &results[1].1 {
        Err(PluginError::NotFound { name }) => assert_eq!(name, "b"),
        other => panic!("unexpected outcome: {:?}", other),
    }
}

#[test]
fn execution_result_into_simple() {
    let ok = ExecutionResult {
        plugin: "p".to_string(),
        output: "out".to_string(),
        duration_ms: 1,
        success: true,
    };
    assert_eq!(ok.into_simple().unwrap(), "out");

    let failed = ExecutionResult {
        plugin: "p".to_string(),
        output: "reason".to_string(),
        duration_ms: 1,
        success: false,
    };
    match failed.into_simple() {
        Err(PluginError::ExecutionFailed { message }) => assert_eq!(message, "reason"),
        other => panic!("unexpected outcome: {:?}", other),
    }
}

#[test]
fn list_filters_split_on_both_flags() {
    let mut manager = empty_manager();
    let (a, _) = ScriptedPlugin::new("a", 0, "", "x");
    let (b, _) = ScriptedPlugin::new("b", 0, "", "y");
    manager.register_plugin(a, "target/plugins/a.so");
    manager.register_plugin(b, "target/plugins/b.so");
    manager.disable_plugin("b").unwrap();

    let enabled = manager.list_enabled_plugins();
    assert_eq!(enabled.len(), 1);
    assert_eq!(enabled[0].name, "a");

    let disabled = manager.list_disabled_plugins();
    assert_eq!(disabled.len(), 1);
    assert_eq!(disabled[0].name, "b");
}
