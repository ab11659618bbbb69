use rust_service::runner::{step, RunnerCommand, RunnerEvent, RunnerState};
use rust_service::{Action, ConfigError, ServiceConfig, ServiceError, ServiceRunner};
use std::cell::Cell;

struct Counter<'a> {
    calls: &'a Cell<u32>,
    fail: bool,
}

impl<'a> Action<u32> for Counter<'a> {
    fn execute(&self, config: &u32) -> Result<(), ServiceError> {
        self.calls.set(self.calls.get() + *config);
        if self.fail {
            Err(ServiceError::Config(ConfigError::Generic("boom".to_string())))
        } else {
            Ok(())
        }
    }

    fn name(&self) -> &str {
        "counter"
    }
}

#[test]
fn failing_action_does_not_stop_the_others() {
    let calls = Cell::new(0);
    let runner = ServiceRunner::new()
        .add_action(Counter { calls: &calls, fail: true })
        .add_action(Counter { calls: &calls, fail: false });
    let outcomes = runner.dispatch(&1u32);
    assert_eq!(calls.get(), 2);
    assert_eq!(outcomes.len(), 2);
    assert_eq!(outcomes[0].index, 0);
    assert!(outcomes[0].result.is_err());
    assert_eq!(outcomes[1].index, 1);
    assert!(outcomes[1].result.is_ok());
    assert_eq!(runner.actions[0].name(), "counter");
}

#[test]
fn default_runner_is_empty() {
    let runner: ServiceRunner<Counter<'static>> = ServiceRunner::default();
    assert!(runner.actions.is_empty());
    assert!(runner.dispatch(&1u32).is_empty());
}

#[test]
fn life_cycle() {
    let (s, c) = step(RunnerState::Booting, RunnerEvent::BootSucceeded);
    assert_eq!((s, c), (RunnerState::Running, RunnerCommand::Sleep));
    assert_eq!(step(s, RunnerEvent::Woke { running: true }), (RunnerState::Running, RunnerCommand::DispatchAll));
    assert_eq!(step(s, RunnerEvent::Dispatched), (RunnerState::Running, RunnerCommand::Sleep));
    let (s, c) = step(s, RunnerEvent::Woke { running: false });
    assert_eq!((s, c), (RunnerState::ShuttingDown, RunnerCommand::LogFinal));
    assert_eq!(step(s, RunnerEvent::FinalLogged), (RunnerState::Stopped, RunnerCommand::Exit));
}

#[test]
fn failed_boot_aborts() {
    assert_eq!(step(RunnerState::Booting, RunnerEvent::BootFailed), (RunnerState::Stopped, RunnerCommand::Abort));
    assert_eq!(step(RunnerState::Stopped, RunnerEvent::BootSucceeded), (RunnerState::Stopped, RunnerCommand::Ignore));
    assert_eq!(step(RunnerState::Booting, RunnerEvent::Woke { running: true }), (RunnerState::Booting, RunnerCommand::Ignore));
}

#[test]
fn config_exposes_name_and_log_root() {
    let c = rust_service::Config {
        log_file_path: "/var/log/x".to_string(),
        install_dir: "/opt/x".to_string(),
        config_dir: "/etc/x".to_string(),
        service_name: "x".to_string(),
        time_interval: 1,
        message: "m".to_string(),
        memory_threshold: 1,
        disk_threshold: 1,
        min_fd_limit: 1,
        max_service_name_len: 1,
        max_message_len: 1,
        max_log_path_len: 10,
        min_log_interval_ms: 1,
        max_log_file_size: 1,
        max_time_interval: 1,
        max_threshold_percent: 1,
        max_fd_limit: 1,
        max_config_field_len: 10,
    };
    assert_eq!(c.service_name(), "x");
    assert_eq!(c.log_file_path(), "/var/log/x");
}
