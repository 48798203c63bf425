use sop_core::daemon::{
    has_supervised_channels, heartbeat_interval_secs, heartbeat_prompt, plan_startup,
    state_file_path, ChannelStatus, Component, Config, STATUS_FLUSH_SECONDS,
};
use sop_core::health::{HealthRegistry, HealthStatus};
use sop_core::supervisor::{ComponentExit, Supervisor};

fn default_config() -> Config {
    Config {
        config_path: "config.toml".into(),
        channel_initial_backoff_secs: 2,
        channel_max_backoff_secs: 60,
        heartbeat_enabled: false,
        heartbeat_interval_minutes: 30,
        cron_enabled: false,
        mqtt_configured: false,
        sop_enabled: false,
        channels: ["telegram", "dingtalk", "mattermost", "qq", "nextcloud_talk"]
            .iter()
            .map(|name| ChannelStatus { name: (*name).into(), configured: false })
            .collect(),
    }
}

fn configure(config: &mut Config, channel: &str) {
    for c in config.channels.iter_mut() {
        if c.name == channel {
            c.configured = true;
        }
    }
}

fn test_config(dir: &std::path::Path) -> Config {
    Config {
        config_path: dir.join("config.toml").to_string_lossy().into_owned(),
        ..default_config()
    }
}

#[test]
fn state_file_path_uses_config_directory() {
    let tmp = std::path::Path::new("/tmp/sop-daemon-test");
    let config = test_config(tmp);

    let path = state_file_path(&config);
    assert_eq!(std::path::PathBuf::from(path), tmp.join("daemon_state.json"));
}

#[test]
fn state_file_path_without_a_directory() {
    let mut config = default_config();
    config.config_path = "config.toml".into();
    assert_eq!(state_file_path(&config), "daemon_state.json");
    config.config_path = "/".into();
    assert_eq!(
        std::path::PathBuf::from(state_file_path(&config)),
        std::path::Path::new(".").join("daemon_state.json")
    );
    config.config_path = String::new();
    assert_eq!(
        std::path::PathBuf::from(state_file_path(&config)),
        std::path::Path::new(".").join("daemon_state.json")
    );
}

#[test]
fn supervisor_marks_error_and_restart_on_failure() {
    let mut health = HealthRegistry::new();
    let mut supervisor = Supervisor::new("daemon-test-fail", 1, 1);
    supervisor.before_run(&mut health);
    let sleep = supervisor.after_run(&mut health, &ComponentExit::Failed("boom".into()));
    assert_eq!(sleep, 1);

    let snapshot = health.snapshot();
    let component = snapshot.iter().find(|c| c.name == "daemon-test-fail").unwrap();
    assert_eq!(component.status.as_str(), "error");
    assert!(component.restart_count >= 1);
    assert!(component.last_error.as_deref().unwrap_or("").contains("boom"));
}

#[test]
fn supervisor_marks_unexpected_exit_as_error() {
    let mut health = HealthRegistry::new();
    let mut supervisor = Supervisor::new("daemon-test-exit", 1, 1);
    supervisor.before_run(&mut health);
    supervisor.after_run(&mut health, &ComponentExit::Clean);

    let snapshot = health.snapshot();
    let component = snapshot.iter().find(|c| c.name == "daemon-test-exit").unwrap();
    assert_eq!(component.status.as_str(), "error");
    assert!(component.restart_count >= 1);
    assert!(component.last_error.as_deref().unwrap_or("").contains("component exited unexpectedly"));
}

#[test]
fn detects_no_supervised_channels() {
    let config = default_config();
    assert!(!has_supervised_channels(&config));
}

#[test]
fn detects_supervised_channels_present() {
    let mut config = default_config();
    configure(&mut config, "telegram");
    assert!(has_supervised_channels(&config));
}

#[test]
fn detects_dingtalk_as_supervised_channel() {
    let mut config = default_config();
    configure(&mut config, "dingtalk");
    assert!(has_supervised_channels(&config));
}

#[test]
fn detects_mattermost_as_supervised_channel() {
    let mut config = default_config();
    configure(&mut config, "mattermost");
    assert!(has_supervised_channels(&config));
}

#[test]
fn detects_qq_as_supervised_channel() {
    let mut config = default_config();
    configure(&mut config, "qq");
    assert!(has_supervised_channels(&config));
}

#[test]
fn detects_nextcloud_talk_as_supervised_channel() {
    let mut config = default_config();
    configure(&mut config, "nextcloud_talk");
    assert!(has_supervised_channels(&config));
}

#[test]
fn no_channels_at_all() {
    let mut config = default_config();
    config.channels.clear();
    assert!(!has_supervised_channels(&config));
}

#[test]
fn startup_plan_follows_the_configuration() {
    let mut config = default_config();
    config.channel_initial_backoff_secs = 0;
    config.channel_max_backoff_secs = 0;
    let plan = plan_startup(&config);
    assert_eq!((plan.initial_backoff_secs, plan.max_backoff_secs), (1, 1));
    assert_eq!(plan.supervised, vec![Component::Gateway]);
    assert_eq!(plan.idle, vec![Component::Channels, Component::Scheduler]);

    config.channel_initial_backoff_secs = 5;
    config.channel_max_backoff_secs = 3;
    config.heartbeat_enabled = true;
    config.cron_enabled = true;
    config.mqtt_configured = true;
    configure(&mut config, "qq");
    let plan = plan_startup(&config);
    assert_eq!((plan.initial_backoff_secs, plan.max_backoff_secs), (5, 5));
    assert_eq!(
        plan.supervised,
        vec![Component::Gateway, Component::Channels, Component::Heartbeat, Component::Scheduler]
    );
    assert!(plan.idle.is_empty());

    config.sop_enabled = true;
    config.channel_max_backoff_secs = 300;
    let plan = plan_startup(&config);
    assert_eq!((plan.initial_backoff_secs, plan.max_backoff_secs), (5, 300));
    assert_eq!(plan.supervised.last(), Some(&Component::Mqtt));
    let names: Vec<&str> = plan.supervised.iter().map(|c| c.name()).collect();
    assert_eq!(names, vec!["gateway", "channels", "heartbeat", "scheduler", "mqtt"]);
}

#[test]
fn heartbeat_interval_has_a_floor() {
    assert_eq!(heartbeat_interval_secs(0), 300);
    assert_eq!(heartbeat_interval_secs(4), 300);
    assert_eq!(heartbeat_interval_secs(5), 300);
    assert_eq!(heartbeat_interval_secs(30), 1800);
    assert_eq!(heartbeat_interval_secs(u32::MAX), u32::MAX as u64 * 60);
    assert_eq!(STATUS_FLUSH_SECONDS, 5);
    assert_eq!(heartbeat_prompt("water the plants"), "[Heartbeat Task] water the plants");
}

#[test]
fn backoff_doubles_after_the_sleep_up_to_the_largest_delay() {
    let mut health = HealthRegistry::new();
    let mut supervisor = Supervisor::new("worker", 1, 8);
    let mut slept = Vec::new();
    for _ in 0..6 {
        supervisor.before_run(&mut health);
        slept.push(supervisor.after_run(&mut health, &ComponentExit::Failed("boom".into())));
    }
    assert_eq!(slept, vec![1, 2, 4, 8, 8, 8]);
    assert_eq!(slept.iter().sum::<u64>(), 31);
    assert_eq!(supervisor.backoff_secs(), 8);
    // A clean exit sleeps the initial delay again.
    supervisor.before_run(&mut health);
    assert_eq!(supervisor.after_run(&mut health, &ComponentExit::Clean), 1);
    assert_eq!(supervisor.after_run(&mut health, &ComponentExit::Failed("x".into())), 2);
    assert_eq!(health.snapshot()[0].restart_count, 8);
}

#[test]
fn backoff_bounds_are_clamped() {
    let zero = Supervisor::new("a", 0, 0);
    assert_eq!(zero.backoff_secs(), 1);
    let mut health = HealthRegistry::new();
    let mut inverted = Supervisor::new("b", 10, 3);
    assert_eq!(inverted.after_run(&mut health, &ComponentExit::Failed("x".into())), 10);
    assert_eq!(inverted.after_run(&mut health, &ComponentExit::Failed("x".into())), 10);
    let mut huge = Supervisor::new("c", u64::MAX - 1, u64::MAX);
    assert_eq!(huge.after_run(&mut health, &ComponentExit::Failed("x".into())), u64::MAX - 1);
    assert_eq!(huge.after_run(&mut health, &ComponentExit::Failed("x".into())), u64::MAX);
    assert_eq!(huge.name(), "c");
}

#[test]
fn health_registry_keeps_one_entry_per_component() {
    let mut health = HealthRegistry::new();
    assert!(health.snapshot().is_empty());
    health.mark_error("gateway", "bind failed");
    health.bump_restart("gateway");
    health.mark_ok("channels");
    health.bump_restart("scheduler");
    health.mark_error("gateway", "bind failed again");
    let snapshot = health.snapshot();
    let names: Vec<&str> = snapshot.iter().map(|c| c.name.as_str()).collect();
    assert_eq!(names, vec!["gateway", "channels", "scheduler"]);
    assert_eq!(snapshot[0].status, HealthStatus::Failing);
    assert_eq!(snapshot[0].last_error.as_deref(), Some("bind failed again"));
    assert_eq!(snapshot[0].restart_count, 1);
    assert_eq!(snapshot[1].status, HealthStatus::Healthy);
    assert_eq!(snapshot[1].status.as_str(), "ok");
    assert_eq!(snapshot[2].status, HealthStatus::Healthy);
    assert_eq!(snapshot[2].restart_count, 1);
    health.mark_ok("gateway");
    let snapshot = health.snapshot();
    assert_eq!(snapshot[0].status, HealthStatus::Healthy);
    assert_eq!(snapshot[0].last_error, None);
    assert_eq!(snapshot[0].restart_count, 1);
}
