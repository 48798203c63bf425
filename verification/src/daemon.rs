//! The daemon around the core: where its state file lies, which components
//! it supervises, and with what delays.

use vstd::prelude::*;
use vstd::string::*;

verus! {

/// Every how many seconds the health registry is written to the state file.
pub const STATUS_FLUSH_SECONDS: u64 = 5;

/// The name of the state file.
pub open spec fn state_file_name() -> Seq<char> {
    "daemon_state.json"@
}

/// A real-time channel and whether it is configured.
#[derive(Clone, Debug, PartialEq, Eq)]
pub struct ChannelStatus {
    pub name: String,
    pub configured: bool,
}

impl DeepView for ChannelStatus {
    type V = (Seq<char>, bool);

    open spec fn deep_view(&self) -> (Seq<char>, bool) {
        (self.name@, self.configured)
    }
}

/// What the daemon reads of its configuration.
#[derive(Clone, Debug, PartialEq, Eq)]
pub struct Config {
    /// The path of the configuration file.
    pub config_path: String,
    /// The delay before the first restart of a component, in seconds.
    pub channel_initial_backoff_secs: u64,
    /// The largest delay between restarts, in seconds.
    pub channel_max_backoff_secs: u64,
    /// Is the heartbeat worker switched on?
    pub heartbeat_enabled: bool,
    /// The minutes between two heartbeats.
    pub heartbeat_interval_minutes: u32,
    /// Is the scheduler switched on?
    pub cron_enabled: bool,
    /// Is a message-queue listener configured?
    pub mqtt_configured: bool,
    /// Is the engine available?
    pub sop_enabled: bool,
    /// The real-time channels other than the webhook.
    pub channels: Vec<ChannelStatus>,
}

/// The configuration as a mathematical value.
pub struct ConfigView {
    pub config_path: Seq<char>,
    pub channel_initial_backoff_secs: u64,
    pub channel_max_backoff_secs: u64,
    pub heartbeat_enabled: bool,
    pub heartbeat_interval_minutes: u32,
    pub cron_enabled: bool,
    pub mqtt_configured: bool,
    pub sop_enabled: bool,
    pub channels: Seq<(Seq<char>, bool)>,
}

impl View for Config {
    type V = ConfigView;

    open spec fn view(&self) -> ConfigView {
        ConfigView {
            config_path: self.config_path@,
            channel_initial_backoff_secs: self.channel_initial_backoff_secs,
            channel_max_backoff_secs: self.channel_max_backoff_secs,
            heartbeat_enabled: self.heartbeat_enabled,
            heartbeat_interval_minutes: self.heartbeat_interval_minutes,
            cron_enabled: self.cron_enabled,
            mqtt_configured: self.mqtt_configured,
            sop_enabled: self.sop_enabled,
            channels: self.channels.deep_view(),
        }
    }
}

/// The directory a path lies in, as `std::path::Path::parent` gives it under
/// the path rules of the platform; `None` where the path has none.
pub uninterp spec fn path_parent(path: Seq<char>) -> Option<Seq<char>>;

/// The path of `name` under the directory `dir`, as `std::path::Path::join`
/// gives it under the path rules of the platform.
pub uninterp spec fn path_join(dir: Seq<char>, name: Seq<char>) -> Seq<char>;

/// Calls `std::path::Path::parent`. Trusted: the result is a function of the
/// path alone, named `path_parent`; what it is on a given path is not stated
/// here.
#[verifier::external_body]
fn parent_of(path: &str) -> (r: Option<String>)
    ensures
        r.deep_view() == path_parent(path@),
{
    match std::path::Path::new(path).parent() {
        Some(dir) => Some(dir.to_string_lossy().into_owned()),
        None => None,
    }
}

/// Calls `std::path::Path::join`. Trusted: the result is a function of the
/// two paths alone, named `path_join`; what it is on given paths is not
/// stated here.
#[verifier::external_body]
fn join_path(dir: &str, name: &str) -> (r: String)
    ensures
        r@ == path_join(dir@, name@),
{
    std::path::Path::new(dir).join(name).to_string_lossy().into_owned()
}

/// The path of the state file for a configuration file at `config_path`.
pub open spec fn state_file_of(config_path: Seq<char>) -> Seq<char> {
    match path_parent(config_path) {
        Some(dir) => path_join(dir, state_file_name()),
        None => path_join("."@, state_file_name()),
    }
}

/// The path of the state file: `daemon_state.json` in the directory of the
/// configuration file, or in the current directory where the path of the
/// configuration file names no directory.
pub fn state_file_path(config: &Config) -> (r: String)
    ensures
        r@ == state_file_of(config@.config_path),
{
    match parent_of(config.config_path.as_str()) {
        Some(dir) => join_path(dir.as_str(), "daemon_state.json"),
        None => join_path(".", "daemon_state.json"),
    }
}

/// Is some channel of the list configured?
pub open spec fn any_configured(channels: Seq<(Seq<char>, bool)>) -> bool {
    exists|i: int| 0 <= i < channels.len() && (#[trigger] channels[i]).1
}

/// Is a real-time channel configured, so that the channels need a supervisor?
pub fn has_supervised_channels(config: &Config) -> (r: bool)
    ensures
        r == any_configured(config@.channels),
{
    let mut i: usize = 0;
    while i < config.channels.len()
        invariant
            i <= config.channels.len(),
            forall|j: int| 0 <= j < i ==> !(#[trigger] config@.channels[j]).1,
        decreases config.channels.len() - i,
    {
        assert(config@.channels[i as int] == config.channels[i as int].deep_view());
        if config.channels[i].configured {
            return true;
        }
        i += 1;
    }
    false
}

/// The components the daemon can supervise.
#[derive(Clone, Copy, Debug, PartialEq, Eq, Structural)]
pub enum Component {
    Gateway,
    Channels,
    Heartbeat,
    Scheduler,
    Mqtt,
}

impl Component {
    /// The name of the component in the health registry.
    pub open spec fn text(self) -> Seq<char> {
        match self {
            Component::Gateway => "gateway"@,
            Component::Channels => "channels"@,
            Component::Heartbeat => "heartbeat"@,
            Component::Scheduler => "scheduler"@,
            Component::Mqtt => "mqtt"@,
        }
    }

    /// The name of the component in the health registry.
    pub fn name(&self) -> (r: &'static str)
        ensures
            r@ == self.text(),
    {
        match self {
            Component::Gateway => "gateway",
            Component::Channels => "channels",
            Component::Heartbeat => "heartbeat",
            Component::Scheduler => "scheduler",
            Component::Mqtt => "mqtt",
        }
    }
}

/// What the daemon does at its start.
#[derive(Clone, Debug, PartialEq, Eq)]
pub struct StartupPlan {
    /// The delay before the first restart of a component, in seconds.
    pub initial_backoff_secs: u64,
    /// The largest delay between restarts, in seconds.
    pub max_backoff_secs: u64,
    /// The components that get a supervisor, in the order they are started.
    pub supervised: Vec<Component>,
    /// The components that are marked as up without one.
    pub idle: Vec<Component>,
}

/// The components that get a supervisor: the gateway always, the channels
/// where one is configured, the heartbeat and the scheduler where they are
/// switched on, and the message-queue listener where it is configured and
/// the engine is there.
pub open spec fn supervised_components(config: ConfigView) -> Seq<Component> {
    seq![Component::Gateway] + (if any_configured(config.channels) {
        seq![Component::Channels]
    } else {
        Seq::empty()
    }) + (if config.heartbeat_enabled {
        seq![Component::Heartbeat]
    } else {
        Seq::empty()
    }) + (if config.cron_enabled {
        seq![Component::Scheduler]
    } else {
        Seq::empty()
    }) + (if config.mqtt_configured && config.sop_enabled {
        seq![Component::Mqtt]
    } else {
        Seq::empty()
    })
}

/// The components that are marked as up without a supervisor: the channels
/// where none is configured, and the scheduler where it is switched off.
pub open spec fn idle_components(config: ConfigView) -> Seq<Component> {
    (if any_configured(config.channels) {
        Seq::empty()
    } else {
        seq![Component::Channels]
    }) + (if config.cron_enabled {
        Seq::empty()
    } else {
        seq![Component::Scheduler]
    })
}

/// What the daemon does at its start: the delays of its supervisors, the
/// initial one at least a second and the largest at least the initial one,
/// and which components get a supervisor.
pub fn plan_startup(config: &Config) -> (r: StartupPlan)
    ensures
        r.initial_backoff_secs == if config.channel_initial_backoff_secs < 1 {
            1
        } else {
            config.channel_initial_backoff_secs
        },
        r.max_backoff_secs == if config.channel_max_backoff_secs < r.initial_backoff_secs {
            r.initial_backoff_secs
        } else {
            config.channel_max_backoff_secs
        },
        r.supervised@ == supervised_components(config@),
        r.idle@ == idle_components(config@),
{
    let initial = if config.channel_initial_backoff_secs < 1 {
        1
    } else {
        config.channel_initial_backoff_secs
    };
    let max = if config.channel_max_backoff_secs < initial {
        initial
    } else {
        config.channel_max_backoff_secs
    };
    let mut supervised: Vec<Component> = Vec::new();
    let mut idle: Vec<Component> = Vec::new();
    supervised.push(Component::Gateway);
    if has_supervised_channels(config) {
        supervised.push(Component::Channels);
    } else {
        idle.push(Component::Channels);
    }
    if config.heartbeat_enabled {
        supervised.push(Component::Heartbeat);
    }
    if config.cron_enabled {
        supervised.push(Component::Scheduler);
    } else {
        idle.push(Component::Scheduler);
    }
    if config.mqtt_configured && config.sop_enabled {
        supervised.push(Component::Mqtt);
    }
    assert(supervised@ =~= supervised_components(config@));
    assert(idle@ =~= idle_components(config@));
    StartupPlan { initial_backoff_secs: initial, max_backoff_secs: max, supervised, idle }
}

/// The seconds between two heartbeats: the configured minutes, but at least five.
pub fn heartbeat_interval_secs(interval_minutes: u32) -> (r: u64)
    ensures
        r == if interval_minutes < 5 {
            300
        } else {
            interval_minutes * 60
        },
{
    let minutes: u64 = if interval_minutes < 5 {
        5
    } else {
        interval_minutes as u64
    };
    minutes * 60
}

/// The prompt that hands a heartbeat task to the agent.
pub open spec fn heartbeat_prompt_text(task: Seq<char>) -> Seq<char> {
    "[Heartbeat Task] "@ + task
}

/// The prompt that hands a heartbeat task to the agent.
pub fn heartbeat_prompt(task: &str) -> (r: String)
    ensures
        r@ == heartbeat_prompt_text(task@),
{
    let mut prompt = String::new();
    prompt.append("[Heartbeat Task] ");
    prompt.append(task);
    assert(prompt@ =~= heartbeat_prompt_text(task@));
    prompt
}

} // verus!
