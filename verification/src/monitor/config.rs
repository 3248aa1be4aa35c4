//! What the watcher is set up to do.

use crate::decimal::{decimal, parse_decimal, parsed, push_decimal, to_decimal};
use vstd::prelude::*;
use vstd::string::*;

verus! {

/// The port that is used where none is given.
pub const DEFAULT_PORT: u16 = 13587;

/// The pause between two looks at the screen, in milliseconds, where none is given.
pub const DEFAULT_INTERVAL_MS: u64 = 500;

/// The difference that is let pass where none is given.
pub const DEFAULT_THRESHOLD: u64 = 5000;

/// The shortest time between two notifications, in milliseconds, where none is given.
pub const DEFAULT_COOLDOWN_MS: u64 = 3000;

/// The part of the screen that is watched.
#[derive(Clone, Copy, Debug, PartialEq, Eq)]
pub struct CaptureArea {
    pub x: u32,
    pub y: u32,
    pub width: u32,
    pub height: u32,
}

/// Where notifications go.
#[derive(Clone, Debug)]
pub struct NetworkConfig {
    pub target: String,
    pub port: u16,
}

/// How the screen is watched.
#[derive(Clone, Copy, Debug, PartialEq, Eq)]
pub struct MonitorSettings {
    /// The pause between two looks at the screen.
    pub interval_ms: u64,
    /// The difference that is let pass.
    pub threshold: u64,
    /// The shortest time between two notifications.
    pub cooldown_ms: u64,
}

/// All settings.
#[derive(Clone, Debug)]
pub struct Config {
    pub capture: CaptureArea,
    pub network: NetworkConfig,
    pub monitor: MonitorSettings,
}

/// What a `Config` says.
pub struct ConfigView {
    pub capture: CaptureArea,
    pub target: Seq<char>,
    pub port: u16,
    pub monitor: MonitorSettings,
}

impl View for Config {
    type V = ConfigView;

    open spec fn view(&self) -> ConfigView {
        ConfigView {
            capture: self.capture,
            target: self.network.target@,
            port: self.network.port,
            monitor: self.monitor,
        }
    }
}

/// The texts of the input fields.
#[derive(Clone, Debug)]
pub struct Form {
    pub target: String,
    pub port: String,
    pub interval: String,
    pub threshold: String,
    pub cooldown: String,
}

/// What the input fields say.
pub struct FormView {
    pub target: Seq<char>,
    pub port: Seq<char>,
    pub interval: Seq<char>,
    pub threshold: Seq<char>,
    pub cooldown: Seq<char>,
}

impl View for Form {
    type V = FormView;

    open spec fn view(&self) -> FormView {
        FormView {
            target: self.target@,
            port: self.port@,
            interval: self.interval@,
            threshold: self.threshold@,
            cooldown: self.cooldown@,
        }
    }
}

/// The settings of a fresh installation: no area, everyone on the local network
/// is told.
pub open spec fn default_config() -> ConfigView {
    ConfigView {
        capture: CaptureArea { x: 0, y: 0, width: 0, height: 0 },
        target: "255.255.255.255"@,
        port: DEFAULT_PORT,
        monitor: MonitorSettings {
            interval_ms: DEFAULT_INTERVAL_MS,
            threshold: DEFAULT_THRESHOLD,
            cooldown_ms: DEFAULT_COOLDOWN_MS,
        },
    }
}

/// How an area is shown: its corner and its size, unless it has neither width
/// nor height.
pub open spec fn summary_text(area: CaptureArea) -> Seq<char> {
    if area.width == 0 && area.height == 0 {
        "未设置"@
    } else {
        "("@ + decimal(area.x as nat) + ", "@ + decimal(area.y as nat) + ") "@ + decimal(
            area.width as nat,
        ) + "x"@ + decimal(area.height as nat)
    }
}

/// Whether an area has any pixel.
pub open spec fn has_pixels(area: CaptureArea) -> bool {
    area.width != 0 && area.height != 0
}

/// The number of an input field, or `default` where the field holds none.
pub open spec fn field_value(text: Seq<char>, max: nat, default: nat) -> nat {
    match parsed(text, max) {
        Some(n) => n,
        None => default,
    }
}

/// The input fields that show a configuration.
pub open spec fn form_of(config: ConfigView) -> FormView {
    FormView {
        target: config.target,
        port: decimal(config.port as nat),
        interval: decimal(config.monitor.interval_ms as nat),
        threshold: decimal(config.monitor.threshold as nat),
        cooldown: decimal(config.monitor.cooldown_ms as nat),
    }
}

/// A configuration after the input fields were read into it.
pub open spec fn with_form(config: ConfigView, form: FormView) -> ConfigView {
    ConfigView {
        capture: config.capture,
        target: form.target,
        port: field_value(form.port, u16::MAX as nat, DEFAULT_PORT as nat) as u16,
        monitor: MonitorSettings {
            interval_ms: field_value(
                form.interval,
                u64::MAX as nat,
                DEFAULT_INTERVAL_MS as nat,
            ) as u64,
            threshold: field_value(
                form.threshold,
                u64::MAX as nat,
                DEFAULT_THRESHOLD as nat,
            ) as u64,
            cooldown_ms: field_value(
                form.cooldown,
                u64::MAX as nat,
                DEFAULT_COOLDOWN_MS as nat,
            ) as u64,
        },
    }
}

impl CaptureArea {
    /// The area in words.
    pub fn summary(&self) -> (s: String)
        ensures
            s@ == summary_text(*self),
    {
        if self.width == 0 && self.height == 0 {
            return "未设置".to_owned();
        }
        let mut s = "(".to_owned();
        push_decimal(&mut s, self.x as u64);
        s.append(", ");
        push_decimal(&mut s, self.y as u64);
        s.append(") ");
        push_decimal(&mut s, self.width as u64);
        s.append("x");
        push_decimal(&mut s, self.height as u64);
        s
    }

    /// Tells whether the area has any pixel.
    pub fn is_set(&self) -> (r: bool)
        ensures
            r == has_pixels(*self),
    {
        !(self.width == 0 || self.height == 0)
    }
}

impl NetworkConfig {
    /// The address that notifications are sent to.
    pub fn address(&self) -> (s: String)
        ensures
            s@ == self.target@ + ":"@ + decimal(self.port as nat),
    {
        let mut s = self.target.clone();
        s.append(":");
        push_decimal(&mut s, self.port as u64);
        s
    }
}

impl Default for Config {
    fn default() -> (config: Config)
        ensures
            config@ == default_config(),
    {
        Config {
            capture: CaptureArea { x: 0, y: 0, width: 0, height: 0 },
            network: NetworkConfig { target: "255.255.255.255".to_owned(), port: DEFAULT_PORT },
            monitor: MonitorSettings {
                interval_ms: DEFAULT_INTERVAL_MS,
                threshold: DEFAULT_THRESHOLD,
                cooldown_ms: DEFAULT_COOLDOWN_MS,
            },
        }
    }
}

/// The number of an input field, or `default` where the field holds none.
fn read_field(text: &str, max: u64, default: u64) -> (n: u64)
    ensures
        n == field_value(text@, max as nat, default as nat),
{
    match parse_decimal(text, max) {
        Some(n) => n,
        None => default,
    }
}

impl Config {
    /// The input fields that show this configuration.
    pub fn form(&self) -> (form: Form)
        ensures
            form@ == form_of(self@),
    {
        Form {
            target: self.network.target.clone(),
            port: to_decimal(self.network.port as u64),
            interval: to_decimal(self.monitor.interval_ms),
            threshold: to_decimal(self.monitor.threshold),
            cooldown: to_decimal(self.monitor.cooldown_ms),
        }
    }

    /// Reads the input fields. A field that holds no number in range counts as
    /// its default.
    pub fn apply_form(&mut self, form: Form)
        ensures
            final(self)@ == with_form(old(self)@, form@),
    {
        let port: u64 = read_field(form.port.as_str(), u16::MAX as u64, DEFAULT_PORT as u64);
        let interval_ms: u64 = read_field(form.interval.as_str(), u64::MAX, DEFAULT_INTERVAL_MS);
        let threshold: u64 = read_field(form.threshold.as_str(), u64::MAX, DEFAULT_THRESHOLD);
        let cooldown_ms: u64 = read_field(form.cooldown.as_str(), u64::MAX, DEFAULT_COOLDOWN_MS);
        self.network = NetworkConfig { target: form.target, port: port as u16 };
        self.monitor = MonitorSettings { interval_ms, threshold, cooldown_ms };
    }
}

/// The configuration to begin with: the one that was found in the file, or the
/// default where there is no file, it cannot be read or it makes no sense.
pub fn load_config(found: Option<Config>) -> (config: Config)
    ensures
        found matches Some(c) ==> config == c,
        found is None ==> config@ == default_config(),
{
    match found {
        Some(config) => config,
        None => Config::default(),
    }
}

/// Reading the input fields that show a configuration gives back its settings;
/// the area stays that of the configuration they are read into.
pub proof fn law_form_round_trip(config: ConfigView, shown: ConfigView)
    ensures
        with_form(config, form_of(shown)) == (ConfigView { capture: config.capture, ..shown }),
        with_form(shown, form_of(shown)) == shown,
{
    crate::decimal::law_decimal_round_trip(shown.port as nat, u16::MAX as nat);
    crate::decimal::law_decimal_round_trip(shown.monitor.interval_ms as nat, u64::MAX as nat);
    crate::decimal::law_decimal_round_trip(shown.monitor.threshold as nat, u64::MAX as nat);
    crate::decimal::law_decimal_round_trip(shown.monitor.cooldown_ms as nat, u64::MAX as nat);
}

/// Input fields without numbers give the settings of a fresh installation.
pub proof fn law_unreadable_form_is_default(config: ConfigView, form: FormView)
    requires
        parsed(form.port, u16::MAX as nat) is None,
        parsed(form.interval, u64::MAX as nat) is None,
        parsed(form.threshold, u64::MAX as nat) is None,
        parsed(form.cooldown, u64::MAX as nat) is None,
    ensures
        with_form(config, form) == (ConfigView {
            capture: config.capture,
            target: form.target,
            ..default_config()
        }),
{
}

/// An area without width and height is shown as not set; any other by its four
/// numbers, in the order of corner and size, each in decimal.
pub proof fn law_summary_written_out(area: CaptureArea)
    ensures
        area.width == 0 && area.height == 0 ==> summary_text(area) == "未设置"@,
        area.width > 0 || area.height > 0 ==> summary_text(area) == seq!['('] + decimal(
            area.x as nat,
        ) + seq![',', ' '] + decimal(area.y as nat) + seq![')', ' '] + decimal(area.width as nat)
            + seq!['x'] + decimal(area.height as nat),
        has_pixels(area) <==> area.width > 0 && area.height > 0,
{
    reveal_strlit("(");
    reveal_strlit(", ");
    reveal_strlit(") ");
    reveal_strlit("x");
    assert("("@ =~= seq!['(']);
    assert(", "@ =~= seq![',', ' ']);
    assert(") "@ =~= seq![')', ' ']);
    assert("x"@ =~= seq!['x']);
}

/// Every input field is read on its own: a number in range is taken as it is,
/// anything else counts as the default of that field. The area stays.
pub proof fn law_form_written_out(config: ConfigView, form: FormView)
    ensures
        ({
            let read = with_form(config, form);
            &&& read.capture == config.capture
            &&& read.target == form.target
            &&& match parsed(form.port, 65535) {
                Some(n) => read.port == n,
                None => read.port == 13587,
            }
            &&& match parsed(form.interval, 18446744073709551615) {
                Some(n) => read.monitor.interval_ms == n,
                None => read.monitor.interval_ms == 500,
            }
            &&& match parsed(form.threshold, 18446744073709551615) {
                Some(n) => read.monitor.threshold == n,
                None => read.monitor.threshold == 5000,
            }
            &&& match parsed(form.cooldown, 18446744073709551615) {
                Some(n) => read.monitor.cooldown_ms == n,
                None => read.monitor.cooldown_ms == 3000,
            }
        }),
{
}

/// The input fields show the settings, each in decimal in its own field.
pub proof fn law_form_shows_settings(config: ConfigView)
    ensures
        form_of(config).target == config.target,
        form_of(config).port == decimal(config.port as nat),
        form_of(config).interval == decimal(config.monitor.interval_ms as nat),
        form_of(config).threshold == decimal(config.monitor.threshold as nat),
        form_of(config).cooldown == decimal(config.monitor.cooldown_ms as nat),
{
}

/// The settings of a fresh installation.
pub proof fn law_default_written_out()
    ensures
        ({
            let c = default_config();
            &&& c.capture.x == 0 && c.capture.y == 0
            &&& c.capture.width == 0 && c.capture.height == 0
            &&& c.target == "255.255.255.255"@
            &&& c.port == 13587
            &&& c.monitor.interval_ms == 500
            &&& c.monitor.threshold == 5000
            &&& c.monitor.cooldown_ms == 3000
        }),
{
}

} // verus!
