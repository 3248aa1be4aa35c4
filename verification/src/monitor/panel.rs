//! The control window: what its buttons do, and when they can be used.

use crate::monitor::config::{has_pixels, summary_text, with_form};
use crate::monitor::config::{CaptureArea, Config, ConfigView, Form};
use vstd::prelude::*;

verus! {

/// What the status line says.
#[derive(Clone, Copy, Debug, PartialEq, Eq)]
pub enum PanelStatus {
    /// Nothing has been started yet.
    Ready,
    /// The screen is watched.
    Watching,
    /// The user stopped the watching.
    Stopped,
    /// The watching stopped by itself.
    Broken,
}

/// What can be used, and what is shown.
#[derive(Clone, Copy, Debug, PartialEq, Eq)]
pub struct Controls {
    /// The button that starts the watching can be used.
    pub start_enabled: bool,
    /// The button that stops the watching can be used.
    pub stop_enabled: bool,
    /// The button that chooses the area can be used.
    pub select_enabled: bool,
    /// The input fields cannot be changed.
    pub fields_readonly: bool,
    /// The watching is checked on every second.
    pub timer_on: bool,
    pub status: PanelStatus,
}

/// What comes of pressing the start button.
#[derive(Clone, Copy, Debug, PartialEq, Eq)]
pub enum StartOutcome {
    /// No area has been chosen: the user is to be told.
    AreaMissing,
    /// The settings are to be stored and the watching is to be started.
    Started,
}

/// The state of the control window.
pub struct PanelView {
    pub config: ConfigView,
    pub controls: Controls,
    pub visible: bool,
}

/// The text of the status line.
pub open spec fn status_text(status: PanelStatus) -> Seq<char> {
    match status {
        PanelStatus::Ready => "状态: 就绪"@,
        PanelStatus::Watching => "状态: 监控中..."@,
        PanelStatus::Stopped => "状态: 已停止"@,
        PanelStatus::Broken => "状态: 已停止（异常）"@,
    }
}

/// The controls when the window opens.
pub open spec fn ready_controls() -> Controls {
    Controls {
        start_enabled: true,
        stop_enabled: false,
        select_enabled: true,
        fields_readonly: false,
        timer_on: false,
        status: PanelStatus::Ready,
    }
}

/// The controls while the screen is watched.
pub open spec fn watching_controls() -> Controls {
    Controls {
        start_enabled: false,
        stop_enabled: true,
        select_enabled: false,
        fields_readonly: true,
        timer_on: true,
        status: PanelStatus::Watching,
    }
}

/// The controls after the user stopped the watching.
pub open spec fn stopped_controls() -> Controls {
    Controls { status: PanelStatus::Stopped, ..ready_controls() }
}

/// The controls after a check on the watching. Where it stopped by itself it can
/// be started again; the input fields stay as they are.
pub open spec fn checked_controls(controls: Controls, running: bool) -> Controls {
    if running {
        Controls { status: PanelStatus::Watching, ..controls }
    } else {
        Controls {
            start_enabled: true,
            stop_enabled: false,
            select_enabled: true,
            timer_on: false,
            status: PanelStatus::Broken,
            ..controls
        }
    }
}

/// What the user and the timer can do to the controls.
pub enum ControlEvent {
    /// The start button, with an area chosen or not.
    Start { area: bool },
    Stop,
    Tick { running: bool },
}

/// The controls after an event.
pub open spec fn controls_after(controls: Controls, event: ControlEvent) -> Controls {
    match event {
        ControlEvent::Start { area } => if area {
            watching_controls()
        } else {
            controls
        },
        ControlEvent::Stop => stopped_controls(),
        ControlEvent::Tick { running } => checked_controls(controls, running),
    }
}

/// The control window.
pub struct Panel {
    config: Config,
    controls: Controls,
    visible: bool,
}

impl View for Panel {
    type V = PanelView;

    closed spec fn view(&self) -> PanelView {
        PanelView { config: self.config@, controls: self.controls, visible: self.visible }
    }
}

impl PanelStatus {
    /// The text of the status line.
    pub fn text(&self) -> (s: &'static str)
        ensures
            s@ == status_text(*self),
    {
        match self {
            PanelStatus::Ready => "状态: 就绪",
            PanelStatus::Watching => "状态: 监控中...",
            PanelStatus::Stopped => "状态: 已停止",
            PanelStatus::Broken => "状态: 已停止（异常）",
        }
    }
}

impl Panel {
    /// Opens the window with the settings that were found.
    pub fn new(config: Config) -> (panel: Panel)
        ensures
            panel@ == (PanelView {
                config: config@,
                controls: ready_controls(),
                visible: true,
            }),
    {
        Panel {
            config,
            controls: Controls {
                start_enabled: true,
                stop_enabled: false,
                select_enabled: true,
                fields_readonly: false,
                timer_on: false,
                status: PanelStatus::Ready,
            },
            visible: true,
        }
    }

    /// The settings.
    pub fn config(&self) -> (config: &Config)
        ensures
            config@ == self@.config,
    {
        &self.config
    }

    /// What can be used, and what is shown.
    pub fn controls(&self) -> (controls: Controls)
        ensures
            controls == self@.controls,
    {
        self.controls
    }

    /// Tells whether the window can be seen.
    pub fn visible(&self) -> (r: bool)
        ensures
            r == self@.visible,
    {
        self.visible
    }

    /// The area in words.
    pub fn area_label(&self) -> (s: String)
        ensures
            s@ == summary_text(self@.config.capture),
    {
        self.config.capture.summary()
    }

    /// The select button: the window makes room for the choice.
    pub fn select_clicked(&mut self)
        ensures
            final(self)@ == (PanelView { visible: false, ..old(self)@ }),
    {
        self.visible = false;
    }

    /// The choice is over, with the area that was chosen if one was; the window
    /// comes back.
    pub fn area_chosen(&mut self, chosen: Option<CaptureArea>)
        ensures
            final(self)@ == (PanelView {
                config: ConfigView {
                    capture: match chosen {
                        Some(area) => area,
                        None => old(self)@.config.capture,
                    },
                    ..old(self)@.config
                },
                visible: true,
                ..old(self)@
            }),
    {
        if let Some(area) = chosen {
            self.config.capture = area;
        }
        self.visible = true;
    }

    /// The start button: the input fields are read, and the watching starts
    /// unless no area has been chosen.
    pub fn start_clicked(&mut self, form: Form) -> (outcome: StartOutcome)
        ensures
            final(self)@ == (PanelView {
                config: with_form(old(self)@.config, form@),
                controls: controls_after(
                    old(self)@.controls,
                    ControlEvent::Start { area: has_pixels(old(self)@.config.capture) },
                ),
                ..old(self)@
            }),
            outcome == (if has_pixels(old(self)@.config.capture) {
                StartOutcome::Started
            } else {
                StartOutcome::AreaMissing
            }),
    {
        self.config.apply_form(form);
        if !self.config.capture.is_set() {
            return StartOutcome::AreaMissing;
        }
        self.controls = Controls {
            start_enabled: false,
            stop_enabled: true,
            select_enabled: false,
            fields_readonly: true,
            timer_on: true,
            status: PanelStatus::Watching,
        };
        StartOutcome::Started
    }

    /// The stop button.
    pub fn stop_clicked(&mut self)
        ensures
            final(self)@ == (PanelView {
                controls: controls_after(old(self)@.controls, ControlEvent::Stop),
                ..old(self)@
            }),
    {
        self.controls = Controls {
            start_enabled: true,
            stop_enabled: false,
            select_enabled: true,
            fields_readonly: false,
            timer_on: false,
            status: PanelStatus::Stopped,
        };
    }

    /// The timer: `running` tells whether the screen is still watched.
    pub fn timer_tick(&mut self, running: bool)
        ensures
            final(self)@ == (PanelView {
                controls: controls_after(old(self)@.controls, ControlEvent::Tick { running }),
                ..old(self)@
            }),
    {
        if running {
            self.controls.status = PanelStatus::Watching;
        } else {
            self.controls.start_enabled = true;
            self.controls.stop_enabled = false;
            self.controls.select_enabled = true;
            self.controls.timer_on = false;
            self.controls.status = PanelStatus::Broken;
        }
    }

    /// The window is minimized: it goes to the tray.
    pub fn minimized(&mut self)
        ensures
            final(self)@ == (PanelView { visible: false, ..old(self)@ }),
    {
        self.visible = false;
    }

    /// The tray icon is used: the window comes back.
    pub fn restored(&mut self)
        ensures
            final(self)@ == (PanelView { visible: true, ..old(self)@ }),
    {
        self.visible = true;
    }
}

/// Whether an event can happen: a button can only be used when it is enabled,
/// and the timer only ticks when it is on.
pub open spec fn possible(controls: Controls, event: ControlEvent) -> bool {
    match event {
        ControlEvent::Start { .. } => controls.start_enabled,
        ControlEvent::Stop => controls.stop_enabled,
        ControlEvent::Tick { .. } => controls.timer_on,
    }
}

/// Either the watching can be started and an area chosen, or the watching can be
/// stopped and is checked on, with the input fields locked.
pub open spec fn consistent(controls: Controls) -> bool {
    &&& controls.start_enabled == !controls.stop_enabled
    &&& controls.select_enabled == controls.start_enabled
    &&& controls.timer_on == controls.stop_enabled
    &&& controls.stop_enabled <==> controls.status is Watching
    &&& controls.stop_enabled ==> controls.fields_readonly
}

/// The controls are consistent from the start and stay so: the watching can be
/// stopped exactly while the status line says that it goes on.
pub proof fn law_controls_stay_consistent(controls: Controls, event: ControlEvent)
    requires
        consistent(controls),
        possible(controls, event),
    ensures
        consistent(ready_controls()),
        consistent(controls_after(controls, event)),
{
}

/// Stopping by the button unlocks everything that starting locked.
pub proof fn law_stop_undoes_start(controls: Controls)
    ensures
        controls_after(
            controls_after(controls, ControlEvent::Start { area: true }),
            ControlEvent::Stop,
        ) == (Controls { status: PanelStatus::Stopped, ..ready_controls() }),
{
}

/// What can be used at first, and what each event does to each control. At first
/// everything can be used but the stop button. Starting without an area does nothing;
/// starting with one locks all but the stop button and puts the timer on;
/// stopping undoes that; a check that finds the watching alive only says so, and
/// one that finds it dead opens the buttons again and leaves the input fields as
/// they are.
pub proof fn law_controls_written_out(controls: Controls, event: ControlEvent)
    ensures
        ({
            let c = ready_controls();
            &&& c.start_enabled && !c.stop_enabled && c.select_enabled
            &&& !c.fields_readonly && !c.timer_on
            &&& c.status is Ready
        }),
        ({
            let c = controls_after(controls, event);
            match event {
                ControlEvent::Start { area: false } => c == controls,
                ControlEvent::Start { area: true } => {
                    &&& !c.start_enabled && c.stop_enabled && !c.select_enabled
                    &&& c.fields_readonly && c.timer_on
                    &&& c.status is Watching
                },
                ControlEvent::Stop => {
                    &&& c.start_enabled && !c.stop_enabled && c.select_enabled
                    &&& !c.fields_readonly && !c.timer_on
                    &&& c.status is Stopped
                },
                ControlEvent::Tick { running: true } => {
                    &&& c.start_enabled == controls.start_enabled
                    &&& c.stop_enabled == controls.stop_enabled
                    &&& c.select_enabled == controls.select_enabled
                    &&& c.fields_readonly == controls.fields_readonly
                    &&& c.timer_on == controls.timer_on
                    &&& c.status is Watching
                },
                ControlEvent::Tick { running: false } => {
                    &&& c.start_enabled && !c.stop_enabled && c.select_enabled
                    &&& c.fields_readonly == controls.fields_readonly && !c.timer_on
                    &&& c.status is Broken
                },
            }
        }),
{
}

} // verus!
