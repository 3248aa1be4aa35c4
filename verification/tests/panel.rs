use screen_watch::monitor::config::{CaptureArea, Config, Form};
use screen_watch::monitor::panel::{Controls, Panel, PanelStatus, StartOutcome};

const AREA: CaptureArea = CaptureArea { x: 1, y: 2, width: 30, height: 40 };

fn form() -> Form {
    Form { port: "77".to_string(), ..Config::default().form() }
}

const READY: Controls = Controls {
    start_enabled: true,
    stop_enabled: false,
    select_enabled: true,
    fields_readonly: false,
    timer_on: false,
    status: PanelStatus::Ready,
};

const WATCHING: Controls = Controls {
    start_enabled: false,
    stop_enabled: true,
    select_enabled: false,
    fields_readonly: true,
    timer_on: true,
    status: PanelStatus::Watching,
};

#[test]
fn the_window_opens_ready() {
    let panel = Panel::new(Config::default());
    assert_eq!(panel.controls(), READY);
    assert!(panel.visible());
    assert_eq!(panel.area_label(), "未设置");
}

#[test]
fn status_lines() {
    assert_eq!(PanelStatus::Ready.text(), "状态: 就绪");
    assert_eq!(PanelStatus::Watching.text(), "状态: 监控中...");
    assert_eq!(PanelStatus::Stopped.text(), "状态: 已停止");
    assert_eq!(PanelStatus::Broken.text(), "状态: 已停止（异常）");
}

#[test]
fn starting_without_an_area_is_refused() {
    let mut panel = Panel::new(Config::default());
    assert_eq!(panel.start_clicked(form()), StartOutcome::AreaMissing);
    assert_eq!(panel.controls(), READY);
    assert_eq!(panel.config().network.port, 77);
    panel.area_chosen(Some(CaptureArea { height: 0, ..AREA }));
    assert_eq!(panel.start_clicked(form()), StartOutcome::AreaMissing);
}

#[test]
fn an_area_is_chosen() {
    let mut panel = Panel::new(Config::default());
    panel.select_clicked();
    assert!(!panel.visible());
    panel.area_chosen(Some(AREA));
    assert!(panel.visible());
    assert_eq!(panel.area_label(), "(1, 2) 30x40");
    panel.select_clicked();
    panel.area_chosen(None);
    assert_eq!(panel.config().capture, AREA);
    assert!(panel.visible());
}

#[test]
fn starting_and_stopping() {
    let mut panel = Panel::new(Config::default());
    panel.area_chosen(Some(AREA));
    assert_eq!(panel.start_clicked(form()), StartOutcome::Started);
    assert_eq!(panel.controls(), WATCHING);
    assert_eq!(panel.config().capture, AREA);
    panel.timer_tick(true);
    assert_eq!(panel.controls(), WATCHING);
    panel.stop_clicked();
    assert_eq!(panel.controls(), Controls { status: PanelStatus::Stopped, ..READY });
}

#[test]
fn watching_that_stops_by_itself_can_be_started_again() {
    let mut panel = Panel::new(Config::default());
    panel.area_chosen(Some(AREA));
    panel.start_clicked(form());
    panel.timer_tick(false);
    assert_eq!(
        panel.controls(),
        Controls { status: PanelStatus::Broken, fields_readonly: true, ..READY }
    );
    assert_eq!(panel.start_clicked(form()), StartOutcome::Started);
    assert_eq!(panel.controls(), WATCHING);
}

#[test]
fn the_window_goes_to_the_tray() {
    let mut panel = Panel::new(Config::default());
    panel.minimized();
    assert!(!panel.visible());
    panel.restored();
    assert!(panel.visible());
}
