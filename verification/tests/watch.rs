use screen_watch::frame::Frame;
use screen_watch::monitor::capture::{capture_region, pixel_diff, reduced_side};
use screen_watch::monitor::config::{CaptureArea, MonitorSettings};
use screen_watch::monitor::watch::{Watch, WatchAction, WatchEvent};

const S: u128 = 1_000_000_000;
const SETTINGS: MonitorSettings = MonitorSettings {
    interval_ms: 500,
    threshold: 100,
    cooldown_ms: 3000,
};

fn started(settings: MonitorSettings, first: &[u8], now: u128) -> Watch {
    let (watch, action) = Watch::start(settings, Some(first.to_vec()), now);
    assert_eq!(action, WatchAction::Poll);
    watch.unwrap()
}

fn looked(look: &[u8], now: u128) -> WatchEvent {
    WatchEvent::Looked { look: Some(look.to_vec()), now }
}

#[test]
fn differences_are_added_up() {
    assert_eq!(pixel_diff(&[0, 255, 10], &[255, 0, 12]), 512);
    assert_eq!(pixel_diff(&[], &[]), 0);
    assert_eq!(pixel_diff(&[1, 2, 3], &[1, 2, 3]), 0);
    assert_eq!(pixel_diff(&[5, 5, 5, 200], &[4, 6]), 2);
    assert_eq!(pixel_diff(&[4, 6], &[5, 5, 5, 200]), 2);
}

#[test]
fn a_detour_is_no_shorter() {
    let (a, b, c) = ([0u8, 100, 7], [50u8, 90, 9], [20u8, 255, 0]);
    assert!(pixel_diff(&a, &c) <= pixel_diff(&a, &b) + pixel_diff(&b, &c));
}

#[test]
fn sides_are_reduced_to_a_quarter() {
    assert_eq!(reduced_side(0), 1);
    assert_eq!(reduced_side(3), 1);
    assert_eq!(reduced_side(4), 1);
    assert_eq!(reduced_side(7), 1);
    assert_eq!(reduced_side(8), 2);
    assert_eq!(reduced_side(u32::MAX), 1_073_741_823);
}

#[test]
fn a_look_is_reduced() {
    let area = CaptureArea { x: 3, y: 4, width: 8, height: 4 };
    let region = Frame::from_raw(8, 4, [10, 20, 30, 255].repeat(32));
    assert_eq!(capture_region(region, &area), Some(vec![10, 20, 30, 255, 10, 20, 30, 255]));
    assert_eq!(capture_region(None, &area), None);
}

#[test]
fn a_look_at_one_pixel_stays_as_it_is() {
    let area = CaptureArea { x: 0, y: 0, width: 1, height: 1 };
    let region = Frame::from_raw(1, 1, vec![1, 2, 3, 4]);
    assert_eq!(capture_region(region, &area), Some(vec![1, 2, 3, 4]));
}

#[test]
fn there_is_nothing_to_watch_without_a_first_look() {
    let (watch, action) = Watch::start(SETTINGS, None, 0);
    assert!(watch.is_none());
    assert_eq!(action, WatchAction::SwitchOff);
}

#[test]
fn the_switch_is_obeyed() {
    let mut watch = started(SETTINGS, &[0], 60 * S);
    assert_eq!(watch.step(WatchEvent::Polled { running: true }), WatchAction::Sleep { ms: 500 });
    assert_eq!(watch.step(WatchEvent::Polled { running: false }), WatchAction::Stop);
}

#[test]
fn a_heartbeat_is_sent_every_five_seconds() {
    let mut watch = started(SETTINGS, &[0], 60 * S);
    assert_eq!(watch.step(WatchEvent::Woke { now: 65 * S - 1 }), WatchAction::Look);
    assert_eq!(watch.step(WatchEvent::Woke { now: 65 * S }), WatchAction::SendHeartbeat);
    assert_eq!(watch.step(WatchEvent::HeartbeatSent { now: 66 * S }), WatchAction::Look);
    assert_eq!(watch.step(WatchEvent::Woke { now: 70 * S }), WatchAction::Look);
    assert_eq!(watch.step(WatchEvent::Woke { now: 71 * S }), WatchAction::SendHeartbeat);
    assert_eq!(watch.step(WatchEvent::Woke { now: 1 }), WatchAction::Look);
}

#[test]
fn a_change_above_the_threshold_is_notified() {
    let mut watch = started(SETTINGS, &[0, 0], 60 * S);
    assert_eq!(
        watch.step(looked(&[50, 50], 61 * S)),
        WatchAction::Seen { tick: 1, diff: 100, report: true, notify: false }
    );
    assert_eq!(
        watch.step(looked(&[100, 101], 62 * S)),
        WatchAction::Seen { tick: 2, diff: 101, report: true, notify: true }
    );
    assert_eq!(watch.looks(), 2);
}

#[test]
fn the_cooldown_is_kept() {
    let mut watch = started(SETTINGS, &[0], 60 * S);
    let seen = |tick, notify| WatchAction::Seen { tick, diff: 200, report: true, notify };
    assert_eq!(watch.step(looked(&[200], 60 * S)), seen(1, true));
    assert_eq!(watch.step(WatchEvent::Notified { now: 61 * S }), WatchAction::Poll);
    assert_eq!(watch.step(looked(&[0], 64 * S - 1)), seen(2, false));
    assert_eq!(watch.step(looked(&[200], 64 * S)), seen(3, true));
}

#[test]
fn a_long_cooldown_delays_the_first_notification() {
    let settings = MonitorSettings { cooldown_ms: 61_000, ..SETTINGS };
    let mut watch = started(settings, &[0], 60 * S);
    let seen = |tick, notify| WatchAction::Seen { tick, diff: 200, report: true, notify };
    assert_eq!(watch.step(looked(&[200], 61 * S - 1)), seen(1, false));
    assert_eq!(watch.step(looked(&[0], 61 * S)), seen(2, true));
    let settings = MonitorSettings { cooldown_ms: u64::MAX, ..SETTINGS };
    let mut watch = started(settings, &[0], 60 * S);
    assert_eq!(watch.step(looked(&[200], 1_000_000 * S)), seen(1, false));
}

#[test]
fn a_failed_look_is_skipped() {
    let mut watch = started(SETTINGS, &[0], 60 * S);
    assert_eq!(
        watch.step(WatchEvent::Looked { look: None, now: 61 * S }),
        WatchAction::Missed { tick: 0 }
    );
    assert_eq!(
        watch.step(looked(&[7], 61 * S)),
        WatchAction::Seen { tick: 1, diff: 7, report: true, notify: false }
    );
    assert_eq!(
        watch.step(WatchEvent::Looked { look: None, now: 61 * S }),
        WatchAction::Missed { tick: 1 }
    );
}

#[test]
fn a_still_screen_is_silent() {
    let settings = MonitorSettings { threshold: 0, cooldown_ms: 0, ..SETTINGS };
    let mut watch = started(settings, &[1, 2, 3], 60 * S);
    for tick in 1..=45u64 {
        assert_eq!(
            watch.step(looked(&[1, 2, 3], 61 * S)),
            WatchAction::Seen {
                tick,
                diff: 0,
                report: tick <= 10 || tick == 20 || tick == 40,
                notify: false,
            }
        );
    }
}

#[test]
fn a_pass_is_finished_after_the_switch_is_off() {
    let mut watch = started(SETTINGS, &[0], 60 * S);
    assert_eq!(watch.step(WatchEvent::Polled { running: true }), WatchAction::Sleep { ms: 500 });
    assert_eq!(watch.step(WatchEvent::Woke { now: 70 * S }), WatchAction::SendHeartbeat);
    assert_eq!(watch.step(WatchEvent::HeartbeatSent { now: 70 * S }), WatchAction::Look);
    assert_eq!(
        watch.step(looked(&[200], 70 * S)),
        WatchAction::Seen { tick: 1, diff: 200, report: true, notify: true }
    );
    assert_eq!(watch.step(WatchEvent::Notified { now: 70 * S }), WatchAction::Poll);
    assert_eq!(watch.step(WatchEvent::Polled { running: false }), WatchAction::Stop);
}

#[test]
fn looks_at_one_area_have_one_length() {
    let area = CaptureArea { x: 0, y: 0, width: 13, height: 9 };
    let first = capture_region(Frame::from_raw(13, 9, vec![0; 468]), &area).unwrap();
    let second = capture_region(Frame::from_raw(13, 9, vec![200; 468]), &area).unwrap();
    assert_eq!(first.len(), 24);
    assert_eq!(second.len(), 24);
    assert_eq!(pixel_diff(&first, &second), 4800);
}
