use screen_watch::receiver::console::{
    hide_console, menu_action, toggle_console, ConsoleAction, MenuAction,
};
use screen_watch::receiver::link::{Link, LinkAction, LinkEvent};
use screen_watch::receiver::tray::{alert_body, create_icon, Status, ICON_SIDE};
use screen_watch::wire::UdpMsg;

const S: u128 = 1_000_000_000;

fn heartbeat(now: u128) -> LinkEvent {
    LinkEvent::Message { msg: UdpMsg::Heartbeat, now }
}

fn notification(now: u128) -> LinkEvent {
    LinkEvent::Message { msg: UdpMsg::Notification, now }
}

#[test]
fn the_first_heartbeat_connects() {
    let mut link = Link::new(0);
    assert!(!link.connected());
    assert_eq!(link.step(LinkEvent::RoundOver { now: 100 * S }), LinkAction::Nothing);
    assert_eq!(link.step(heartbeat(100 * S)), LinkAction::ShowConnected);
    assert!(link.connected());
    assert_eq!(link.step(heartbeat(105 * S)), LinkAction::Nothing);
}

#[test]
fn silence_disconnects_once() {
    let mut link = Link::new(0);
    link.step(heartbeat(10 * S));
    assert_eq!(link.step(LinkEvent::RoundOver { now: 25 * S }), LinkAction::Nothing);
    assert_eq!(link.step(LinkEvent::RoundOver { now: 25 * S + 1 }), LinkAction::ShowDisconnected);
    assert!(!link.connected());
    assert_eq!(link.step(LinkEvent::RoundOver { now: 26 * S }), LinkAction::Nothing);
    assert_eq!(link.step(heartbeat(30 * S)), LinkAction::ShowConnected);
}

#[test]
fn heartbeats_keep_the_connection() {
    let mut link = Link::new(0);
    link.step(heartbeat(0));
    for k in 1..20u128 {
        assert_eq!(link.step(LinkEvent::RoundOver { now: 15 * k * S }), LinkAction::Nothing);
        assert_eq!(link.step(heartbeat(15 * k * S)), LinkAction::Nothing);
    }
    assert!(link.connected());
}

#[test]
fn notifications_are_counted() {
    let mut link = Link::new(0);
    for count in 1..=3u64 {
        assert_eq!(link.step(notification(S)), LinkAction::Alert { count });
    }
    assert_eq!(link.msg_count(), 3);
    assert!(!link.connected());
}

#[test]
fn notifications_are_no_heartbeats() {
    let mut link = Link::new(0);
    link.step(heartbeat(0));
    link.step(notification(14 * S));
    assert_eq!(link.step(LinkEvent::RoundOver { now: 16 * S }), LinkAction::ShowDisconnected);
}

#[test]
fn alerts_tell_their_number() {
    assert_eq!(alert_body(1), "检测到屏幕通知区域变化 (第 1 次)");
    assert_eq!(alert_body(1204), "检测到屏幕通知区域变化 (第 1204 次)");
}

#[test]
fn icons_are_opaque_squares() {
    let icon = create_icon(1, 2, 3);
    assert_eq!(icon.len(), (ICON_SIDE * ICON_SIDE * 4) as usize);
    assert_eq!(icon, [1u8, 2, 3, 255].repeat(1024));
}

#[test]
fn statuses_have_their_looks() {
    assert_eq!(Status::Waiting.tooltip(), "消息监控 - 等待连接");
    assert_eq!(Status::Connected.tooltip(), "消息监控 - 已连接");
    assert_eq!(Status::Disconnected.tooltip(), "消息监控 - 已断开");
    assert_eq!(Status::Waiting.icon(), create_icon(0, 180, 80));
    assert_eq!(Status::Connected.icon(), create_icon(0, 220, 80));
    assert_eq!(Status::Disconnected.icon(), create_icon(128, 128, 128));
}

#[test]
fn the_console_is_turned_over() {
    assert_eq!(toggle_console(Some(true)), ConsoleAction::Hide);
    assert_eq!(toggle_console(Some(false)), ConsoleAction::Show);
    assert_eq!(toggle_console(None), ConsoleAction::Nothing);
    assert_eq!(hide_console(true), ConsoleAction::Hide);
    assert_eq!(hide_console(false), ConsoleAction::Nothing);
}

#[test]
fn quitting_comes_first() {
    assert_eq!(menu_action(true, true), MenuAction::Quit);
    assert_eq!(menu_action(true, false), MenuAction::Quit);
    assert_eq!(menu_action(false, true), MenuAction::ToggleConsole);
    assert_eq!(menu_action(false, false), MenuAction::Nothing);
}
