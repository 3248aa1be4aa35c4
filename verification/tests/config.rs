use screen_watch::monitor::config::{load_config, CaptureArea, Config, Form, MonitorSettings};
use screen_watch::receiver::config as receiver;

fn area(x: u32, y: u32, width: u32, height: u32) -> CaptureArea {
    CaptureArea { x, y, width, height }
}

fn form(port: &str, interval: &str, threshold: &str, cooldown: &str) -> Form {
    Form {
        target: "192.168.1.7".to_string(),
        port: port.to_string(),
        interval: interval.to_string(),
        threshold: threshold.to_string(),
        cooldown: cooldown.to_string(),
    }
}

#[test]
fn an_area_is_summed_up() {
    assert_eq!(area(10, 20, 300, 40).summary(), "(10, 20) 300x40");
    assert_eq!(area(0, 0, 0, 0).summary(), "未设置");
    assert_eq!(area(7, 8, 0, 0).summary(), "未设置");
    assert_eq!(area(0, 0, 0, 5).summary(), "(0, 0) 0x5");
    assert_eq!(
        area(u32::MAX, 0, 1, 0).summary(),
        "(4294967295, 0) 1x0"
    );
}

#[test]
fn an_area_without_pixels_is_not_set() {
    assert!(area(0, 0, 1, 1).is_set());
    assert!(!area(5, 5, 0, 1).is_set());
    assert!(!area(5, 5, 1, 0).is_set());
}

#[test]
fn the_default_tells_everyone() {
    let config = Config::default();
    assert_eq!(config.capture, area(0, 0, 0, 0));
    assert_eq!(config.network.target, "255.255.255.255");
    assert_eq!(config.network.port, 13587);
    assert_eq!(config.network.address(), "255.255.255.255:13587");
    assert_eq!(
        config.monitor,
        MonitorSettings { interval_ms: 500, threshold: 5000, cooldown_ms: 3000 }
    );
}

#[test]
fn the_default_is_used_where_nothing_was_found() {
    assert_eq!(load_config(None).network.port, 13587);
    let mut config = Config::default();
    config.network.port = 4;
    config.capture = area(1, 2, 3, 4);
    let loaded = load_config(Some(config));
    assert_eq!(loaded.network.port, 4);
    assert_eq!(loaded.capture, area(1, 2, 3, 4));
}

#[test]
fn the_form_shows_the_settings() {
    let shown = Config::default().form();
    assert_eq!(shown.target, "255.255.255.255");
    assert_eq!(shown.port, "13587");
    assert_eq!(shown.interval, "500");
    assert_eq!(shown.threshold, "5000");
    assert_eq!(shown.cooldown, "3000");
}

#[test]
fn the_form_is_read() {
    let mut config = Config::default();
    config.capture = area(1, 2, 3, 4);
    config.apply_form(form("80", "+250", "0", "18446744073709551615"));
    assert_eq!(config.capture, area(1, 2, 3, 4));
    assert_eq!(config.network.target, "192.168.1.7");
    assert_eq!(config.network.address(), "192.168.1.7:80");
    assert_eq!(
        config.monitor,
        MonitorSettings { interval_ms: 250, threshold: 0, cooldown_ms: u64::MAX }
    );
}

#[test]
fn fields_without_numbers_count_as_their_defaults() {
    let mut config = Config::default();
    config.apply_form(form("1", "1", "1", "1"));
    config.apply_form(form("65536", "", "-5", "3s"));
    assert_eq!(config.network.port, 13587);
    assert_eq!(
        config.monitor,
        MonitorSettings { interval_ms: 500, threshold: 5000, cooldown_ms: 3000 }
    );
}

#[test]
fn settings_survive_the_form() {
    let mut config = Config::default();
    config.capture = area(9, 9, 9, 9);
    config.network.port = 65535;
    config.monitor = MonitorSettings { interval_ms: 1, threshold: u64::MAX, cooldown_ms: 0 };
    let shown = config.form();
    let mut other = Config::default();
    other.apply_form(shown);
    assert_eq!(other.network.port, 65535);
    assert_eq!(other.monitor, config.monitor);
    assert_eq!(other.network.target, config.network.target);
    assert_eq!(other.capture, area(0, 0, 0, 0));
}

#[test]
fn the_receiver_stores_its_default_once() {
    let found = receiver::Config { network: receiver::NetworkConfig { port: 9 } };
    let loaded = receiver::load_config(receiver::Stored::Present(Some(found)));
    assert_eq!((loaded.config, loaded.store), (found, false));
    let loaded = receiver::load_config(receiver::Stored::Present(None));
    assert_eq!((loaded.config, loaded.store), (receiver::Config::default(), false));
    let loaded = receiver::load_config(receiver::Stored::Missing);
    assert_eq!((loaded.config, loaded.store), (receiver::Config::default(), true));
    assert_eq!(loaded.config.network.port, 13587);
    assert_eq!(loaded.config.network.listen_address(), "0.0.0.0:13587");
}
