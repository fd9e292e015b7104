use display_tui::error::LayoutError;
use display_tui::monitor::{Monitor, Position, Resolution};
use display_tui::scale::Scale;
use display_tui::text::{push_int, push_nat, push_thousandths};

fn monitor(name: &str) -> Monitor {
    Monitor {
        name: name.to_string(),
        enabled: true,
        modes: vec![
            Resolution { width: 1920, height: 1080, refresh: 60000, preferred: true, current: false },
            Resolution { width: 2560, height: 1440, refresh: 59951, preferred: false, current: true },
        ],
        position: Some(Position { x: 1920, y: 0 }),
        scale: Scale::new(1500),
        transform: Some("90".to_string()),
        ..Default::default()
    }
}

fn natural(n: u64) -> String {
    let mut s = String::new();
    push_nat(&mut s, n);
    s
}

fn integer(i: i64) -> String {
    let mut s = String::new();
    push_int(&mut s, i);
    s
}

fn thousandths(v: u32) -> String {
    let mut s = String::new();
    push_thousandths(&mut s, v);
    s
}

#[test]
fn naturals_are_written_in_decimal() {
    assert_eq!(natural(0), "0");
    assert_eq!(natural(7), "7");
    assert_eq!(natural(10), "10");
    assert_eq!(natural(1234567890), "1234567890");
    assert_eq!(natural(u64::MAX), "18446744073709551615");
}

#[test]
fn integers_carry_their_sign() {
    assert_eq!(integer(0), "0");
    assert_eq!(integer(-1), "-1");
    assert_eq!(integer(1920), "1920");
    assert_eq!(integer(-2147483648), "-2147483648");
    assert_eq!(integer(i64::MIN), "-9223372036854775808");
    assert_eq!(integer(i64::MAX), "9223372036854775807");
}

#[test]
fn text_is_appended_to_what_is_there() {
    let mut s = String::from("x=");
    push_int(&mut s, -5);
    s.push(',');
    push_thousandths(&mut s, 2500);
    assert_eq!(s, "x=-5,2.5");
}

#[test]
fn thousandths_drop_trailing_zeros() {
    assert_eq!(thousandths(0), "0");
    assert_eq!(thousandths(1000), "1");
    assert_eq!(thousandths(60000), "60");
    assert_eq!(thousandths(1500), "1.5");
    assert_eq!(thousandths(1250), "1.25");
    assert_eq!(thousandths(59951), "59.951");
    assert_eq!(thousandths(500), "0.5");
    assert_eq!(thousandths(50), "0.05");
    assert_eq!(thousandths(5), "0.005");
    assert_eq!(thousandths(1001), "1.001");
    assert_eq!(thousandths(1010), "1.01");
    assert_eq!(thousandths(1100), "1.1");
    assert_eq!(thousandths(65535), "65.535");
    assert_eq!(thousandths(u32::MAX), "4294967.295");
}

#[test]
fn enabled_monitor_is_written_with_its_current_mode() {
    assert_eq!(
        monitor("HDMI-A-1").to_hyprland_config(),
        Ok("monitor = HDMI-A-1, 2560x1440@59.951, 1920,0, 1.5, transform,1".to_string())
    );
}

#[test]
fn enabled_monitor_falls_back_to_its_preferred_mode() {
    let mut m = monitor("DP-1");
    m.modes[1].current = false;
    m.position = Some(Position { x: -1920, y: -300 });
    m.scale = None;
    m.transform = None;
    assert_eq!(
        m.to_hyprland_config(),
        Ok("monitor = DP-1, 1920x1080@60, -1920,-300, 1, transform,0".to_string())
    );
}

#[test]
fn every_transform_has_its_token() {
    let tokens = [
        ("normal", "0"),
        ("90", "1"),
        ("180", "2"),
        ("270", "3"),
        ("flipped", "4"),
        ("flipped-90", "5"),
        ("flipped-180", "6"),
        ("flipped-270", "7"),
    ];
    for (transform, token) in tokens {
        let mut m = monitor("DP-1");
        m.transform = Some(transform.to_string());
        let line = m.to_hyprland_config().unwrap();
        assert_eq!(line, format!("monitor = DP-1, 2560x1440@59.951, 1920,0, 1.5, transform,{}", token));
    }
}

#[test]
fn disabled_monitor_is_written_as_disabled() {
    let mut m = monitor("eDP-1");
    m.enabled = false;
    assert_eq!(m.to_hyprland_config(), Ok("monitor = eDP-1, disabled".to_string()));
    m.modes.clear();
    m.position = None;
    assert_eq!(m.to_hyprland_config(), Ok("monitor = eDP-1, disabled".to_string()));
}

#[test]
fn enabled_monitor_without_mode_or_position_has_no_line() {
    let mut no_mode = monitor("DP-1");
    no_mode.modes.clear();
    assert_eq!(no_mode.to_hyprland_config(), Err(LayoutError::NoResolvableMode));
    let mut unflagged = monitor("DP-1");
    unflagged.modes[0].preferred = false;
    unflagged.modes[1].current = false;
    assert_eq!(unflagged.to_hyprland_config(), Err(LayoutError::NoResolvableMode));
    let mut no_position = monitor("DP-1");
    no_position.position = None;
    assert_eq!(no_position.to_hyprland_config(), Err(LayoutError::NoPosition));
    no_position.modes.clear();
    assert_eq!(no_position.to_hyprland_config(), Err(LayoutError::NoResolvableMode));
}

#[test]
fn configuration_has_one_line_for_each_monitor_in_order() {
    let mut off = monitor("eDP-1");
    off.enabled = false;
    let mut second = monitor("DP-2");
    second.position = Some(Position { x: 0, y: 1440 });
    second.scale = Scale::new(1000);
    second.transform = None;
    let text = Monitor::hyprland_config(&vec![monitor("HDMI-A-1"), off, second]);
    assert_eq!(
        text,
        Ok("monitor = HDMI-A-1, 2560x1440@59.951, 1920,0, 1.5, transform,1\n\
            monitor = eDP-1, disabled\n\
            monitor = DP-2, 2560x1440@59.951, 0,1440, 1, transform,0\n"
            .to_string())
    );
    assert_eq!(Monitor::hyprland_config(&vec![]), Ok(String::new()));
}

#[test]
fn configuration_stops_at_the_first_monitor_without_a_line() {
    let mut no_position = monitor("DP-2");
    no_position.position = None;
    let mut no_mode = monitor("DP-3");
    no_mode.modes.clear();
    assert_eq!(
        Monitor::hyprland_config(&vec![monitor("DP-1"), no_position.clone(), no_mode.clone()]),
        Err(LayoutError::NoPosition)
    );
    assert_eq!(
        Monitor::hyprland_config(&vec![no_mode, no_position, monitor("DP-1")]),
        Err(LayoutError::NoResolvableMode)
    );
}
