use display_tui::configuration::{Configuration, MonitorState};
use display_tui::error::LayoutError;
use display_tui::monitor::{Monitor, Position, Resolution};
use display_tui::scale::Scale;
use display_tui::session::{scale_option, App, MonitorList, Resolutions, ScaleOptions, SCALE_OPTIONS};
use display_tui::utils::{next_index, previous_index, Action, Key, KeyPress, TUIMode};

fn test_monitors() -> Vec<Monitor> {
    vec![
        Monitor {
            name: "Monitor 1".to_string(),
            description: Some("The first one".to_string()),
            enabled: true,
            modes: vec![
                Resolution { width: 1920, height: 1080, refresh: 60000, preferred: true, current: false },
                Resolution { width: 1280, height: 720, refresh: 60000, preferred: false, current: false },
            ],
            position: Some(Position { x: 0, y: 0 }),
            scale: Scale::new(1000),
            transform: Some("normal".to_string()),
            ..Default::default()
        },
        Monitor {
            name: "Monitor 2".to_string(),
            description: None,
            enabled: false,
            modes: vec![Resolution {
                width: 2560,
                height: 1440,
                refresh: 144000,
                preferred: true,
                current: false,
            }],
            position: Some(Position { x: 1920, y: 0 }),
            scale: Scale::new(1000),
            transform: None,
            ..Default::default()
        },
    ]
}

fn app() -> App {
    App { monitors: test_monitors(), selected_monitor: 0, ..Default::default() }
}

fn press(app: &mut App, key: Key) -> Result<Action, LayoutError> {
    app.handle_key_event(KeyPress::plain(key))
}

fn press_shifted(app: &mut App, key: Key) -> Result<Action, LayoutError> {
    app.handle_key_event(KeyPress::shifted(key))
}

#[test]
fn handle_mode_view_key_event() {
    let mut app = app();

    press(&mut app, Key::Char('k')).unwrap();
    assert_eq!(app.selected_monitor, 1);

    press(&mut app, Key::Char('j')).unwrap();
    assert_eq!(app.selected_monitor, 0);

    press(&mut app, Key::Char('j')).unwrap();
    assert_eq!(app.selected_monitor, app.monitors.len() - 1);

    press(&mut app, Key::Char('k')).unwrap();
    assert_eq!(app.selected_monitor, 0);

    press(&mut app, Key::Char('m')).unwrap();
    assert_eq!(app.mode, TUIMode::Move);

    press(&mut app, Key::Esc).unwrap();
    assert_eq!(app.mode, TUIMode::View);

    press(&mut app, Key::Char('r')).unwrap();
    assert_eq!(app.mode, TUIMode::Resolution);

    press(&mut app, Key::Esc).unwrap();
    assert_eq!(app.mode, TUIMode::View);

    press(&mut app, Key::Char('s')).unwrap();
    assert_eq!(app.mode, TUIMode::Scale);

    press(&mut app, Key::Esc).unwrap();
    assert_eq!(app.mode, TUIMode::View);

    press(&mut app, Key::Char('q')).unwrap();
    assert!(app.exit);
}

#[test]
fn handle_mode_move_key_event() {
    let mut app = app();

    press(&mut app, Key::Char('m')).unwrap();
    assert_eq!(app.mode, TUIMode::Move);

    press(&mut app, Key::Char('K')).unwrap();
    let monitor = app.monitors[app.selected_monitor].clone();
    assert_eq!(monitor.position.unwrap().y, -10);

    press(&mut app, Key::Char('J')).unwrap();
    let monitor = app.monitors[app.selected_monitor].clone();
    assert_eq!(monitor.position.unwrap().y, 0);

    press(&mut app, Key::Char('H')).unwrap();
    let monitor = app.monitors[app.selected_monitor].clone();
    assert_eq!(monitor.position.unwrap().x, -10);

    press(&mut app, Key::Char('L')).unwrap();
    let monitor = app.monitors[app.selected_monitor].clone();
    assert_eq!(monitor.position.unwrap().x, 0);

    press(&mut app, Key::Char('q')).unwrap();
    assert!(app.exit);
}

#[test]
fn handle_mode_resolution_key_event() {
    let mut app = app();

    press(&mut app, Key::Char('r')).unwrap();
    assert_eq!(app.mode, TUIMode::Resolution);

    app.selected_resolution = 0;
    press(&mut app, Key::Char('j')).unwrap();
    assert_eq!(app.selected_resolution, 1);

    press(&mut app, Key::Char('k')).unwrap();
    assert_eq!(app.selected_resolution, 0);

    press(&mut app, Key::Char(' ')).unwrap();
    let monitor = app.monitors[0].clone();
    assert_eq!(monitor.modes[0].current, true);

    press(&mut app, Key::Char('q')).unwrap();
    assert!(app.exit);
}

#[test]
fn handle_mode_scale_key_event() {
    let mut app = app();

    press(&mut app, Key::Char('s')).unwrap();
    assert_eq!(app.mode, TUIMode::Scale);

    app.selected_scale = 0;
    press(&mut app, Key::Char('j')).unwrap();
    assert_eq!(app.selected_scale, 1);

    press(&mut app, Key::Char('k')).unwrap();
    assert_eq!(app.selected_scale, 0);

    press(&mut app, Key::Char(' ')).unwrap();
    let monitor = app.monitors[0].clone();
    assert_eq!(monitor.scale, Scale::new(500));

    press(&mut app, Key::Char('q')).unwrap();
    assert!(app.exit);
}

#[test]
fn handle_mode_view_arrow_key_event() {
    let mut app = app();

    press(&mut app, Key::Up).unwrap();
    assert_eq!(app.selected_monitor, 1);

    press(&mut app, Key::Down).unwrap();
    assert_eq!(app.selected_monitor, 0);

    press(&mut app, Key::Down).unwrap();
    assert_eq!(app.selected_monitor, app.monitors.len() - 1);

    press(&mut app, Key::Up).unwrap();
    assert_eq!(app.selected_monitor, 0);
}

#[test]
fn handle_mode_move_arrow_key_event() {
    let mut app = app();

    press(&mut app, Key::Char('m')).unwrap();
    assert_eq!(app.mode, TUIMode::Move);

    press_shifted(&mut app, Key::Up).unwrap();
    let monitor = app.monitors[app.selected_monitor].clone();
    assert_eq!(monitor.position.unwrap().y, -10);

    press_shifted(&mut app, Key::Down).unwrap();
    let monitor = app.monitors[app.selected_monitor].clone();
    assert_eq!(monitor.position.unwrap().y, 0);

    press_shifted(&mut app, Key::Left).unwrap();
    let monitor = app.monitors[app.selected_monitor].clone();
    assert_eq!(monitor.position.unwrap().x, -10);

    press_shifted(&mut app, Key::Right).unwrap();
    let monitor = app.monitors[app.selected_monitor].clone();
    assert_eq!(monitor.position.unwrap().x, 0);

    // Snap: from 100 the nearest line upwards on the screen is the origin.
    app.monitors[app.selected_monitor].position.as_mut().unwrap().y = 100;

    press(&mut app, Key::Up).unwrap();
    let monitor = app.monitors[app.selected_monitor].clone();
    assert_eq!(monitor.position.unwrap().y, 0);
}

#[test]
fn handle_mode_resolution_arrow_key_event() {
    let mut app = app();

    press(&mut app, Key::Char('r')).unwrap();
    assert_eq!(app.mode, TUIMode::Resolution);

    app.selected_resolution = 0;
    press(&mut app, Key::Down).unwrap();
    assert_eq!(app.selected_resolution, 1);

    press(&mut app, Key::Up).unwrap();
    assert_eq!(app.selected_resolution, 0);
}

#[test]
fn handle_mode_scale_arrow_key_event() {
    let mut app = app();

    press(&mut app, Key::Char('s')).unwrap();
    assert_eq!(app.mode, TUIMode::Scale);

    app.selected_scale = 0;
    press(&mut app, Key::Down).unwrap();
    assert_eq!(app.selected_scale, 1);

    press(&mut app, Key::Up).unwrap();
    assert_eq!(app.selected_scale, 0);
}

#[test]
fn quitting_and_writing_say_what_to_write_out() {
    for mode in [TUIMode::View, TUIMode::Move, TUIMode::Resolution, TUIMode::Scale] {
        let mut app = app();
        app.mode = mode;
        assert_eq!(press(&mut app, Key::Char('w')), Ok(Action::WriteConfig));
        assert!(!app.exit);
        assert_eq!(app.mode, mode);
        assert_eq!(press(&mut app, Key::Char('q')), Ok(Action::SaveState));
        assert!(app.exit);
        assert_eq!(app.mode, mode);
    }
}

#[test]
fn leaving_the_map_saves_the_arrangement() {
    let mut app = app();
    assert_eq!(press(&mut app, Key::Char('m')), Ok(Action::Nothing));
    assert_eq!(press(&mut app, Key::Esc), Ok(Action::SaveState));
    assert_eq!(app.mode, TUIMode::View);
    assert_eq!(press(&mut app, Key::Char('r')), Ok(Action::Nothing));
    assert_eq!(press(&mut app, Key::Esc), Ok(Action::Nothing));
    assert_eq!(press(&mut app, Key::Char('s')), Ok(Action::Nothing));
    assert_eq!(press(&mut app, Key::Esc), Ok(Action::Nothing));
    assert_eq!(press(&mut app, Key::Esc), Ok(Action::Nothing));
    assert_eq!(app.mode, TUIMode::View);
}

#[test]
fn unknown_keys_change_nothing() {
    for mode in [TUIMode::View, TUIMode::Move, TUIMode::Resolution, TUIMode::Scale] {
        let mut app = app();
        app.mode = mode;
        for key in [Key::Other, Key::Char('x'), Key::Char('Q')] {
            assert_eq!(press(&mut app, key), Ok(Action::Nothing));
            assert_eq!(app.mode, mode);
            assert_eq!(app.selected_monitor, 0);
            assert_eq!(app.selected_resolution, 0);
            assert_eq!(app.selected_scale, 0);
            assert_eq!(app.monitors[0].position, Some(Position { x: 0, y: 0 }));
            assert!(!app.exit);
        }
    }
}

#[test]
fn map_keys_snap_and_shifted_keys_move_freely() {
    let mut app = app();
    app.monitors[1].enabled = true;
    app.selected_monitor = 1;
    app.mode = TUIMode::Move;
    // Monitor 2 starts at 1920, where Monitor 1 ends; to the left its lower
    // edge next meets the centre of Monitor 1.
    assert_eq!(press(&mut app, Key::Char('h')), Ok(Action::Nothing));
    assert_eq!(app.monitors[1].position, Some(Position { x: 960, y: 0 }));
    assert_eq!(press(&mut app, Key::Char('l')), Ok(Action::Nothing));
    assert_eq!(app.monitors[1].position, Some(Position { x: 1920, y: 0 }));
    assert_eq!(press(&mut app, Key::Left), Ok(Action::Nothing));
    assert_eq!(app.monitors[1].position, Some(Position { x: 960, y: 0 }));
    assert_eq!(press(&mut app, Key::Right), Ok(Action::Nothing));
    assert_eq!(app.monitors[1].position, Some(Position { x: 1920, y: 0 }));
    assert_eq!(press(&mut app, Key::Char('j')), Ok(Action::Nothing));
    assert_eq!(app.monitors[1].position, Some(Position { x: 1920, y: 360 }));
    assert_eq!(press(&mut app, Key::Char('k')), Ok(Action::Nothing));
    assert_eq!(app.monitors[1].position, Some(Position { x: 1920, y: 0 }));
    assert_eq!(press(&mut app, Key::Down), Ok(Action::Nothing));
    assert_eq!(app.monitors[1].position, Some(Position { x: 1920, y: 360 }));
    assert_eq!(press(&mut app, Key::Up), Ok(Action::Nothing));
    assert_eq!(app.monitors[1].position, Some(Position { x: 1920, y: 0 }));
    assert_eq!(press(&mut app, Key::Char('L')), Ok(Action::Nothing));
    assert_eq!(app.monitors[1].position, Some(Position { x: 1930, y: 0 }));
    assert_eq!(app.monitors[0].position, Some(Position { x: 0, y: 0 }));
}

#[test]
fn a_key_that_finds_nothing_to_snap_to_changes_nothing() {
    let mut app = app();
    app.mode = TUIMode::Move;
    // Nothing lies to the right of Monitor 1 while Monitor 2 is off: its
    // lines are 0, 1920 and 960, and the origin is the only target.
    assert_eq!(press(&mut app, Key::Char('l')), Ok(Action::Nothing));
    assert_eq!(app.monitors[0].position, Some(Position { x: 0, y: 0 }));
}

#[test]
fn refused_moves_leave_the_session_as_it_was() {
    let mut app = app();
    app.mode = TUIMode::Move;
    app.monitors[0].position = Some(Position { x: i32::MAX - 5, y: i32::MIN + 5 });
    assert_eq!(press(&mut app, Key::Char('L')), Err(LayoutError::PositionOverflow));
    assert_eq!(press(&mut app, Key::Char('K')), Err(LayoutError::PositionOverflow));
    assert_eq!(app.monitors[0].position, Some(Position { x: i32::MAX - 5, y: i32::MIN + 5 }));
    assert_eq!(press(&mut app, Key::Char('H')), Ok(Action::Nothing));
    assert_eq!(app.monitors[0].position, Some(Position { x: i32::MAX - 15, y: i32::MIN + 5 }));

    app.monitors[0].position = None;
    assert_eq!(press(&mut app, Key::Char('L')), Err(LayoutError::NoPosition));
    assert_eq!(press(&mut app, Key::Char('l')), Err(LayoutError::NoPosition));
    assert_eq!(app.monitors[0].position, None);

    app.monitors[0].modes.clear();
    assert_eq!(press(&mut app, Key::Char('l')), Err(LayoutError::NoResolvableMode));
    app.monitors[0].position = Some(Position { x: 0, y: 0 });
    assert_eq!(press(&mut app, Key::Char('L')), Ok(Action::Nothing));
    assert_eq!(app.monitors[0].position, Some(Position { x: 10, y: 0 }));

    app.selected_monitor = 2;
    assert_eq!(press(&mut app, Key::Char('L')), Err(LayoutError::IndexOutOfRange));
    assert_eq!(press(&mut app, Key::Char('l')), Err(LayoutError::IndexOutOfRange));
    app.monitors.clear();
    app.selected_monitor = 0;
    assert_eq!(press(&mut app, Key::Char('J')), Err(LayoutError::IndexOutOfRange));
}

#[test]
fn a_snap_that_would_leave_the_range_is_refused() {
    let mut app = app();
    app.mode = TUIMode::Move;
    app.monitors[0].position = Some(Position { x: i32::MIN, y: 0 });
    app.monitors[0].modes[0].width = 0;
    // The origin is 2^31 away, and the move is held to 2^31 - 1.
    assert_eq!(press(&mut app, Key::Char('l')), Ok(Action::Nothing));
    assert_eq!(app.monitors[0].position, Some(Position { x: -1, y: 0 }));
    app.monitors[1].enabled = true;
    app.monitors[1].position = Some(Position { x: i32::MAX, y: 0 });
    app.monitors[0].position = Some(Position { x: i32::MAX, y: 0 });
    // Monitor 2 ends 2560 beyond the end of the range, and its centre lies
    // 1280 beyond it: 1270 from the upper edge of Monitor 1.
    app.monitors[0].modes[0].width = 10;
    assert_eq!(press(&mut app, Key::Char('l')), Err(LayoutError::PositionOverflow));
    assert_eq!(app.monitors[0].position, Some(Position { x: i32::MAX, y: 0 }));
}

#[test]
fn selections_go_round() {
    assert_eq!(next_index(0, 3), 1);
    assert_eq!(next_index(1, 3), 2);
    assert_eq!(next_index(2, 3), 0);
    assert_eq!(next_index(7, 3), 0);
    assert_eq!(next_index(0, 0), 0);
    assert_eq!(next_index(5, 0), 0);
    assert_eq!(next_index(usize::MAX, usize::MAX), 0);
    assert_eq!(previous_index(0, 3), 2);
    assert_eq!(previous_index(2, 3), 1);
    assert_eq!(previous_index(1, 3), 0);
    assert_eq!(previous_index(7, 3), 2);
    assert_eq!(previous_index(3, 3), 2);
    assert_eq!(previous_index(0, 0), 0);
    assert_eq!(previous_index(5, 0), 0);
    assert_eq!(next_index(0, 1), 0);
    assert_eq!(previous_index(0, 1), 0);
}

#[test]
fn the_monitor_list_goes_round_and_hands_the_keys_on() {
    let mut app = app();
    app.monitors.push(Monitor { name: "Monitor 3".to_string(), ..Default::default() });
    MonitorList::handle_events(&mut app, KeyPress::plain(Key::Char('k')));
    MonitorList::handle_events(&mut app, KeyPress::plain(Key::Up));
    assert_eq!(app.selected_monitor, 2);
    MonitorList::handle_events(&mut app, KeyPress::plain(Key::Char('k')));
    assert_eq!(app.selected_monitor, 0);
    MonitorList::handle_events(&mut app, KeyPress::plain(Key::Down));
    assert_eq!(app.selected_monitor, 2);
    MonitorList::handle_events(&mut app, KeyPress::plain(Key::Char('j')));
    assert_eq!(app.selected_monitor, 1);
    MonitorList::handle_events(&mut app, KeyPress::plain(Key::Esc));
    assert_eq!(app.mode, TUIMode::View);
    let mut empty = App::default();
    MonitorList::handle_events(&mut empty, KeyPress::plain(Key::Char('k')));
    MonitorList::handle_events(&mut empty, KeyPress::plain(Key::Char('j')));
    assert_eq!(empty.selected_monitor, 0);
}

#[test]
fn the_list_of_modes_goes_round_and_selects() {
    let mut app = app();
    app.mode = TUIMode::Resolution;
    let key = |k: Key| KeyPress::plain(k);
    assert_eq!(Resolutions::handle_events(&mut app, key(Key::Char('k'))), Ok(()));
    assert_eq!(app.selected_resolution, 1);
    assert_eq!(Resolutions::handle_events(&mut app, key(Key::Char(' '))), Ok(()));
    assert_eq!(app.monitors[0].modes[0].current, false);
    assert_eq!(app.monitors[0].modes[1].current, true);
    assert_eq!(Resolutions::handle_events(&mut app, key(Key::Down)), Ok(()));
    assert_eq!(app.selected_resolution, 0);
    assert_eq!(Resolutions::handle_events(&mut app, key(Key::Char(' '))), Ok(()));
    assert_eq!(app.monitors[0].modes[0].current, true);
    assert_eq!(app.monitors[0].modes[1].current, false);
    assert_eq!(app.monitors[1].modes[0].current, false);

    app.selected_resolution = 2;
    assert_eq!(
        Resolutions::handle_events(&mut app, key(Key::Char(' '))),
        Err(LayoutError::IndexOutOfRange)
    );
    assert_eq!(app.monitors[0].modes[0].current, true);
    app.selected_resolution = 0;
    app.selected_monitor = 5;
    assert_eq!(
        Resolutions::handle_events(&mut app, key(Key::Char(' '))),
        Err(LayoutError::IndexOutOfRange)
    );
    assert_eq!(Resolutions::handle_events(&mut app, key(Key::Char('j'))), Ok(()));
    assert_eq!(app.selected_resolution, 0);
    assert_eq!(Resolutions::handle_events(&mut app, key(Key::Esc)), Ok(()));
    assert_eq!(app.mode, TUIMode::View);
}

#[test]
fn the_choice_of_scales_goes_round_and_selects() {
    let mut app = app();
    app.mode = TUIMode::Scale;
    let key = |k: Key| KeyPress::plain(k);
    assert_eq!(ScaleOptions::handle_events(&mut app, key(Key::Up)), Ok(()));
    assert_eq!(app.selected_scale, SCALE_OPTIONS - 1);
    assert_eq!(ScaleOptions::handle_events(&mut app, key(Key::Char(' '))), Ok(()));
    assert_eq!(app.monitors[0].scale, Scale::new(3000));
    assert_eq!(app.monitors[1].scale, Scale::new(1000));
    assert_eq!(ScaleOptions::handle_events(&mut app, key(Key::Char('j'))), Ok(()));
    assert_eq!(app.selected_scale, 0);

    app.selected_scale = SCALE_OPTIONS;
    assert_eq!(
        ScaleOptions::handle_events(&mut app, key(Key::Char(' '))),
        Err(LayoutError::IndexOutOfRange)
    );
    assert_eq!(app.monitors[0].scale, Scale::new(3000));
    app.selected_scale = 2;
    app.selected_monitor = 2;
    assert_eq!(
        ScaleOptions::handle_events(&mut app, key(Key::Char(' '))),
        Err(LayoutError::IndexOutOfRange)
    );
    assert_eq!(ScaleOptions::handle_events(&mut app, key(Key::Esc)), Ok(()));
    assert_eq!(app.mode, TUIMode::View);
}

#[test]
fn scale_options_are_the_listed_factors() {
    let listed: Vec<Option<u16>> =
        (0..SCALE_OPTIONS + 2).map(|i| scale_option(i).map(|s| s.thousandths())).collect();
    assert_eq!(
        listed,
        vec![
            Some(500),
            Some(750),
            Some(1000),
            Some(1250),
            Some(1500),
            Some(1750),
            Some(2000),
            Some(2500),
            Some(3000),
            None,
            None
        ]
    );
}

#[test]
fn a_session_starts_with_the_kept_arrangement() {
    let saved = vec![
        MonitorState {
            name: "Monitor 2".to_string(),
            position: Some(Position { x: -2560, y: 10 }),
            scale: None,
        },
        MonitorState { name: "Monitor 1".to_string(), position: None, scale: Scale::new(2000) },
        MonitorState {
            name: "Monitor 1".to_string(),
            position: Some(Position { x: 1, y: 1 }),
            scale: Scale::new(500),
        },
        MonitorState { name: "Gone".to_string(), position: None, scale: None },
    ];
    let mut app = App {
        exit: false,
        selected_monitor: 1,
        selected_resolution: 1,
        selected_scale: 4,
        mode: TUIMode::Scale,
        ..Default::default()
    };
    let config = Configuration { monitors_config_path: "~/monitors.conf".to_string() };
    app.start(test_monitors(), Some(saved), config);
    assert_eq!(app.monitors.len(), 2);
    assert_eq!(app.monitors[0].position, Some(Position { x: 0, y: 0 }));
    assert_eq!(app.monitors[0].scale, Scale::new(2000));
    assert_eq!(app.monitors[1].position, Some(Position { x: -2560, y: 10 }));
    assert_eq!(app.monitors[1].scale, Scale::new(1000));
    assert_eq!(app.monitors[0].name, "Monitor 1");
    assert_eq!(app.monitors[0].modes, test_monitors()[0].modes);
    assert_eq!(app.selected_monitor, 0);
    assert_eq!(app.selected_resolution, 0);
    assert_eq!(app.selected_scale, 4);
    assert_eq!(app.mode, TUIMode::Scale);
    assert_eq!(app.config.monitors_config_path, "~/monitors.conf");

    let mut fresh = App::default();
    fresh.start(test_monitors(), None, Configuration::default());
    assert_eq!(fresh.monitors[1].position, Some(Position { x: 1920, y: 0 }));
    assert_eq!(fresh.mode, TUIMode::View);
}
