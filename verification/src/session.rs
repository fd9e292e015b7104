//! The state of one session and what each key does to it.

use vstd::prelude::*;
use crate::configuration::{overlaid, state_named, Configuration, MonitorState};
use crate::error::LayoutError;
use crate::map::{discard, map_handled, MonitorMap};
use crate::monitor::{with_current, Monitor};
use crate::scale::Scale;
use crate::utils::{next_index, previous_index, Action, Key, KeyPress, TUIMode};

verus! {

/// Everything that a session holds.
#[derive(Clone, Debug, Default)]
pub struct App {
    pub exit: bool,
    pub config: Configuration,
    pub monitors: Vec<Monitor>,
    pub selected_monitor: usize,
    pub selected_resolution: usize,
    pub selected_scale: usize,
    pub mode: TUIMode,
}

/// The scale factors that can be chosen, in thousandths.
pub open spec fn scale_options() -> Seq<int> {
    seq![500, 750, 1000, 1250, 1500, 1750, 2000, 2500, 3000]
}

/// The number of scale factors that can be chosen.
pub const SCALE_OPTIONS: usize = 9;

/// The scale factor at `index` of the choice.
pub fn scale_option(index: usize) -> (r: Option<Scale>)
    ensures
        index >= scale_options().len() <==> r is None,
        r matches Some(s) ==> s.value() == scale_options()[index as int],
{
    let thousandths: u16 = if index == 0 {
        500
    } else if index == 1 {
        750
    } else if index == 2 {
        1000
    } else if index == 3 {
        1250
    } else if index == 4 {
        1500
    } else if index == 5 {
        1750
    } else if index == 6 {
        2000
    } else if index == 7 {
        2500
    } else if index == 8 {
        3000
    } else {
        return None;
    };
    Scale::new(thousandths)
}

/// The number of modes of the selected monitor; zero where none is selected.
pub open spec fn modes_on_offer(app: App) -> usize {
    if app.selected_monitor < app.monitors@.len() {
        app.monitors@[app.selected_monitor as int].modes@.len() as usize
    } else {
        0
    }
}

/// What a key does while the list of monitors has the keys.
pub open spec fn viewed(app: App, key: Key) -> App {
    match key {
        Key::Char('k') | Key::Up => App {
            selected_monitor: next_index(app.selected_monitor, app.monitors@.len() as usize),
            ..app
        },
        Key::Char('j') | Key::Down => App {
            selected_monitor: previous_index(app.selected_monitor, app.monitors@.len() as usize),
            ..app
        },
        Key::Char('m') => App { mode: TUIMode::Move, ..app },
        Key::Char('r') => App { mode: TUIMode::Resolution, ..app },
        Key::Char('s') => App { mode: TUIMode::Scale, ..app },
        _ => app,
    }
}

/// The monitor list while it has the keys.
pub struct MonitorList {}

/// The list of modes while it has the keys.
pub struct Resolutions {}

/// The choice of scale factors while it has the keys.
pub struct ScaleOptions {}

impl MonitorList {
    /// `k` and up select the next monitor, `j` and down the one before, each
    /// going round at the end; `m`, `r` and `s` hand the keys to the map, to
    /// the list of modes and to the choice of scales.
    pub fn handle_events(app: &mut App, key_event: KeyPress)
        ensures
            *final(app) == viewed(*old(app), key_event.key),
    {
        let n: usize = app.monitors.len();
        match key_event.key {
            Key::Char('k') | Key::Up => {
                app.selected_monitor = next_index(app.selected_monitor, n);
            },
            Key::Char('j') | Key::Down => {
                app.selected_monitor = previous_index(app.selected_monitor, n);
            },
            Key::Char('m') => {
                app.mode = TUIMode::Move;
            },
            Key::Char('r') => {
                app.mode = TUIMode::Resolution;
            },
            Key::Char('s') => {
                app.mode = TUIMode::Scale;
            },
            _ => {},
        }
    }
}

/// Between `before` and `after` nothing has changed but monitor `i`.
pub open spec fn only_monitor_changed(before: App, after: App, i: int) -> bool {
    &&& after == (App { monitors: after.monitors, ..before })
    &&& after.monitors@.len() == before.monitors@.len()
    &&& forall|k: int|
        0 <= k < before.monitors@.len() && k != i ==> #[trigger] after.monitors@[k]
            == before.monitors@[k]
}

/// What handling a key on the list of modes owes.
pub open spec fn resolution_handled(
    before: App,
    key: Key,
    after: App,
    r: Result<(), LayoutError>,
) -> bool {
    match key {
        Key::Char('j') | Key::Down => r is Ok && after == (App {
            selected_resolution: next_index(before.selected_resolution, modes_on_offer(before)),
            ..before
        }),
        Key::Char('k') | Key::Up => r is Ok && after == (App {
            selected_resolution: previous_index(
                before.selected_resolution,
                modes_on_offer(before),
            ),
            ..before
        }),
        Key::Char(' ') => if before.selected_resolution < modes_on_offer(before) {
            let i = before.selected_monitor as int;
            &&& r is Ok
            &&& only_monitor_changed(before, after, i)
            &&& after.monitors@[i].modes@ == with_current(
                before.monitors@[i].modes@,
                before.selected_resolution as int,
            )
            &&& after.monitors@[i] == (Monitor {
                modes: after.monitors@[i].modes,
                ..before.monitors@[i]
            })
        } else {
            r == Err::<(), LayoutError>(LayoutError::IndexOutOfRange) && after == before
        },
        Key::Esc => r is Ok && after == (App { mode: TUIMode::View, ..before }),
        _ => r is Ok && after == before,
    }
}

/// What handling a key on the choice of scale factors owes.
pub open spec fn scale_handled(
    before: App,
    key: Key,
    after: App,
    r: Result<(), LayoutError>,
) -> bool {
    match key {
        Key::Char('j') | Key::Down => r is Ok && after == (App {
            selected_scale: next_index(before.selected_scale, SCALE_OPTIONS),
            ..before
        }),
        Key::Char('k') | Key::Up => r is Ok && after == (App {
            selected_scale: previous_index(before.selected_scale, SCALE_OPTIONS),
            ..before
        }),
        Key::Char(' ') => if before.selected_scale < scale_options().len()
            && before.selected_monitor < before.monitors@.len() {
            let i = before.selected_monitor as int;
            &&& r is Ok
            &&& only_monitor_changed(before, after, i)
            &&& after.monitors@[i].scale is Some
            &&& after.monitors@[i].scale.unwrap().value() == scale_options()[before.selected_scale as int]
            &&& after.monitors@[i] == (Monitor {
                scale: after.monitors@[i].scale,
                ..before.monitors@[i]
            })
        } else {
            r == Err::<(), LayoutError>(LayoutError::IndexOutOfRange) && after == before
        },
        Key::Esc => r is Ok && after == (App { mode: TUIMode::View, ..before }),
        _ => r is Ok && after == before,
    }
}

impl Resolutions {
    /// `j` and down go to the next mode, `k` and up to the one before, each
    /// going round at the end; space makes the mode under the cursor the
    /// current one of the selected monitor; escape hands the keys back.
    pub fn handle_events(app: &mut App, key_event: KeyPress) -> (r: Result<(), LayoutError>)
        ensures
            resolution_handled(*old(app), key_event.key, *final(app), r),
    {
        let offered: usize = if app.selected_monitor < app.monitors.len() {
            app.monitors[app.selected_monitor].modes.len()
        } else {
            0
        };
        match key_event.key {
            Key::Char('j') | Key::Down => {
                app.selected_resolution = next_index(app.selected_resolution, offered);
                Ok(())
            },
            Key::Char('k') | Key::Up => {
                app.selected_resolution = previous_index(app.selected_resolution, offered);
                Ok(())
            },
            Key::Char(' ') => {
                if app.selected_resolution < offered {
                    let index: usize = app.selected_resolution;
                    let at: usize = app.selected_monitor;
                    app.monitors[at].set_current_resolution(index)
                } else {
                    Err(LayoutError::IndexOutOfRange)
                }
            },
            Key::Esc => {
                app.mode = TUIMode::View;
                Ok(())
            },
            _ => Ok(()),
        }
    }
}

impl ScaleOptions {
    /// `j` and down go to the next scale factor, `k` and up to the one
    /// before, each going round at the end; space gives the factor under the
    /// cursor to the selected monitor; escape hands the keys back.
    pub fn handle_events(app: &mut App, key_event: KeyPress) -> (r: Result<(), LayoutError>)
        ensures
            scale_handled(*old(app), key_event.key, *final(app), r),
    {
        match key_event.key {
            Key::Char('j') | Key::Down => {
                app.selected_scale = next_index(app.selected_scale, SCALE_OPTIONS);
                Ok(())
            },
            Key::Char('k') | Key::Up => {
                app.selected_scale = previous_index(app.selected_scale, SCALE_OPTIONS);
                Ok(())
            },
            Key::Char(' ') => {
                if app.selected_monitor >= app.monitors.len() {
                    return Err(LayoutError::IndexOutOfRange);
                }
                match scale_option(app.selected_scale) {
                    None => Err(LayoutError::IndexOutOfRange),
                    Some(s) => {
                        let at: usize = app.selected_monitor;
                        app.monitors[at].set_scale(s);
                        Ok(())
                    },
                }
            },
            Key::Esc => {
                app.mode = TUIMode::View;
                Ok(())
            },
            _ => Ok(()),
        }
    }
}

/// What handling a key owes: `q` ends the session and `w` writes the
/// configuration out, whatever has the keys; any other key goes to the
/// holder of the keys.
pub open spec fn key_handled(
    before: App,
    key_event: KeyPress,
    after: App,
    r: Result<Action, LayoutError>,
) -> bool {
    match key_event.key {
        Key::Char('q') => after == (App { exit: true, ..before }) && r == Ok::<
            Action,
            LayoutError,
        >(Action::SaveState),
        Key::Char('w') => after == before && r == Ok::<Action, LayoutError>(Action::WriteConfig),
        _ => match before.mode {
            TUIMode::View => after == viewed(before, key_event.key) && r == Ok::<
                Action,
                LayoutError,
            >(Action::Nothing),
            TUIMode::Move => map_handled(before, key_event, after, r),
            TUIMode::Resolution => resolution_handled(before, key_event.key, after, discard(r))
                && (r matches Ok(a) ==> a == Action::Nothing),
            TUIMode::Scale => scale_handled(before, key_event.key, after, discard(r)) && (
            r matches Ok(a) ==> a == Action::Nothing),
        },
    }
}

/// The record that is laid over a monitor called `name` at the start, if any.
pub open spec fn kept_for(saved: Option<Vec<MonitorState>>, name: Seq<char>) -> Option<
    MonitorState,
> {
    match saved {
        Some(states) => state_named(states@, name),
        None => None,
    }
}

impl App {
    /// Starts a session on the monitors that were found: lays the kept
    /// records over them, selects the first monitor and the first mode, and
    /// takes the settings.
    pub fn start(
        &mut self,
        monitors: Vec<Monitor>,
        saved: Option<Vec<MonitorState>>,
        config: Configuration,
    )
        ensures
            final(self).monitors@.len() == monitors@.len(),
            forall|i: int|
                0 <= i < monitors@.len() ==> #[trigger] final(self).monitors@[i] == overlaid(
                    monitors@[i],
                    kept_for(saved, monitors@[i].name@),
                ),
            *final(self) == (App {
                monitors: final(self).monitors,
                config,
                selected_monitor: 0,
                selected_resolution: 0,
                ..*old(self)
            }),
    {
        self.monitors = monitors;
        match &saved {
            Some(states) => {
                Configuration::restore_monitor_state(&mut self.monitors, states);
            },
            None => {},
        }
        self.selected_resolution = 0;
        self.selected_monitor = 0;
        self.config = config;
    }

    /// Does what the key asks, and says what is to be written out after it.
    /// A step that is refused leaves the session as it was.
    pub fn handle_key_event(&mut self, key_event: KeyPress) -> (r: Result<Action, LayoutError>)
        ensures
            key_handled(*old(self), key_event, *final(self), r),
    {
        match key_event.key {
            Key::Char('q') => {
                self.exit = true;
                Ok(Action::SaveState)
            },
            Key::Char('w') => Ok(Action::WriteConfig),
            _ => match self.mode {
                TUIMode::View => {
                    MonitorList::handle_events(self, key_event);
                    Ok(Action::Nothing)
                },
                TUIMode::Move => MonitorMap::handle_events(self, key_event),
                TUIMode::Resolution => match Resolutions::handle_events(self, key_event) {
                    Ok(()) => Ok(Action::Nothing),
                    Err(e) => Err(e),
                },
                TUIMode::Scale => match ScaleOptions::handle_events(self, key_event) {
                    Ok(()) => Ok(Action::Nothing),
                    Err(e) => Err(e),
                },
            },
        }
    }
}

} // verus!
