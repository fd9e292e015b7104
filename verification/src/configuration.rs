//! What is kept between sessions: where the configuration is written, and
//! the place and scale that the user gave each monitor.

use vstd::prelude::*;
use vstd::string::StringExecFns;
use crate::monitor::{Monitor, Position};
use crate::scale::Scale;

verus! {

/// The settings of the program.
#[derive(Clone, Debug, Default)]
pub struct Configuration {
    /// The file that receives the compositor's configuration lines. A leading
    /// `~` stands for the home directory.
    pub monitors_config_path: String,
}

/// The part of a monitor that the user arranges, under the monitor's name.
#[derive(Clone, Debug)]
pub struct MonitorState {
    pub name: String,
    pub position: Option<Position>,
    pub scale: Option<Scale>,
}

/// The path that is used where no settings exist yet.
pub open spec fn default_path() -> Seq<char> {
    "~/.config/hypr/hyprland/monitors.conf"@
}

/// The settings file that names `path`.
pub open spec fn settings_text(path: Seq<char>) -> Seq<char> {
    "{\n  \"monitors_config_path\": \""@ + path + "\"\n}"@
}

/// Whether `path` starts with a `~` that stands for the home directory: one
/// that ends the path or that a separator follows.
pub open spec fn names_home(path: Seq<char>) -> bool {
    &&& path.len() > 0
    &&& path[0] == '~'
    &&& (path.len() == 1 || path[1] == '/' || path[1] == '\\')
}

/// Whether `text` ends in `tail`.
pub open spec fn ends_in(text: Seq<char>, tail: Seq<char>) -> bool {
    &&& text.len() >= tail.len()
    &&& text.subrange(text.len() - tail.len(), text.len() as int) == tail
}

/// What holds of a path after its `~` has been resolved, whatever the home
/// directory is: a path that names no home directory is unchanged; one that
/// does is unchanged too, or keeps all that follows the `~` at its end.
pub open spec fn resolves(path: Seq<char>, full: Seq<char>) -> bool {
    if names_home(path) {
        full == path || ends_in(full, path.skip(1))
    } else {
        full == path
    }
}

/// Puts the home directory in place of a leading `~`, by `shellexpand::tilde`.
/// That function asks the system for the home directory of the user, so the
/// result is known only as far as it does not depend on the answer: the
/// input comes back unchanged unless it is `~` alone or starts with `~/`
/// (on Windows also with `~\`), and then the `~` alone is replaced, and only
/// where a home directory is known.
#[verifier::external_body]
fn expand_tilde(path: &str) -> (full: String)
    ensures
        resolves(path@, full@),
{
    shellexpand::tilde(path).into_owned()
}

/// `k` is the first record of `states` under `name`.
pub open spec fn is_first_named(states: Seq<MonitorState>, name: Seq<char>, k: int) -> bool {
    &&& 0 <= k < states.len()
    &&& states[k].name@ == name
    &&& forall|j: int| 0 <= j < k ==> (#[trigger] states[j]).name@ != name
}

/// The first record of `states` under `name`, if any.
pub open spec fn state_named(states: Seq<MonitorState>, name: Seq<char>) -> Option<MonitorState> {
    if exists|k: int| is_first_named(states, name, k) {
        Some(states[choose|k: int| is_first_named(states, name, k)])
    } else {
        None
    }
}

/// The monitor with what `state` holds laid over it: a position or a scale
/// that the record lacks leaves the monitor's own.
pub open spec fn overlaid(m: Monitor, state: Option<MonitorState>) -> Monitor {
    match state {
        None => m,
        Some(s) => Monitor {
            position: if s.position is Some {
                s.position
            } else {
                m.position
            },
            scale: if s.scale is Some {
                s.scale
            } else {
                m.scale
            },
            ..m
        },
    }
}

/// `s` records name, position and scale of `m`.
pub open spec fn records(s: MonitorState, m: Monitor) -> bool {
    s.name@ == m.name@ && s.position == m.position && s.scale == m.scale
}

impl Configuration {
    /// The settings that are used where none exist yet, and the text of the
    /// settings file that holds them.
    pub fn create_default_config() -> (r: (Configuration, String))
        ensures
            r.0.monitors_config_path@ == default_path(),
            r.1@ == settings_text(default_path()),
    {
        let path: &str = "~/.config/hypr/hyprland/monitors.conf";
        let mut text: String = String::from_str("{\n  \"monitors_config_path\": \"");
        text.append(path);
        text.append("\"\n}");
        (Configuration { monitors_config_path: String::from_str(path) }, text)
    }

    /// The file that receives the compositor's configuration, with the home
    /// directory in place of a leading `~`.
    pub fn expanded_path(&self) -> (full: String)
        ensures
            resolves(self.monitors_config_path@, full@),
    {
        expand_tilde(self.monitors_config_path.as_str())
    }

    /// The records to keep for `monitors`, one for each, in their order.
    pub fn monitor_states(monitors: &Vec<Monitor>) -> (r: Vec<MonitorState>)
        ensures
            r@.len() == monitors@.len(),
            forall|i: int| 0 <= i < r@.len() ==> records(#[trigger] r@[i], monitors@[i]),
    {
        let mut states: Vec<MonitorState> = Vec::new();
        let n: usize = monitors.len();
        let mut i: usize = 0;
        while i < n
            invariant
                i <= n,
                n == monitors@.len(),
                states@.len() == i,
                forall|k: int| 0 <= k < i ==> records(#[trigger] states@[k], monitors@[k]),
            decreases n - i,
        {
            let m: &Monitor = &monitors[i];
            states.push(MonitorState { name: m.name.clone(), position: m.position, scale: m.scale });
            i += 1;
        }
        states
    }

    /// Lays the kept records over `monitors`: each monitor takes position and
    /// scale from the first record under its name, as far as the record has
    /// them.
    pub fn restore_monitor_state(monitors: &mut Vec<Monitor>, states: &Vec<MonitorState>)
        ensures
            final(monitors)@.len() == old(monitors)@.len(),
            forall|i: int|
                0 <= i < old(monitors)@.len() ==> #[trigger] final(monitors)@[i] == overlaid(
                    old(monitors)@[i],
                    state_named(states@, old(monitors)@[i].name@),
                ),
    {
        let n: usize = monitors.len();
        let mut i: usize = 0;
        while i < n
            invariant
                i <= n,
                n == monitors@.len(),
                n == old(monitors)@.len(),
                forall|k: int|
                    0 <= k < i ==> #[trigger] monitors@[k] == overlaid(
                        old(monitors)@[k],
                        state_named(states@, old(monitors)@[k].name@),
                    ),
                forall|k: int| i <= k < n ==> #[trigger] monitors@[k] == old(monitors)@[k],
            decreases n - i,
        {
            let found: Option<usize> = Configuration::find_state(states, &monitors[i].name);
            match found {
                None => {},
                Some(k) => {
                    match states[k].position {
                        Some(p) => {
                            monitors[i].position = Some(p);
                        },
                        None => {},
                    }
                    match states[k].scale {
                        Some(s) => {
                            monitors[i].scale = Some(s);
                        },
                        None => {},
                    }
                },
            }
            i += 1;
        }
    }

    /// The index of the first record under `name`.
    pub fn find_state(states: &Vec<MonitorState>, name: &String) -> (r: Option<usize>)
        ensures
            r matches Some(k) ==> is_first_named(states@, name@, k as int) && state_named(
                states@,
                name@,
            ) == Some(states@[k as int]),
            r is None ==> state_named(states@, name@) is None,
    {
        let mut k: usize = 0;
        while k < states.len()
            invariant
                k <= states@.len(),
                forall|j: int| 0 <= j < k ==> (#[trigger] states@[j]).name@ != name@,
            decreases states@.len() - k,
        {
            if states[k].name == *name {
                proof {
                    assert(is_first_named(states@, name@, k as int));
                    let c = choose|c: int| is_first_named(states@, name@, c);
                    assert(is_first_named(states@, name@, c));
                    assert(c == k);
                }
                return Some(k);
            }
            k += 1;
        }
        None
    }
}

/// Records taken from monitors whose names differ, laid over the same
/// monitors, change nothing.
pub proof fn lemma_restore_own_state(ms: Seq<Monitor>, states: Seq<MonitorState>, i: int)
    requires
        states.len() == ms.len(),
        forall|k: int| 0 <= k < ms.len() ==> records(#[trigger] states[k], ms[k]),
        forall|a: int, b: int|
            0 <= a < b < ms.len() ==> (#[trigger] ms[a]).name@ != (#[trigger] ms[b]).name@,
        0 <= i < ms.len(),
    ensures
        state_named(states, ms[i].name@) == Some(states[i]),
        overlaid(ms[i], state_named(states, ms[i].name@)) == ms[i],
{
    let name = ms[i].name@;
    assert(records(states[i], ms[i]));
    assert forall|j: int| 0 <= j < i implies (#[trigger] states[j]).name@ != name by {
        assert(records(states[j], ms[j]));
    }
    assert(is_first_named(states, name, i));
    let c = choose|c: int| is_first_named(states, name, c);
    assert(is_first_named(states, name, c));
    assert(c == i);
}

} // verus!
