//! The arrangement as lines of the compositor's configuration.

use vstd::prelude::*;
use vstd::string::StringExecFns;
use crate::error::LayoutError;
use crate::monitor::{resolved_mode, Monitor, Position, Resolution};
use crate::rotation::Rotation;
use crate::text::{int_text, nat_text, push_int, push_nat, push_thousandths, thousandths_text};

verus! {

/// The line that switches the output `name` off.
pub open spec fn disabled_line(name: Seq<char>) -> Seq<char> {
    "monitor = "@ + name + ", disabled"@
}

/// The line that sets mode, position, scale and transform of the output
/// `name`. `scale` is in thousandths.
pub open spec fn enabled_line(
    name: Seq<char>,
    mode: Resolution,
    at: Position,
    scale: int,
    rotation: Rotation,
) -> Seq<char> {
    "monitor = "@ + name + ", "@ + int_text(mode.width as int) + "x"@ + int_text(
        mode.height as int,
    ) + "@"@ + thousandths_text(mode.refresh as nat) + ", "@ + int_text(at.x as int) + ","@
        + int_text(at.y as int) + ", "@ + thousandths_text(scale as nat) + ", transform,"@
        + nat_text(rotation.spec_to_hyprland() as nat)
}

/// The configuration line of a monitor. Of an enabled one, a missing mode
/// is reported before a missing position.
pub open spec fn config_line(m: Monitor) -> Result<Seq<char>, LayoutError> {
    if !m.enabled {
        Ok(disabled_line(m.name@))
    } else {
        match resolved_mode(m.modes@) {
            None => Err(LayoutError::NoResolvableMode),
            Some(mode) => match m.position {
                None => Err(LayoutError::NoPosition),
                Some(at) => Ok(enabled_line(m.name@, mode, at, m.spec_scale(), m.spec_rotation())),
            },
        }
    }
}

/// The lines of the first `n` monitors, each closed by a line feed; the
/// error of the first monitor that has no line.
pub open spec fn config_text_upto(ms: Seq<Monitor>, n: int) -> Result<Seq<char>, LayoutError>
    decreases n,
{
    if n <= 0 {
        Ok(Seq::empty())
    } else {
        match config_text_upto(ms, n - 1) {
            Err(e) => Err(e),
            Ok(text) => match config_line(ms[n - 1]) {
                Err(e) => Err(e),
                Ok(line) => Ok(text + line + seq!['\n']),
            },
        }
    }
}

/// The configuration of all monitors, one line each, in the order of the list.
pub open spec fn config_text(ms: Seq<Monitor>) -> Result<Seq<char>, LayoutError> {
    config_text_upto(ms, ms.len() as int)
}

/// What a computed text stands for.
pub open spec fn text_view(r: Result<String, LayoutError>) -> Result<Seq<char>, LayoutError> {
    match r {
        Ok(s) => Ok(s@),
        Err(e) => Err(e),
    }
}

impl Monitor {
    /// The configuration line of this monitor.
    pub fn to_hyprland_config(&self) -> (r: Result<String, LayoutError>)
        ensures
            text_view(r) == config_line(*self),
    {
        let mut line: String = String::from_str("monitor = ");
        line.append(self.name.as_str());
        if !self.enabled {
            line.append(", disabled");
            return Ok(line);
        }
        let mode: Resolution = match self.resolve_mode() {
            Some(m) => m,
            None => {
                return Err(LayoutError::NoResolvableMode);
            },
        };
        let at: Position = match self.position {
            Some(p) => p,
            None => {
                return Err(LayoutError::NoPosition);
            },
        };
        let rotation: Rotation = Rotation::from_transform(&self.transform);
        line.append(", ");
        push_int(&mut line, mode.width as i64);
        line.append("x");
        push_int(&mut line, mode.height as i64);
        line.append("@");
        push_thousandths(&mut line, mode.refresh);
        line.append(", ");
        push_int(&mut line, at.x as i64);
        line.append(",");
        push_int(&mut line, at.y as i64);
        line.append(", ");
        push_thousandths(&mut line, self.effective_scale().thousandths() as u32);
        line.append(", transform,");
        push_nat(&mut line, rotation.to_hyprland() as u64);
        Ok(line)
    }

    /// The configuration of all monitors: one line each, closed by a line
    /// feed, in the order of the list. The first monitor that has no line
    /// is reported instead.
    pub fn hyprland_config(monitors: &Vec<Monitor>) -> (r: Result<String, LayoutError>)
        ensures
            text_view(r) == config_text(monitors@),
    {
        let mut text: String = String::new();
        let n: usize = monitors.len();
        let mut i: usize = 0;
        while i < n
            invariant
                i <= n,
                n == monitors@.len(),
                config_text_upto(monitors@, i as int) == Ok::<Seq<char>, LayoutError>(text@),
            decreases n - i,
        {
            match monitors[i].to_hyprland_config() {
                Err(e) => {
                    proof {
                        lemma_error_stays(monitors@, i as int + 1, n as int);
                    }
                    return Err(e);
                },
                Ok(line) => {
                    proof {
                        reveal_strlit("\n");
                    }
                    let ghost before = text@;
                    text.append(line.as_str());
                    text.append("\n");
                    assert(text@ =~= before + line@ + seq!['\n']);
                },
            }
            i += 1;
        }
        Ok(text)
    }
}

/// Once the lines up to `k` have failed, so have the lines up to any later `n`,
/// with the same error.
proof fn lemma_error_stays(ms: Seq<Monitor>, k: int, n: int)
    requires
        0 <= k <= n,
        config_text_upto(ms, k) is Err,
    ensures
        config_text_upto(ms, n) == config_text_upto(ms, k),
    decreases n - k,
{
    if k < n {
        lemma_error_stays(ms, k, n - 1);
    }
}

} // verus!
