//! Output transforms: a quarter-turn rotation, possibly mirrored.

use vstd::prelude::*;
use vstd::string::StringExecFns;

verus! {

/// How an output's picture is turned before it is shown.
#[derive(Clone, Copy, Debug, PartialEq, Eq, Structural)]
pub enum Rotation {
    Normal,
    Deg90,
    Deg180,
    Deg270,
    Flipped,
    Flipped90,
    Flipped180,
    Flipped270,
}

/// The transform that a descriptor names; an absent or unknown one is `Normal`.
pub open spec fn rotation_of(transform: Option<Seq<char>>) -> Rotation {
    match transform {
        None => Rotation::Normal,
        Some(t) => if t == "90"@ {
            Rotation::Deg90
        } else if t == "180"@ {
            Rotation::Deg180
        } else if t == "270"@ {
            Rotation::Deg270
        } else if t == "flipped"@ {
            Rotation::Flipped
        } else if t == "flipped-90"@ {
            Rotation::Flipped90
        } else if t == "flipped-180"@ {
            Rotation::Flipped180
        } else if t == "flipped-270"@ {
            Rotation::Flipped270
        } else {
            Rotation::Normal
        },
    }
}

/// The descriptor's text, where there is one.
pub open spec fn transform_text(transform: Option<String>) -> Option<Seq<char>> {
    match transform {
        None => None,
        Some(t) => Some(t@),
    }
}

fn names(text: &String, word: &str) -> (r: bool)
    ensures
        r == (text@ == word@),
{
    let owned: String = String::from_str(word);
    *text == owned
}

impl Rotation {
    /// Whether width and height change places under this transform.
    pub open spec fn spec_swaps_axes(&self) -> bool {
        *self == Rotation::Deg90 || *self == Rotation::Deg270
    }

    /// The number by which the compositor names this transform.
    pub open spec fn spec_to_hyprland(&self) -> u8 {
        match self {
            Rotation::Normal => 0,
            Rotation::Deg90 => 1,
            Rotation::Deg180 => 2,
            Rotation::Deg270 => 3,
            Rotation::Flipped => 4,
            Rotation::Flipped90 => 5,
            Rotation::Flipped180 => 6,
            Rotation::Flipped270 => 7,
        }
    }

    /// Reads a transform descriptor: `"normal"`, `"90"`, `"180"`, `"270"`, or
    /// `"flipped"` alone or followed by `-` and one of the three angles.
    pub fn from_transform(transform: &Option<String>) -> (r: Rotation)
        ensures
            r == rotation_of(transform_text(*transform)),
    {
        match transform {
            None => Rotation::Normal,
            Some(t) => {
                if names(t, "90") {
                    Rotation::Deg90
                } else if names(t, "180") {
                    Rotation::Deg180
                } else if names(t, "270") {
                    Rotation::Deg270
                } else if names(t, "flipped") {
                    Rotation::Flipped
                } else if names(t, "flipped-90") {
                    Rotation::Flipped90
                } else if names(t, "flipped-180") {
                    Rotation::Flipped180
                } else if names(t, "flipped-270") {
                    Rotation::Flipped270
                } else {
                    Rotation::Normal
                }
            },
        }
    }

    /// Whether width and height change places under this transform.
    #[verifier::when_used_as_spec(spec_swaps_axes)]
    pub fn swaps_axes(&self) -> (r: bool)
        ensures
            r == self.spec_swaps_axes(),
    {
        match self {
            Rotation::Deg90 => true,
            Rotation::Deg270 => true,
            _ => false,
        }
    }

    /// The number by which the compositor names this transform.
    #[verifier::when_used_as_spec(spec_to_hyprland)]
    pub fn to_hyprland(&self) -> (r: u8)
        ensures
            r == self.spec_to_hyprland(),
    {
        match self {
            Rotation::Normal => 0,
            Rotation::Deg90 => 1,
            Rotation::Deg180 => 2,
            Rotation::Deg270 => 3,
            Rotation::Flipped => 4,
            Rotation::Flipped90 => 5,
            Rotation::Flipped180 => 6,
            Rotation::Flipped270 => 7,
        }
    }
}

} // verus!
