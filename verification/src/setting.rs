//! The value that a user has selected for a scalar option.

use vstd::prelude::*;
use crate::factor::Factor;

verus! {

/// What sort of knob an option is. The five scalar kinds are also the kinds of a
/// selected value; the two grouping kinds offer bundles of overrides instead.
#[derive(Clone, Copy, Debug, PartialEq, Eq, Structural)]
pub enum Kind {
    Rgb,
    Rgba,
    Grayscale,
    Opacity,
    Mask,
    Single,
    Multi,
}

impl Kind {
    /// The kinds that carry a value.
    pub open spec fn is_scalar(self) -> bool {
        self != Kind::Single && self != Kind::Multi
    }
}

/// The selected value of a scalar option: multipliers for red, green and blue, a
/// fourth for alpha, or a single one.
#[derive(Clone, Copy, Debug)]
pub enum ConfSetting {
    Rgb([Factor; 3]),
    Rgba([Factor; 4]),
    Grayscale(Factor),
    Opacity(Factor),
    Mask(Factor),
}

impl ConfSetting {
    pub open spec fn kind(self) -> Kind {
        match self {
            ConfSetting::Rgb(_) => Kind::Rgb,
            ConfSetting::Rgba(_) => Kind::Rgba,
            ConfSetting::Grayscale(_) => Kind::Grayscale,
            ConfSetting::Opacity(_) => Kind::Opacity,
            ConfSetting::Mask(_) => Kind::Mask,
        }
    }

    /// How many source images the compositor reads under this value: the image
    /// itself, and for a mask the image that masks it.
    pub open spec fn sources(self) -> nat {
        if self is Mask {
            2
        } else {
            1
        }
    }
}

} // verus!
