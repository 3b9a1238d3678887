use vstd::prelude::*;

verus! {

/// Lightness bands, from the lightest to the darkest.
#[derive(Copy, Clone, Debug, PartialEq, Eq, Structural)]
pub enum Brightness {
    Normal,
    Dim,
    Dark,
    VeryDark,
}

impl Brightness {
    /// Position of the band in the lightness order (`Normal` is 0).
    pub open spec fn level(self) -> nat {
        match self {
            Brightness::Normal => 0,
            Brightness::Dim => 1,
            Brightness::Dark => 2,
            Brightness::VeryDark => 3,
        }
    }

    /// The band number as a byte, used to offset palette indices.
    pub fn band(&self) -> (r: u8)
        ensures
            r == self.level(),
    {
        match self {
            Brightness::Normal => 0,
            Brightness::Dim => 1,
            Brightness::Dark => 2,
            Brightness::VeryDark => 3,
        }
    }

    /// `self` comes strictly before `other` in the lightness order.
    pub open spec fn lighter_than(self, other: Brightness) -> bool {
        self.level() < other.level()
    }

    /// `self` is not strictly lighter than `other`.
    pub open spec fn darker_than(self, other: Brightness) -> bool {
        !self.lighter_than(other)
    }

    /// Whether `self` comes strictly before `other` in the lightness order.
    pub fn is_lighter(&self, other: Brightness) -> (r: bool)
        ensures
            r == self.lighter_than(other),
    {
        self.band() < other.band()
    }

    /// The negation of `is_lighter`.
    pub fn is_darker(&self, other: Brightness) -> (r: bool)
        ensures
            r == self.darker_than(other),
    {
        !self.is_lighter(other)
    }
}

/// `is_darker` is the exact negation of `is_lighter` for every pair; `Normal` is lighter than
/// `Dim`, and the darkest band is not lighter than `Normal`.
pub proof fn lemma_lightness_order(a: Brightness, b: Brightness)
    ensures
        a.darker_than(b) == !a.lighter_than(b),
        Brightness::Normal.lighter_than(Brightness::Dim),
        !Brightness::VeryDark.lighter_than(Brightness::Normal),
        a.lighter_than(b) ==> !b.lighter_than(a),
{
}

} // verus!
