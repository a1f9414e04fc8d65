use vstd::prelude::*;

verus! {

/// The shape of one EQ band. Each variant selects a different biquad
/// coefficient formula.
#[derive(Debug, Clone, Copy, PartialEq, Eq, Structural)]
pub enum FilterType {
    /// Bell curve around a centre frequency.
    Peak,
    /// Boosts or cuts everything below the cutoff.
    LowShelf,
    /// Boosts or cuts everything above the cutoff.
    HighShelf,
    /// Passes frequencies below the cutoff.
    LowPass,
    /// Passes frequencies above the cutoff.
    HighPass,
    /// Narrow deep cut at one frequency.
    Notch,
    /// Passes only a band around the centre frequency.
    Bandpass,
}

/// The name shown for each filter type in the user interface.
pub open spec fn spec_display_name(t: FilterType) -> Seq<char> {
    match t {
        FilterType::Peak => "Peak"@,
        FilterType::LowShelf => "Low Shelf"@,
        FilterType::HighShelf => "High Shelf"@,
        FilterType::LowPass => "Low Pass"@,
        FilterType::HighPass => "High Pass"@,
        FilterType::Notch => "Notch"@,
        FilterType::Bandpass => "Bandpass"@,
    }
}

/// Gain is meaningful only for the bell and the two shelves.
pub open spec fn spec_uses_gain(t: FilterType) -> bool {
    t is Peak || t is LowShelf || t is HighShelf
}

impl FilterType {
    /// Human-readable name for the UI.
    pub fn display_name(&self) -> (name: &'static str)
        ensures
            name@ == spec_display_name(*self),
    {
        match self {
            FilterType::Peak => "Peak",
            FilterType::LowShelf => "Low Shelf",
            FilterType::HighShelf => "High Shelf",
            FilterType::LowPass => "Low Pass",
            FilterType::HighPass => "High Pass",
            FilterType::Notch => "Notch",
            FilterType::Bandpass => "Bandpass",
        }
    }

    /// Whether the gain parameter affects this filter type. Low-pass,
    /// high-pass, notch and bandpass are gain-neutral.
    pub fn uses_gain(&self) -> (r: bool)
        ensures
            r == spec_uses_gain(*self),
    {
        match self {
            FilterType::Peak | FilterType::LowShelf | FilterType::HighShelf => true,
            _ => false,
        }
    }
}

} // verus!

verus! {

/// The complete settings of one EQ band, as stored in a profile and edited
/// in the UI. The three numeric parameters have type `N`; the audio engine
/// instantiates it with double-precision floats, whose range checks and
/// coefficient formulas live outside this crate.
#[derive(Debug, Clone, PartialEq)]
pub struct BandConfig<N> {
    /// Which filter shape this band uses.
    pub filter_type: FilterType,
    /// Centre or cutoff frequency in Hz.
    pub frequency: N,
    /// Gain in dB; meaningful for Peak and the shelves only.
    pub gain_db: N,
    /// Bandwidth / resonance.
    pub q: N,
    /// Disabled bands are skipped by the filter chain.
    pub enabled: bool,
    /// Display colour chosen by the user, if any.
    pub color: Option<String>,
}


/// The coefficient formula a band is computed with.
#[derive(Debug, Clone, Copy, PartialEq, Eq, Structural)]
pub enum Formula {
    /// Identity coefficients: the band leaves audio unchanged.
    Passthrough,
    Peak,
    LowShelf,
    HighShelf,
    LowPass,
    HighPass,
    Notch,
    Bandpass,
}

/// Which formula computes a band's coefficients: a disabled band, and a
/// gain-bearing band at exactly 0 dB, pass audio through unchanged; every
/// other band uses the formula of its filter type.
pub open spec fn spec_formula(enabled: bool, filter_type: FilterType, gain_is_zero: bool) -> Formula {
    if !enabled {
        Formula::Passthrough
    } else if spec_uses_gain(filter_type) && gain_is_zero {
        Formula::Passthrough
    } else {
        match filter_type {
            FilterType::Peak => Formula::Peak,
            FilterType::LowShelf => Formula::LowShelf,
            FilterType::HighShelf => Formula::HighShelf,
            FilterType::LowPass => Formula::LowPass,
            FilterType::HighPass => Formula::HighPass,
            FilterType::Notch => Formula::Notch,
            FilterType::Bandpass => Formula::Bandpass,
        }
    }
}

/// A band leaves audio unchanged exactly when it is disabled, or when it is
/// a bell or shelf at 0 dB: a disabled band passes audio through whatever
/// its type and gain; an enabled band of any other kind, or at any other
/// gain, uses its own type's formula.
pub proof fn lemma_passthrough_exactly_when_inactive(enabled: bool, filter_type: FilterType, gain_is_zero: bool)
    ensures
        !enabled ==> spec_formula(enabled, filter_type, gain_is_zero) == Formula::Passthrough,
        spec_formula(enabled, filter_type, gain_is_zero) == Formula::Passthrough <==> (!enabled || (
        (filter_type is Peak || filter_type is LowShelf || filter_type is HighShelf) && gain_is_zero)),
        enabled && filter_type is LowPass ==> spec_formula(enabled, filter_type, gain_is_zero)
            == Formula::LowPass,
        enabled && filter_type is HighPass ==> spec_formula(enabled, filter_type, gain_is_zero)
            == Formula::HighPass,
        enabled && filter_type is Notch ==> spec_formula(enabled, filter_type, gain_is_zero)
            == Formula::Notch,
        enabled && filter_type is Bandpass ==> spec_formula(enabled, filter_type, gain_is_zero)
            == Formula::Bandpass,
        enabled && !gain_is_zero && filter_type is Peak ==> spec_formula(
            enabled,
            filter_type,
            gain_is_zero,
        ) == Formula::Peak,
        enabled && !gain_is_zero && filter_type is LowShelf ==> spec_formula(
            enabled,
            filter_type,
            gain_is_zero,
        ) == Formula::LowShelf,
        enabled && !gain_is_zero && filter_type is HighShelf ==> spec_formula(
            enabled,
            filter_type,
            gain_is_zero,
        ) == Formula::HighShelf,
{
}

impl<N> BandConfig<N> {
    /// The formula for this band's coefficients; `gain_is_zero` says whether
    /// its gain is exactly 0 dB.
    pub fn formula(&self, gain_is_zero: bool) -> (f: Formula)
        ensures
            f == spec_formula(self.enabled, self.filter_type, gain_is_zero),
            !self.enabled ==> f == Formula::Passthrough,
            f == Formula::Passthrough <==> (!self.enabled || ((self.filter_type is Peak
                || self.filter_type is LowShelf || self.filter_type is HighShelf) && gain_is_zero)),
    {
        proof {
            lemma_passthrough_exactly_when_inactive(self.enabled, self.filter_type, gain_is_zero);
        }
        if !self.enabled {
            return Formula::Passthrough;
        }
        if self.filter_type.uses_gain() && gain_is_zero {
            return Formula::Passthrough;
        }
        match self.filter_type {
            FilterType::Peak => Formula::Peak,
            FilterType::LowShelf => Formula::LowShelf,
            FilterType::HighShelf => Formula::HighShelf,
            FilterType::LowPass => Formula::LowPass,
            FilterType::HighPass => Formula::HighPass,
            FilterType::Notch => Formula::Notch,
            FilterType::Bandpass => Formula::Bandpass,
        }
    }
}

} // verus!
