//! Device-wide parameter enumerations and their value conversions.
//!
//! Control values arrive as fixed-point numbers with `FP_ONE` standing for
//! 1.0; each enum converts from such a value by the same truncating rule the
//! engine's control surface uses, and back to its canonical value.

use vstd::prelude::*;

verus! {

/// Fixed-point unit: this many counts stand for the real value 1.0.
pub const FP_ONE: i64 = 65536;

/// The four outputs of the state-variable filter.
#[derive(Debug, PartialEq, Eq, Structural, Copy, Clone)]
pub enum FilterType {
    Lowpass,
    Highpass,
    Bandpass,
    Notch,
}

/// Which filter type a raw control value selects: the value's integer
/// part, taken modulo four, so the selection is the exact inverse of each
/// type's canonical value.
pub open spec fn spec_filter_type_from_value(v: int) -> FilterType {
    let i = (v / (FP_ONE as int)) % 4;
    if i == 0 {
        FilterType::Lowpass
    } else if i == 1 {
        FilterType::Highpass
    } else if i == 2 {
        FilterType::Bandpass
    } else {
        FilterType::Notch
    }
}

impl FilterType {
    /// Selects a filter type from a non-negative fixed-point control value.
    pub fn from_value(v: i64) -> (t: FilterType)
        requires
            0 <= v,
        ensures
            t == spec_filter_type_from_value(v as int),
    {
        let i: i64 = (v / FP_ONE) % 4;
        if i == 0 {
            FilterType::Lowpass
        } else if i == 1 {
            FilterType::Highpass
        } else if i == 2 {
            FilterType::Bandpass
        } else {
            FilterType::Notch
        }
    }

    /// The canonical plain value of each filter type: 0, 1, 2, 3.
    pub fn value(self) -> (v: i64)
        ensures
            v == (match self {
                FilterType::Lowpass => 0i64,
                FilterType::Highpass => 1i64,
                FilterType::Bandpass => 2i64,
                FilterType::Notch => 3i64,
            }),
    {
        match self {
            FilterType::Lowpass => 0,
            FilterType::Highpass => 1,
            FilterType::Bandpass => 2,
            FilterType::Notch => 3,
        }
    }
}

/// How note-on events map onto voices.
#[derive(Debug, PartialEq, Eq, Structural, Copy, Clone)]
pub enum VoiceMode {
    Polyphonic,
    MonoLegatoTrill,
}

/// Which voice mode a raw control value selects: its integer part, with
/// every value other than one falling back to polyphonic.
pub open spec fn spec_voice_mode_from_value(v: int) -> VoiceMode {
    if v / (FP_ONE as int) == 1 {
        VoiceMode::MonoLegatoTrill
    } else {
        VoiceMode::Polyphonic
    }
}

impl VoiceMode {
    /// Selects a voice mode from a non-negative fixed-point control value.
    pub fn from_value(v: i64) -> (m: VoiceMode)
        requires
            0 <= v,
        ensures
            m == spec_voice_mode_from_value(v as int),
    {
        if v / FP_ONE == 1 {
            VoiceMode::MonoLegatoTrill
        } else {
            VoiceMode::Polyphonic
        }
    }

    /// The canonical fixed-point value of each mode: 0.0 or 1.0.
    pub fn value(self) -> (v: i64)
        ensures
            v == (match self {
                VoiceMode::Polyphonic => 0i64,
                VoiceMode::MonoLegatoTrill => FP_ONE as i64,
            }),
    {
        match self {
            VoiceMode::Polyphonic => 0,
            VoiceMode::MonoLegatoTrill => FP_ONE,
        }
    }
}

/// Stereo spread behaviour of stacked voices.
#[derive(Debug, PartialEq, Eq, Structural, Copy, Clone)]
pub enum Spread {
    Mono,
    FullInvert,
    ModInvert,
}

/// Which spread a raw control value selects: the value is doubled and
/// truncated, with anything else falling back to mono.
pub open spec fn spec_spread_from_value(v: int) -> Spread {
    let i = (v * 2) / (FP_ONE as int);
    if i == 1 {
        Spread::FullInvert
    } else if i == 2 {
        Spread::ModInvert
    } else {
        Spread::Mono
    }
}

impl Spread {
    /// Selects a spread from a non-negative fixed-point control value.
    pub fn from_value(v: i64) -> (s: Spread)
        requires
            0 <= v <= 0x1000_0000_0000,
        ensures
            s == spec_spread_from_value(v as int),
    {
        let i: i64 = (v * 2) / FP_ONE;
        if i == 1 {
            Spread::FullInvert
        } else if i == 2 {
            Spread::ModInvert
        } else {
            Spread::Mono
        }
    }

    /// The canonical fixed-point value of each spread: 0.0, 0.5 or 1.0.
    pub fn value(self) -> (v: i64)
        ensures
            v == (match self {
                Spread::Mono => 0i64,
                Spread::FullInvert => (FP_ONE / 2) as i64,
                Spread::ModInvert => FP_ONE as i64,
            }),
    {
        match self {
            Spread::Mono => 0,
            Spread::FullInvert => FP_ONE / 2,
            Spread::ModInvert => FP_ONE,
        }
    }
}

/// Round trip: converting a filter type to its canonical value and back
/// yields the same type.
pub proof fn lemma_filter_type_round_trip(t: FilterType)
    ensures
        spec_filter_type_from_value((match t {
            FilterType::Lowpass => 0int,
            FilterType::Highpass => 1int,
            FilterType::Bandpass => 2int,
            FilterType::Notch => 3int,
        }) * FP_ONE) == t,
{
}

/// Round trip: converting a voice mode to its value and back yields the
/// same mode.
pub proof fn lemma_voice_mode_round_trip(m: VoiceMode)
    ensures
        spec_voice_mode_from_value(match m {
            VoiceMode::Polyphonic => 0,
            VoiceMode::MonoLegatoTrill => FP_ONE as int,
        }) == m,
{
}

/// Round trip: converting a spread to its value and back yields the same
/// spread.
pub proof fn lemma_spread_round_trip(s: Spread)
    ensures
        spec_spread_from_value(match s {
            Spread::Mono => 0,
            Spread::FullInvert => (FP_ONE / 2) as int,
            Spread::ModInvert => FP_ONE as int,
        }) == s,
{
}

/// A single control-surface message.
pub enum Parameter {
    StateVariableFilterType(FilterType),
    Freq(i64),
    Q(i64),
}

/// Placeholder for host-resolved parameter data.
pub struct ParameterData {}

} // verus!
