//! Control values: channel modes, gains, balances and meter levels.
use vstd::prelude::*;

use crate::scalar::Scalar;

verus! {

/// How the channels of an endpoint are mapped into the mix.
#[derive(Clone, Copy, Debug, PartialEq, Eq, Structural)]
pub enum ChannelMode {
    /// Follow the channel layout of the endpoint.
    Auto,
    /// Stereo passthrough.
    Stereo,
    /// The mean of left and right on every channel.
    Mono,
    /// Only the left channel.
    Left,
    /// Only the right channel.
    Right,
    /// Left and right exchanged.
    Swap,
}

impl Default for ChannelMode {
    fn default() -> (mode: Self)
        ensures
            mode == ChannelMode::Auto,
    {
        ChannelMode::Auto
    }
}

/// The number of a mode.
pub open spec fn mode_code(mode: ChannelMode) -> u32 {
    match mode {
        ChannelMode::Auto => 0,
        ChannelMode::Stereo => 1,
        ChannelMode::Mono => 2,
        ChannelMode::Left => 3,
        ChannelMode::Right => 4,
        ChannelMode::Swap => 5,
    }
}

/// The mode with a number; `Auto` for a number that no mode has.
pub open spec fn mode_of_code(code: u32) -> ChannelMode {
    if code == 1 {
        ChannelMode::Stereo
    } else if code == 2 {
        ChannelMode::Mono
    } else if code == 3 {
        ChannelMode::Left
    } else if code == 4 {
        ChannelMode::Right
    } else if code == 5 {
        ChannelMode::Swap
    } else {
        ChannelMode::Auto
    }
}

/// The mode after `mode`, round all six.
pub open spec fn mode_after(mode: ChannelMode) -> ChannelMode {
    mode_of_code(((mode_code(mode) + 1) % 6) as u32)
}

/// What a mode is called.
pub open spec fn mode_label(mode: ChannelMode) -> Seq<char> {
    match mode {
        ChannelMode::Auto => "AUTO"@,
        ChannelMode::Stereo => "ST"@,
        ChannelMode::Mono => "MN"@,
        ChannelMode::Left => "L"@,
        ChannelMode::Right => "R"@,
        ChannelMode::Swap => "SW"@,
    }
}

impl ChannelMode {
    /// Every mode, in the order of the numbers.
    pub fn all() -> (modes: [ChannelMode; 6])
        ensures
            forall|i: int| 0 <= i < 6 ==> #[trigger] modes@[i] == mode_of_code(i as u32),
    {
        [
            ChannelMode::Auto,
            ChannelMode::Stereo,
            ChannelMode::Mono,
            ChannelMode::Left,
            ChannelMode::Right,
            ChannelMode::Swap,
        ]
    }

    pub fn label(self) -> (label: &'static str)
        ensures
            label@ == mode_label(self),
    {
        match self {
            ChannelMode::Auto => "AUTO",
            ChannelMode::Stereo => "ST",
            ChannelMode::Mono => "MN",
            ChannelMode::Left => "L",
            ChannelMode::Right => "R",
            ChannelMode::Swap => "SW",
        }
    }

    pub fn next(self) -> (mode: Self)
        ensures
            mode == mode_after(self),
    {
        match self {
            ChannelMode::Auto => ChannelMode::Stereo,
            ChannelMode::Stereo => ChannelMode::Mono,
            ChannelMode::Mono => ChannelMode::Left,
            ChannelMode::Left => ChannelMode::Right,
            ChannelMode::Right => ChannelMode::Swap,
            ChannelMode::Swap => ChannelMode::Auto,
        }
    }

    pub fn code(self) -> (code: u32)
        ensures
            code == mode_code(self),
    {
        match self {
            ChannelMode::Auto => 0,
            ChannelMode::Stereo => 1,
            ChannelMode::Mono => 2,
            ChannelMode::Left => 3,
            ChannelMode::Right => 4,
            ChannelMode::Swap => 5,
        }
    }

    pub fn from_code(code: u32) -> (mode: Self)
        ensures
            mode == mode_of_code(code),
    {
        match code {
            1 => ChannelMode::Stereo,
            2 => ChannelMode::Mono,
            3 => ChannelMode::Left,
            4 => ChannelMode::Right,
            5 => ChannelMode::Swap,
            _ => ChannelMode::Auto,
        }
    }
}

/// A mode is found again by its number.
pub proof fn law_mode_round_trip(mode: ChannelMode)
    ensures
        mode_of_code(mode_code(mode)) == mode,
        mode_code(mode) < 6,
{
}

/// Stepping through the modes visits every mode once before it comes back.
pub proof fn law_modes_form_one_cycle(mode: ChannelMode)
    ensures
        mode_after(mode_after(mode_after(mode_after(mode_after(mode_after(mode)))))) == mode,
        mode_after(mode) != mode,
        mode_after(mode_after(mode)) != mode,
        mode_after(mode_after(mode_after(mode))) != mode,
        mode_after(mode_after(mode_after(mode_after(mode)))) != mode,
        mode_after(mode_after(mode_after(mode_after(mode_after(mode))))) != mode,
{
}

/// The control that refused a value.
#[derive(Clone, Copy, Debug, PartialEq, Eq, Structural)]
pub enum ControlName {
    Gain,
    Balance,
    MeterLevel,
}

impl ControlName {
    /// The name as it stands in messages.
    pub fn text(self) -> (text: &'static str)
        ensures
            text@ == (match self {
                ControlName::Gain => "gain"@,
                ControlName::Balance => "balance"@,
                ControlName::MeterLevel => "meter level"@,
            }),
    {
        match self {
            ControlName::Gain => "gain",
            ControlName::Balance => "balance",
            ControlName::MeterLevel => "meter level",
        }
    }
}

/// A value that a control refused, with the range that it accepts.
#[derive(Clone, Copy, Debug, PartialEq, Eq, Structural)]
pub struct RejectedControl {
    pub name: ControlName,
    pub value: Scalar,
    pub minimum: Scalar,
    pub maximum: Scalar,
}

/// Whether a control with this range takes `value`.
pub open spec fn in_range(value: Scalar, minimum: u32, maximum: u32) -> bool {
    value.finite() && (Scalar { bits: minimum }).le(value) && value.le(Scalar { bits: maximum })
}

fn accepts(value: Scalar, minimum: u32, maximum: u32) -> (result: bool)
    ensures
        result == in_range(value, minimum, maximum),
{
    value.is_finite() && Scalar::from_bits(minimum).at_most(value) && value.at_most(
        Scalar::from_bits(maximum),
    )
}

/// A gain in decibels.
#[derive(Clone, Copy, Debug, PartialEq, Eq, Structural)]
pub struct GainDb {
    value: Scalar,
}

impl GainDb {
    /// The pattern of minus sixty, the smallest value.
    pub const MIN: u32 = 0xc270_0000;

    /// The pattern of ten, the largest value.
    pub const MAX: u32 = 0x4120_0000;

    #[verifier::type_invariant]
    spec fn value_in_range(self) -> bool {
        in_range(self.value, Self::MIN, Self::MAX)
    }

    /// The number that the control holds.
    pub closed spec fn amount(self) -> Scalar {
        self.value
    }

    /// Accepts exactly the finite numbers from the smallest to the largest
    /// value, both included.
    pub fn new(value: Scalar) -> (control: Result<Self, RejectedControl>)
        ensures
            match control {
                Ok(control) => in_range(value, Self::MIN, Self::MAX) && control.amount() == value,
                Err(rejected) => {
                    &&& !in_range(value, Self::MIN, Self::MAX)
                    &&& rejected == (RejectedControl {
                        name: ControlName::Gain,
                        value,
                        minimum: Scalar { bits: Self::MIN },
                        maximum: Scalar { bits: Self::MAX },
                    })
                },
            },
    {
        if accepts(value, Self::MIN, Self::MAX) {
            Ok(GainDb { value })
        } else {
            Err(
                RejectedControl {
                    name: ControlName::Gain,
                    value,
                    minimum: Scalar::from_bits(Self::MIN),
                    maximum: Scalar::from_bits(Self::MAX),
                },
            )
        }
    }

    pub fn value(self) -> (value: Scalar)
        ensures
            value == self.amount(),
            in_range(value, Self::MIN, Self::MAX),
    {
        proof {
            use_type_invariant(&self);
        }
        self.value
    }

    /// Whether two controls hold the same number.
    pub fn same_value(self, other: Self) -> (same: bool)
        ensures
            same == self.amount().same_value_as(other.amount()),
    {
        self.value.same_value(other.value)
    }
}

impl Default for GainDb {
    fn default() -> (control: Self)
        ensures
            control.amount().bits == 0,
    {
        GainDb { value: Scalar::zero() }
    }
}

/// A balance between left and right.
#[derive(Clone, Copy, Debug, PartialEq, Eq, Structural)]
pub struct NormalizedBalance {
    value: Scalar,
}

impl NormalizedBalance {
    /// The pattern of minus one, the smallest value.
    pub const MIN: u32 = 0xbf80_0000;

    /// The pattern of one, the largest value.
    pub const MAX: u32 = 0x3f80_0000;

    #[verifier::type_invariant]
    spec fn value_in_range(self) -> bool {
        in_range(self.value, Self::MIN, Self::MAX)
    }

    /// The number that the control holds.
    pub closed spec fn amount(self) -> Scalar {
        self.value
    }

    /// Accepts exactly the finite numbers from the smallest to the largest
    /// value, both included.
    pub fn new(value: Scalar) -> (control: Result<Self, RejectedControl>)
        ensures
            match control {
                Ok(control) => in_range(value, Self::MIN, Self::MAX) && control.amount() == value,
                Err(rejected) => {
                    &&& !in_range(value, Self::MIN, Self::MAX)
                    &&& rejected == (RejectedControl {
                        name: ControlName::Balance,
                        value,
                        minimum: Scalar { bits: Self::MIN },
                        maximum: Scalar { bits: Self::MAX },
                    })
                },
            },
    {
        if accepts(value, Self::MIN, Self::MAX) {
            Ok(NormalizedBalance { value })
        } else {
            Err(
                RejectedControl {
                    name: ControlName::Balance,
                    value,
                    minimum: Scalar::from_bits(Self::MIN),
                    maximum: Scalar::from_bits(Self::MAX),
                },
            )
        }
    }

    pub fn value(self) -> (value: Scalar)
        ensures
            value == self.amount(),
            in_range(value, Self::MIN, Self::MAX),
    {
        proof {
            use_type_invariant(&self);
        }
        self.value
    }

    /// Whether two controls hold the same number.
    pub fn same_value(self, other: Self) -> (same: bool)
        ensures
            same == self.amount().same_value_as(other.amount()),
    {
        self.value.same_value(other.value)
    }
}

impl Default for NormalizedBalance {
    fn default() -> (control: Self)
        ensures
            control.amount().bits == 0,
    {
        NormalizedBalance { value: Scalar::zero() }
    }
}

/// A meter level.
#[derive(Clone, Copy, Debug, PartialEq, Eq, Structural)]
pub struct MeterLevel {
    value: Scalar,
}

impl MeterLevel {
    /// The pattern of zero, the smallest value.
    pub const MIN: u32 = 0x0000_0000;

    /// The pattern of one, the largest value.
    pub const MAX: u32 = 0x3f80_0000;

    #[verifier::type_invariant]
    spec fn value_in_range(self) -> bool {
        in_range(self.value, Self::MIN, Self::MAX)
    }

    /// The number that the control holds.
    pub closed spec fn amount(self) -> Scalar {
        self.value
    }

    /// Accepts exactly the finite numbers from the smallest to the largest
    /// value, both included.
    pub fn new(value: Scalar) -> (control: Result<Self, RejectedControl>)
        ensures
            match control {
                Ok(control) => in_range(value, Self::MIN, Self::MAX) && control.amount() == value,
                Err(rejected) => {
                    &&& !in_range(value, Self::MIN, Self::MAX)
                    &&& rejected == (RejectedControl {
                        name: ControlName::MeterLevel,
                        value,
                        minimum: Scalar { bits: Self::MIN },
                        maximum: Scalar { bits: Self::MAX },
                    })
                },
            },
    {
        if accepts(value, Self::MIN, Self::MAX) {
            Ok(MeterLevel { value })
        } else {
            Err(
                RejectedControl {
                    name: ControlName::MeterLevel,
                    value,
                    minimum: Scalar::from_bits(Self::MIN),
                    maximum: Scalar::from_bits(Self::MAX),
                },
            )
        }
    }

    pub fn value(self) -> (value: Scalar)
        ensures
            value == self.amount(),
            in_range(value, Self::MIN, Self::MAX),
    {
        proof {
            use_type_invariant(&self);
        }
        self.value
    }

    /// Whether two controls hold the same number.
    pub fn same_value(self, other: Self) -> (same: bool)
        ensures
            same == self.amount().same_value_as(other.amount()),
    {
        self.value.same_value(other.value)
    }
}

impl Default for MeterLevel {
    fn default() -> (control: Self)
        ensures
            control.amount().bits == 0,
    {
        MeterLevel { value: Scalar::zero() }
    }
}

/// The modes stand in the order in which they are stepped through, each with
/// its number and its label: automatic, stereo, mono, left, right, swapped.
pub proof fn law_modes_have_numbers_and_labels()
    ensures
        mode_code(ChannelMode::Auto) == 0 && mode_label(ChannelMode::Auto) == "AUTO"@,
        mode_code(ChannelMode::Stereo) == 1 && mode_label(ChannelMode::Stereo) == "ST"@,
        mode_code(ChannelMode::Mono) == 2 && mode_label(ChannelMode::Mono) == "MN"@,
        mode_code(ChannelMode::Left) == 3 && mode_label(ChannelMode::Left) == "L"@,
        mode_code(ChannelMode::Right) == 4 && mode_label(ChannelMode::Right) == "R"@,
        mode_code(ChannelMode::Swap) == 5 && mode_label(ChannelMode::Swap) == "SW"@,
        forall|code: u32| code > 5 ==> #[trigger] mode_of_code(code) == ChannelMode::Auto,
        mode_after(ChannelMode::Auto) == ChannelMode::Stereo,
        mode_after(ChannelMode::Stereo) == ChannelMode::Mono,
        mode_after(ChannelMode::Mono) == ChannelMode::Left,
        mode_after(ChannelMode::Left) == ChannelMode::Right,
        mode_after(ChannelMode::Right) == ChannelMode::Swap,
        mode_after(ChannelMode::Swap) == ChannelMode::Auto,
{
}

/// A control takes a number exactly where it is finite and between the ends of
/// its range, the ends among them: gains from minus sixty to ten, balances from
/// minus one to one, levels from zero to one.
pub proof fn law_controls_have_their_ranges(value: Scalar)
    ensures
        in_range(value, GainDb::MIN, GainDb::MAX) <==> -0x4270_0000 <= value.rank() <= 0x4120_0000,
        in_range(value, NormalizedBalance::MIN, NormalizedBalance::MAX) <==> -0x3f80_0000
            <= value.rank() <= 0x3f80_0000,
        in_range(value, MeterLevel::MIN, MeterLevel::MAX) <==> 0 <= value.rank() <= 0x3f80_0000,
{
}

} // verus!
