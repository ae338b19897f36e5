//! Mode types for the low-level timer driver that shares the controller
//! family with the DMA core.

use vstd::prelude::*;

verus! {

/// Input capture mode.
#[derive(Debug, Copy, Clone, PartialEq, Eq, Structural)]
pub enum InputCaptureMode {
    /// Rising edge only.
    Rising,
    /// Falling edge only.
    Falling,
    /// Both rising or falling edges.
    BothEdges,
}

/// Input TI selection.
#[derive(Debug, Copy, Clone, PartialEq, Eq, Structural)]
pub enum InputTISelection {
    /// Normal
    Normal,
    /// Alternate
    Alternate,
    /// TRC
    TRC,
}

/// Timer counting mode.
#[derive(Debug, Copy, Clone, PartialEq, Eq, Structural)]
pub enum CountingMode {
    /// The timer counts up to the reload value and then resets back to 0.
    EdgeAlignedUp,
    /// The timer counts down to 0 and then resets back to the reload value.
    EdgeAlignedDown,
    /// The timer counts up to the reload value and then counts back to 0.
    ///
    /// The output compare interrupt flags of channels configured in output
    /// are set when the counter is counting down.
    CenterAlignedDownInterrupts,
    /// The timer counts up to the reload value and then counts back to 0.
    ///
    /// The output compare interrupt flags of channels configured in output
    /// are set when the counter is counting up.
    CenterAlignedUpInterrupts,
    /// The timer counts up to the reload value and then counts back to 0.
    ///
    /// The output compare interrupt flags of channels configured in output
    /// are set when the counter is counting both up or down.
    CenterAlignedBothInterrupts,
}

impl CountingMode {
    /// What `is_edge_aligned` returns.
    pub open spec fn edge_aligned_spec(&self) -> bool {
        self == CountingMode::EdgeAlignedUp || self == CountingMode::EdgeAlignedDown
    }

    /// Return whether this mode is edge-aligned (up or down).
    pub fn is_edge_aligned(&self) -> (r: bool)
        ensures
            r == self.edge_aligned_spec(),
    {
        matches!(self, CountingMode::EdgeAlignedUp | CountingMode::EdgeAlignedDown)
    }

    /// Return whether this mode is center-aligned.
    ///
    /// Every counting mode is either edge-aligned or center-aligned, so this
    /// is the negation of `is_edge_aligned`.
    pub fn is_center_aligned(&self) -> (r: bool)
        ensures
            r == !self.edge_aligned_spec(),
    {
        matches!(
            self,
            CountingMode::CenterAlignedDownInterrupts
                | CountingMode::CenterAlignedUpInterrupts
                | CountingMode::CenterAlignedBothInterrupts
        )
    }
}

impl Default for CountingMode {
    /// Counting up to the reload value is the default mode.
    fn default() -> (r: Self)
        ensures
            r == CountingMode::EdgeAlignedUp,
    {
        CountingMode::EdgeAlignedUp
    }
}

/// Output compare mode.
#[derive(Debug, Copy, Clone, PartialEq, Eq, Structural)]
pub enum OutputCompareMode {
    /// The comparison between the output compare register and the counter
    /// has no effect on the outputs (used to generate a timing base).
    Frozen,
    /// Set channel to active level on match.
    ActiveOnMatch,
    /// Set channel to inactive level on match.
    InactiveOnMatch,
    /// Toggle the output on every match.
    Toggle,
    /// Force inactive level - the output is forced low.
    ForceInactive,
    /// Force active level - the output is forced high.
    ForceActive,
    /// PWM mode 1 - in upcounting, the channel is active as long as the
    /// counter is below the compare value, else inactive.
    PwmMode1,
    /// PWM mode 2 - in upcounting, the channel is inactive as long as the
    /// counter is below the compare value, else active.
    PwmMode2,
}

/// Timer output pin polarity.
#[derive(Debug, Copy, Clone, PartialEq, Eq, Structural)]
pub enum OutputPolarity {
    /// Active high (higher duty value makes the pin spend more time high).
    ActiveHigh,
    /// Active low (higher duty value makes the pin spend more time low).
    ActiveLow,
}

impl OutputPolarity {
    /// The polarity-inversion flag the output-polarity register field holds.
    pub fn to_flag(&self) -> (r: bool)
        ensures
            r == (self == OutputPolarity::ActiveLow),
    {
        matches!(self, OutputPolarity::ActiveLow)
    }
}

/// Pulse width prescaler.
#[derive(Debug, Copy, Clone, PartialEq, Eq, Structural)]
pub enum PulseWidthPrescaler {
    /// The pulse width clock is undivided.
    Div1,
    /// Divide by 2.
    Div2,
    /// Divide by 4.
    Div4,
    /// Divide by 8.
    Div8,
    /// Divide by 16.
    Div16,
    /// Divide by 32.
    Div32,
    /// Divide by 64.
    Div64,
    /// Divide by 128.
    Div128,
}

impl PulseWidthPrescaler {
    /// What `to_field` returns: the exponent of the division factor.
    pub open spec fn field_spec(&self) -> u8 {
        match self {
            PulseWidthPrescaler::Div1 => 0u8,
            PulseWidthPrescaler::Div2 => 1u8,
            PulseWidthPrescaler::Div4 => 2u8,
            PulseWidthPrescaler::Div8 => 3u8,
            PulseWidthPrescaler::Div16 => 4u8,
            PulseWidthPrescaler::Div32 => 5u8,
            PulseWidthPrescaler::Div64 => 6u8,
            PulseWidthPrescaler::Div128 => 7u8,
        }
    }

    /// The register field value of this prescaler.
    pub fn to_field(&self) -> (r: u8)
        ensures
            r == self.field_spec(),
    {
        match self {
            PulseWidthPrescaler::Div1 => 0,
            PulseWidthPrescaler::Div2 => 1,
            PulseWidthPrescaler::Div4 => 2,
            PulseWidthPrescaler::Div8 => 3,
            PulseWidthPrescaler::Div16 => 4,
            PulseWidthPrescaler::Div32 => 5,
            PulseWidthPrescaler::Div64 => 6,
            PulseWidthPrescaler::Div128 => 7,
        }
    }

    /// The prescaler a register field value denotes; field values above 7 do
    /// not occur in the three-bit field.
    pub fn from_field(v: u8) -> (r: Self)
        requires
            v < 8,
        ensures
            r.field_spec() == v,
    {
        match v {
            0 => PulseWidthPrescaler::Div1,
            1 => PulseWidthPrescaler::Div2,
            2 => PulseWidthPrescaler::Div4,
            3 => PulseWidthPrescaler::Div8,
            4 => PulseWidthPrescaler::Div16,
            5 => PulseWidthPrescaler::Div32,
            6 => PulseWidthPrescaler::Div64,
            _ => PulseWidthPrescaler::Div128,
        }
    }
}

} // verus!
