//! Brightness percentage from a requested and a maximum backlight level.
use vstd::prelude::*;

verus! {

/// The fatal conditions of the brightness inputs.
#[derive(Debug, Clone, Copy, PartialEq, Eq, Structural)]
pub enum BrightnessError {
    /// A level source did not hold an unsigned decimal integer.
    MalformedLevel,
    /// The maximum level is zero, so no percentage can be derived.
    ZeroMaximum,
    /// The percentage does not fit in 64 bits (requested far above maximum).
    FractionOverflow,
}

/// The exact brightness percentage, `floor(requested * 100 / maximum)`.
pub open spec fn percent_of(requested: nat, maximum: nat) -> nat
    recommends
        maximum > 0,
{
    (requested * 100) / maximum
}

/// The outcome of `fraction_of`.
pub open spec fn fraction_spec(requested: u64, maximum: u64) -> Result<u64, BrightnessError> {
    if maximum == 0 {
        Err(BrightnessError::ZeroMaximum)
    } else if percent_of(requested as nat, maximum as nat) > u64::MAX {
        Err(BrightnessError::FractionOverflow)
    } else {
        Ok(percent_of(requested as nat, maximum as nat) as u64)
    }
}

/// Computes the brightness percentage of `requested` out of `maximum`.
///
/// A zero maximum is a configuration error and is reported without
/// dividing.
pub fn fraction_of(requested: u64, maximum: u64) -> (r: Result<u64, BrightnessError>)
    ensures
        r == fraction_spec(requested, maximum),
        maximum == 0 ==> r == Err::<u64, BrightnessError>(BrightnessError::ZeroMaximum),
        maximum > 0 && percent_of(requested as nat, maximum as nat) <= u64::MAX ==> r == Ok::<
            u64,
            BrightnessError,
        >(percent_of(requested as nat, maximum as nat) as u64),
        maximum > 0 && percent_of(requested as nat, maximum as nat) > u64::MAX ==> r == Err::<
            u64,
            BrightnessError,
        >(BrightnessError::FractionOverflow),
{
    if maximum == 0 {
        return Err(BrightnessError::ZeroMaximum);
    }
    let wide: u128 = (requested as u128) * 100u128;
    let q: u128 = wide / (maximum as u128);
    if q > u64::MAX as u128 {
        Err(BrightnessError::FractionOverflow)
    } else {
        Ok(q as u64)
    }
}

/// The ramp scale that realises a percentage: `None` (the identity ramp)
/// at exactly one hundred percent, otherwise the percentage itself.
pub open spec fn scale_spec(percent: u64) -> Option<u64> {
    if percent == 100 {
        None
    } else {
        Some(percent)
    }
}

/// Chooses the ramp scale for a percentage. Full brightness restores the
/// identity ramp instead of multiplying by one.
pub fn scale_for(percent: u64) -> (r: Option<u64>)
    ensures
        r == scale_spec(percent),
{
    if percent == 100 {
        None
    } else {
        Some(percent)
    }
}

} // verus!
