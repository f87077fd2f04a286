//! Reset sequence
//!
//! Two control lines bring the chip into its bootloader: RESET (wired to
//! DTR) and BOOTSEL (wired to RTS).

use vstd::prelude::*;

verus! {

/// One move of the reset sequence.
#[derive(Clone, Copy, Debug, PartialEq, Eq, Structural)]
pub enum LineStep {
    /// Wait this many milliseconds.
    Wait(u64),
    /// Drive the RESET line.
    Reset(bool),
    /// Drive the BOOTSEL line.
    Bootsel(bool),
}

/// The moves that reset the chip into its bootloader, in order.
pub open spec fn reset_script() -> Seq<LineStep> {
    seq![
        LineStep::Wait(10),
        LineStep::Reset(true),
        LineStep::Bootsel(true),
        LineStep::Wait(150),
        LineStep::Reset(false),
        LineStep::Wait(100),
        LineStep::Bootsel(false),
        LineStep::Wait(250),
    ]
}

/// Lists the moves that reset the chip into its bootloader. A line that
/// cannot be set is no reason to stop: the caller goes on with the next move.
pub fn reset_sequence() -> (script: Vec<LineStep>)
    ensures
        script@ == reset_script(),
{
    let mut script: Vec<LineStep> = Vec::new();
    script.push(LineStep::Wait(10));
    script.push(LineStep::Reset(true));
    script.push(LineStep::Bootsel(true));
    script.push(LineStep::Wait(150));
    script.push(LineStep::Reset(false));
    script.push(LineStep::Wait(100));
    script.push(LineStep::Bootsel(false));
    script.push(LineStep::Wait(250));
    assert(script@ =~= reset_script());
    script
}

} // verus!
