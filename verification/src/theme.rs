//! Which palette colour a grid cell is drawn in.
use vstd::prelude::*;

use crate::types::Velocity;

verus! {

/// The palette entries of the step grid.
#[derive(Debug, Clone, Copy, PartialEq, Eq, Structural)]
pub enum StepColor {
    /// The step under the play head.
    ActiveStep,
    /// An empty step that starts a beat.
    BeatMark,
    /// An empty step.
    OffStep,
    SoftStep,
    MediumStep,
    LoudStep,
}

/// The colour of a step cell: the play head wins; otherwise the velocity's
/// colour, with empty beat starts marked.
pub fn step_color(vel: Velocity, is_active: bool, is_beat_start: bool) -> (r: StepColor)
    ensures
        is_active ==> r == StepColor::ActiveStep,
        !is_active ==> r == (match vel {
            Velocity::Off => if is_beat_start {
                StepColor::BeatMark
            } else {
                StepColor::OffStep
            },
            Velocity::Soft => StepColor::SoftStep,
            Velocity::Medium => StepColor::MediumStep,
            Velocity::Loud => StepColor::LoudStep,
        }),
{
    if is_active {
        StepColor::ActiveStep
    } else {
        match vel {
            Velocity::Off => {
                if is_beat_start {
                    StepColor::BeatMark
                } else {
                    StepColor::OffStep
                }
            },
            Velocity::Soft => StepColor::SoftStep,
            Velocity::Medium => StepColor::MediumStep,
            Velocity::Loud => StepColor::LoudStep,
        }
    }
}

} // verus!
