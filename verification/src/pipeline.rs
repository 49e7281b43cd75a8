//! The pipeline sequencer: the fixed order of the stages and the two
//! configuration-driven skips.
//!
//! Transitions are strictly linear and taken only on success of the
//! previous stage; any stage error moves directly to the failed state,
//! aborting the remaining stages.  When the cleanup stage is disabled the
//! rasterized images feed the normalize pass directly, and when OCR is
//! disabled the pipeline ends after cleanup — there is nothing to merge.

use vstd::prelude::*;

verus! {

/// The states of one pipeline run, in the order the stages execute.
#[derive(Clone, Copy, Debug, PartialEq, Eq, Structural)]
pub enum PipelineState {
    /// Extracting page images from the source document.
    Rasterizing,
    /// Enhancing the page images with the cleanup filter.
    Cleaning,
    /// Re-encoding the images into the OCR engine's input format.
    Normalizing,
    /// Running character recognition on each page.
    Recognizing,
    /// Uniting the per-page PDFs into the final document.
    Merging,
    /// The run finished and the output file is in place (or, with OCR
    /// disabled, all requested work is done).
    Done,
    /// A stage failed; the remaining stages were abandoned.
    Failed,
}

/// The successor of each state: linear transitions on success, with the
/// cleanup and OCR skips, and a direct move to the failed state when the
/// stage that just ran did not succeed.
pub open spec fn next_state_spec(
    s: PipelineState,
    cleanup_enabled: bool,
    ocr_enabled: bool,
    succeeded: bool,
) -> PipelineState {
    match s {
        PipelineState::Done => PipelineState::Done,
        PipelineState::Failed => PipelineState::Failed,
        _ => {
            if !succeeded {
                PipelineState::Failed
            } else {
                match s {
                    PipelineState::Rasterizing => if cleanup_enabled {
                        PipelineState::Cleaning
                    } else if ocr_enabled {
                        PipelineState::Normalizing
                    } else {
                        PipelineState::Done
                    },
                    PipelineState::Cleaning => if ocr_enabled {
                        PipelineState::Normalizing
                    } else {
                        PipelineState::Done
                    },
                    PipelineState::Normalizing => PipelineState::Recognizing,
                    PipelineState::Recognizing => PipelineState::Merging,
                    PipelineState::Merging => PipelineState::Done,
                    _ => s,
                }
            }
        },
    }
}

/// The state in which every run starts.
pub fn initial_state() -> (r: PipelineState)
    ensures
        r == PipelineState::Rasterizing,
{
    PipelineState::Rasterizing
}

/// Takes one transition of the sequencer: the state after the current
/// stage reported the given outcome.
pub fn next_state(
    s: PipelineState,
    cleanup_enabled: bool,
    ocr_enabled: bool,
    succeeded: bool,
) -> (r: PipelineState)
    ensures
        r == next_state_spec(s, cleanup_enabled, ocr_enabled, succeeded),
{
    match s {
        PipelineState::Done => PipelineState::Done,
        PipelineState::Failed => PipelineState::Failed,
        _ => {
            if !succeeded {
                PipelineState::Failed
            } else {
                match s {
                    PipelineState::Rasterizing => if cleanup_enabled {
                        PipelineState::Cleaning
                    } else if ocr_enabled {
                        PipelineState::Normalizing
                    } else {
                        PipelineState::Done
                    },
                    PipelineState::Cleaning => if ocr_enabled {
                        PipelineState::Normalizing
                    } else {
                        PipelineState::Done
                    },
                    PipelineState::Normalizing => PipelineState::Recognizing,
                    PipelineState::Recognizing => PipelineState::Merging,
                    PipelineState::Merging => PipelineState::Done,
                    _ => s,
                }
            }
        },
    }
}

/// The staged-file prefix the normalize pass reads from: the cleaned
/// images when the cleanup stage ran, the raw rasterized images
/// otherwise.
pub fn normalize_input_prefix(cleanup_ran: bool) -> (r: &'static str)
    ensures
        cleanup_ran ==> r@ == "b_"@,
        !cleanup_ran ==> r@ == "a_"@,
{
    if cleanup_ran {
        "b_"
    } else {
        "a_"
    }
}

/// A failed stage never comes back: the failed state is absorbing.
pub proof fn lemma_failed_absorbing(cleanup_enabled: bool, ocr_enabled: bool, succeeded: bool)
    ensures
        next_state_spec(PipelineState::Failed, cleanup_enabled, ocr_enabled, succeeded)
            == PipelineState::Failed,
{
}

} // verus!
