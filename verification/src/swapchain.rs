//! State carried by the `gamescope_swapchain` protocol.

use vstd::prelude::*;

use crate::wire;
use crate::wire::{join_u64, split_u64};

verus! {

/// Vulkan swapchain properties sent by the WSI layer.
#[derive(Debug, PartialEq, Eq)]
pub struct SwapchainFeedback {
    pub image_count: u32,
    pub vk_format: u32,
    pub vk_colorspace: u32,
    pub vk_composite_alpha: u32,
    pub vk_pre_transform: u32,
    pub vk_clipped: u32,
    pub vk_engine_name: String,
    pub hdr_metadata: Option<HdrMetadata>,
}

impl Clone for SwapchainFeedback {
    fn clone(&self) -> (copy: Self)
        ensures
            copy == *self,
    {
        SwapchainFeedback {
            image_count: self.image_count,
            vk_format: self.vk_format,
            vk_colorspace: self.vk_colorspace,
            vk_composite_alpha: self.vk_composite_alpha,
            vk_pre_transform: self.vk_pre_transform,
            vk_clipped: self.vk_clipped,
            vk_engine_name: self.vk_engine_name.clone(),
            hdr_metadata: self.hdr_metadata,
        }
    }
}

/// CTA-861-G static HDR metadata as encoded by the protocol.
#[derive(Clone, Copy, Debug, PartialEq, Eq, Structural)]
pub struct HdrMetadata {
    pub display_primary_red: Chromaticity,
    pub display_primary_green: Chromaticity,
    pub display_primary_blue: Chromaticity,
    pub white_point: Chromaticity,
    pub max_display_mastering_luminance: u32,
    pub min_display_mastering_luminance: u32,
    pub max_cll: u32,
    pub max_fall: u32,
}

impl HdrMetadata {
    /// Metadata with a CLL, a FALL and a white point other than `(0, 0)`.
    pub open spec fn accepted(self) -> bool {
        self.max_cll != 0 && self.max_fall != 0 && !(self.white_point.x == 0
            && self.white_point.y == 0)
    }

    /// Gamescope discards metadata with no CLL, no FALL, or a `(0, 0)` white
    /// point. The primaries and mastering luminance are otherwise accepted as
    /// supplied.
    #[must_use]
    pub fn is_accepted_by_gamescope(self) -> (accepted: bool)
        ensures
            accepted == self.accepted(),
    {
        self.max_cll != 0 && self.max_fall != 0 && (self.white_point.x != 0 || self.white_point.y
            != 0)
    }
}

/// Fixed-point chromaticity words used by HDR metadata.
#[derive(Clone, Copy, Debug, PartialEq, Eq, Structural)]
pub struct Chromaticity {
    pub x: u32,
    pub y: u32,
}

/// Result of trying to attach HDR metadata.
#[derive(Clone, Copy, Debug, PartialEq, Eq, Structural)]
pub enum SetHdrMetadataResult {
    Stored,
    DiscardedInvalid,
    MissingSwapchainFeedback,
}

/// Metadata consumed atomically by one surface commit.
#[derive(Debug, PartialEq, Eq)]
pub struct CommitMetadata {
    pub feedback: Option<SwapchainFeedback>,
    pub present_id: Option<u32>,
    pub desired_present_time_ns: u64,
    pub vk_present_mode: Option<u32>,
}

impl Clone for CommitMetadata {
    fn clone(&self) -> (copy: Self)
        ensures
            copy == *self,
    {
        CommitMetadata {
            feedback: match &self.feedback {
                Some(feedback) => Some(feedback.clone()),
                None => None,
            },
            present_id: self.present_id,
            desired_present_time_ns: self.desired_present_time_ns,
            vk_present_mode: self.vk_present_mode,
        }
    }
}

/// Per-surface protocol state.
#[derive(Clone, Debug, PartialEq, Eq)]
pub struct SwapchainState {
    feedback: Option<SwapchainFeedback>,
    present_id: Option<u32>,
    desired_present_time_ns: u64,
    vk_present_mode: Option<u32>,
}

impl View for SwapchainState {
    type V = CommitMetadata;

    /// What the next commit takes with it.
    closed spec fn view(&self) -> CommitMetadata {
        CommitMetadata {
            feedback: self.feedback,
            present_id: self.present_id,
            desired_present_time_ns: self.desired_present_time_ns,
            vk_present_mode: self.vk_present_mode,
        }
    }
}

/// A state in which nothing but the feedback is set.
pub open spec fn only_feedback(feedback: Option<SwapchainFeedback>) -> CommitMetadata {
    CommitMetadata {
        feedback,
        present_id: None,
        desired_present_time_ns: 0,
        vk_present_mode: None,
    }
}

impl Default for SwapchainState {
    fn default() -> (state: Self)
        ensures
            state@ == only_feedback(None),
    {
        Self {
            feedback: None,
            present_id: None,
            desired_present_time_ns: 0,
            vk_present_mode: None,
        }
    }
}

impl SwapchainState {
    /// Replace the persistent Vulkan feedback.
    pub fn set_feedback(&mut self, feedback: SwapchainFeedback)
        ensures
            final(self)@ == (CommitMetadata { feedback: Some(feedback), ..old(self)@ }),
    {
        self.feedback = Some(feedback);
    }

    /// Current persistent feedback.
    #[must_use]
    pub fn feedback(&self) -> (feedback: Option<&SwapchainFeedback>)
        ensures
            feedback == (match self@.feedback {
                Some(feedback) => Some(&feedback),
                None => None,
            }),
    {
        self.feedback.as_ref()
    }

    /// Store HDR metadata in the current feedback object.
    pub fn set_hdr_metadata(&mut self, metadata: HdrMetadata) -> (result: SetHdrMetadataResult)
        ensures
            match old(self)@.feedback {
                None => {
                    &&& result == SetHdrMetadataResult::MissingSwapchainFeedback
                    &&& final(self)@ == old(self)@
                },
                Some(feedback) => if metadata.accepted() {
                    &&& result == SetHdrMetadataResult::Stored
                    &&& final(self)@ == (CommitMetadata {
                        feedback: Some(
                            SwapchainFeedback { hdr_metadata: Some(metadata), ..feedback },
                        ),
                        ..old(self)@
                    })
                } else {
                    &&& result == SetHdrMetadataResult::DiscardedInvalid
                    &&& final(self)@ == old(self)@
                },
            },
    {
        match self.feedback.take() {
            None => SetHdrMetadataResult::MissingSwapchainFeedback,
            Some(mut feedback) => {
                if metadata.is_accepted_by_gamescope() {
                    feedback.hdr_metadata = Some(metadata);
                    self.feedback = Some(feedback);
                    SetHdrMetadataResult::Stored
                } else {
                    self.feedback = Some(feedback);
                    SetHdrMetadataResult::DiscardedInvalid
                }
            },
        }
    }

    /// Set the raw `VkPresentModeKHR` value for the next commit.
    pub fn set_present_mode(&mut self, vk_present_mode: u32)
        ensures
            final(self)@ == (CommitMetadata {
                vk_present_mode: Some(vk_present_mode),
                ..old(self)@
            }),
    {
        self.vk_present_mode = Some(vk_present_mode);
    }

    /// Set the ID and desired monotonic presentation time for the next commit.
    pub fn set_present_time(&mut self, present_id: u32, high: u32, low: u32)
        ensures
            final(self)@ == (CommitMetadata {
                present_id: Some(present_id),
                desired_present_time_ns: wire::word_value(high, low) as u64,
                ..old(self)@
            }),
    {
        self.present_id = Some(present_id);
        self.desired_present_time_ns = join_u64(high, low);
    }

    /// Snapshot commit metadata and reset one-shot fields.
    ///
    /// Swapchain feedback, including accepted HDR metadata, intentionally
    /// persists. Present ID, desired time, and present mode are one-shot.
    pub fn prepare_commit(&mut self) -> (metadata: CommitMetadata)
        ensures
            metadata == old(self)@,
            final(self)@ == only_feedback(old(self)@.feedback),
    {
        let metadata = CommitMetadata {
            feedback: match &self.feedback {
                Some(feedback) => Some(feedback.clone()),
                None => None,
            },
            present_id: self.present_id,
            desired_present_time_ns: self.desired_present_time_ns,
            vk_present_mode: self.vk_present_mode,
        };
        self.present_id = None;
        self.desired_present_time_ns = 0;
        self.vk_present_mode = None;
        metadata
    }
}

/// What is left for the second of two commits in a row: the feedback that the first one
/// carried, with its HDR metadata, and none of the one-shot fields.
pub proof fn lemma_commit_consumes_one_shot_fields(first: CommitMetadata)
    ensures
        ({
            let second = only_feedback(first.feedback);
            &&& second.feedback == first.feedback
            &&& second.present_id is None
            &&& second.desired_present_time_ns == 0
            &&& second.vk_present_mode is None
            &&& only_feedback(second.feedback) == second
        }),
{
}

/// Fields for `gamescope_swapchain.past_present_timing`, in XML argument order.
#[derive(Clone, Copy, Debug, PartialEq, Eq, Structural)]
pub struct PastPresentTiming {
    pub present_id: u32,
    pub desired_present_time_ns: u64,
    pub actual_present_time_ns: u64,
    pub earliest_present_time_ns: u64,
    pub present_margin_ns: u64,
}

impl PastPresentTiming {
    /// Convert to the four pairs of high and low words expected by the wire event.
    #[must_use]
    pub fn wire_time_words(self) -> (words: [(u32, u32); 4])
        ensures
            wire::word_value(words@[0].0, words@[0].1) == self.desired_present_time_ns,
            wire::word_value(words@[1].0, words@[1].1) == self.actual_present_time_ns,
            wire::word_value(words@[2].0, words@[2].1) == self.earliest_present_time_ns,
            wire::word_value(words@[3].0, words@[3].1) == self.present_margin_ns,
    {
        [
            split_u64(self.desired_present_time_ns),
            split_u64(self.actual_present_time_ns),
            split_u64(self.earliest_present_time_ns),
            split_u64(self.present_margin_ns),
        ]
    }
}

/// HDR metadata is taken when it says how bright the content is and where its white is; with
/// any of the three missing it is not.
pub proof fn lemma_complete_metadata_is_accepted(metadata: HdrMetadata)
    ensures
        metadata.max_cll == 0 ==> !metadata.accepted(),
        metadata.max_fall == 0 ==> !metadata.accepted(),
        metadata.white_point.x == 0 && metadata.white_point.y == 0 ==> !metadata.accepted(),
        metadata.max_cll > 0 && metadata.max_fall > 0 && metadata.white_point.x
            + metadata.white_point.y > 0 ==> metadata.accepted(),
{
}

} // verus!
