//! The catalogue of pretrained model variants a session can be built from.

use vstd::prelude::*;

verus! {

/// The pretrained model variants.
#[derive(Clone, Copy, Debug, PartialEq, Eq, Structural)]
pub enum WhichModel {
    Tiny,
    TinyEn,
    Base,
    BaseEn,
    Small,
    SmallEn,
    Medium,
    MediumEn,
    Large,
    LargeV2,
    LargeV3,
    DistilMediumEn,
    DistilLargeV2,
    DistilLargeV3,
}

/// Whether a variant was trained on more than English.
pub open spec fn spec_is_multilingual(m: WhichModel) -> bool {
    match m {
        WhichModel::Tiny => true,
        WhichModel::Base => true,
        WhichModel::Small => true,
        WhichModel::Medium => true,
        WhichModel::Large => true,
        WhichModel::LargeV2 => true,
        WhichModel::LargeV3 => true,
        WhichModel::DistilLargeV2 => true,
        WhichModel::DistilLargeV3 => true,
        WhichModel::TinyEn => false,
        WhichModel::BaseEn => false,
        WhichModel::SmallEn => false,
        WhichModel::MediumEn => false,
        WhichModel::DistilMediumEn => false,
    }
}

/// The repository/revision table, one pair per variant.
pub open spec fn spec_model_and_revision(m: WhichModel) -> (Seq<char>, Seq<char>) {
    match m {
        WhichModel::Tiny => ("openai/whisper-tiny"@, "main"@),
        WhichModel::TinyEn => ("openai/whisper-tiny.en"@, "refs/pr/15"@),
        WhichModel::Base => ("openai/whisper-base"@, "refs/pr/22"@),
        WhichModel::BaseEn => ("openai/whisper-base.en"@, "refs/pr/13"@),
        WhichModel::Small => ("openai/whisper-small"@, "main"@),
        WhichModel::SmallEn => ("openai/whisper-small.en"@, "refs/pr/10"@),
        WhichModel::Medium => ("openai/whisper-medium"@, "main"@),
        WhichModel::MediumEn => ("openai/whisper-medium.en"@, "main"@),
        WhichModel::Large => ("openai/whisper-large"@, "refs/pr/36"@),
        WhichModel::LargeV2 => ("openai/whisper-large-v2"@, "refs/pr/57"@),
        WhichModel::LargeV3 => ("openai/whisper-large-v3"@, "main"@),
        WhichModel::DistilMediumEn => ("distil-whisper/distil-medium.en"@, "main"@),
        WhichModel::DistilLargeV2 => ("distil-whisper/distil-large-v2"@, "main"@),
        WhichModel::DistilLargeV3 => ("distil-whisper/distil-large-v3"@, "main"@),
    }
}

impl WhichModel {
    /// Whether this variant supports languages beyond English (and so takes
    /// a language token in the priming sequence).
    pub fn is_multilingual(&self) -> (r: bool)
        ensures
            r == spec_is_multilingual(*self),
    {
        match self {
            WhichModel::Tiny
            | WhichModel::Base
            | WhichModel::Small
            | WhichModel::Medium
            | WhichModel::Large
            | WhichModel::LargeV2
            | WhichModel::LargeV3
            | WhichModel::DistilLargeV2
            | WhichModel::DistilLargeV3 => true,
            WhichModel::TinyEn
            | WhichModel::BaseEn
            | WhichModel::SmallEn
            | WhichModel::MediumEn
            | WhichModel::DistilMediumEn => false,
        }
    }

    /// The model repository and revision this variant is published under.
    pub fn model_and_revision(&self) -> (r: (&'static str, &'static str))
        ensures
            (r.0@, r.1@) == spec_model_and_revision(*self),
    {
        match self {
            WhichModel::Tiny => ("openai/whisper-tiny", "main"),
            WhichModel::TinyEn => ("openai/whisper-tiny.en", "refs/pr/15"),
            WhichModel::Base => ("openai/whisper-base", "refs/pr/22"),
            WhichModel::BaseEn => ("openai/whisper-base.en", "refs/pr/13"),
            WhichModel::Small => ("openai/whisper-small", "main"),
            WhichModel::SmallEn => ("openai/whisper-small.en", "refs/pr/10"),
            WhichModel::Medium => ("openai/whisper-medium", "main"),
            WhichModel::MediumEn => ("openai/whisper-medium.en", "main"),
            WhichModel::Large => ("openai/whisper-large", "refs/pr/36"),
            WhichModel::LargeV2 => ("openai/whisper-large-v2", "refs/pr/57"),
            WhichModel::LargeV3 => ("openai/whisper-large-v3", "main"),
            WhichModel::DistilMediumEn => ("distil-whisper/distil-medium.en", "main"),
            WhichModel::DistilLargeV2 => ("distil-whisper/distil-large-v2", "main"),
            WhichModel::DistilLargeV3 => ("distil-whisper/distil-large-v3", "main"),
        }
    }
}

} // verus!
