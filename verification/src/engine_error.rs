//! Errors of the engine.

use vstd::prelude::*;

use vstd::std_specs::convert::FromSpecImpl;

use crate::error::LaunchError;
use crate::text::{decimal, push_decimal, push_text};

verus! {

/// What stops the engine.
#[derive(Debug, Clone, PartialEq, Eq)]
pub enum EngineError {
    /// A device call failed.
    Launch(LaunchError),
    /// The model's configuration was refused, in words.
    Arch(String),
    /// Reading the model failed, in words.
    Io(String),
    /// The model's data, or a request, is malformed, in words.
    Sts(String),
    /// A tensor is missing.
    MissingTensor(String),
    /// A tensor has another shape than the configuration says.
    WeightShape(String),
    /// A tensor has an element type that is not supported.
    UnsupportedDtype(String),
    /// A token has no embedding row.
    EmbeddingOov(u32),
    /// Every logit is NaN.
    NaNLogits,
}

/// The text of an error, where `launch` is the text of its failed device call.
pub open spec fn message_of(e: EngineError, launch: Seq<char>) -> Seq<char> {
    match e {
        EngineError::Launch(_) => "launch: "@ + launch,
        EngineError::Arch(s) => "arch: "@ + s@,
        EngineError::Io(s) => "io: "@ + s@,
        EngineError::Sts(s) => "safetensors: "@ + s@,
        EngineError::MissingTensor(s) => "missing tensor: "@ + s@,
        EngineError::WeightShape(s) => "weight shape: "@ + s@,
        EngineError::UnsupportedDtype(s) => "unsupported dtype: "@ + s@,
        EngineError::EmbeddingOov(t) => "embedding OOV token: "@ + decimal(t as nat),
        EngineError::NaNLogits => "logits contain only NaN — refuse to sample"@,
    }
}

fn joined(head: &str, tail: &str) -> (s: String)
    ensures
        s@ == head@ + tail@,
{
    let mut s = head.to_owned();
    push_text(&mut s, tail);
    s
}

impl EngineError {
    /// The text of the error; `launch` is the text of a failed device call.
    pub fn message(&self, launch: &str) -> (s: String)
        ensures
            s@ == message_of(*self, launch@),
    {
        match self {
            EngineError::Launch(_) => joined("launch: ", launch),
            EngineError::Arch(t) => joined("arch: ", t.as_str()),
            EngineError::Io(t) => joined("io: ", t.as_str()),
            EngineError::Sts(t) => joined("safetensors: ", t.as_str()),
            EngineError::MissingTensor(t) => joined("missing tensor: ", t.as_str()),
            EngineError::WeightShape(t) => joined("weight shape: ", t.as_str()),
            EngineError::UnsupportedDtype(t) => joined("unsupported dtype: ", t.as_str()),
            EngineError::EmbeddingOov(t) => {
                let mut s = "embedding OOV token: ".to_owned();
                push_decimal(&mut s, *t as u64);
                s
            },
            EngineError::NaNLogits => "logits contain only NaN — refuse to sample".to_owned(),
        }
    }
}

impl From<LaunchError> for EngineError {
    fn from(e: LaunchError) -> (r: Self) {
        EngineError::Launch(e)
    }
}

impl FromSpecImpl<LaunchError> for EngineError {
    open spec fn obeys_from_spec() -> bool {
        true
    }

    open spec fn from_spec(e: LaunchError) -> Self {
        EngineError::Launch(e)
    }
}

/// What an error says, its texts taken by value.
pub enum ErrorV {
    Launch(LaunchError),
    Arch(Seq<char>),
    Io(Seq<char>),
    Sts(Seq<char>),
    MissingTensor(Seq<char>),
    WeightShape(Seq<char>),
    UnsupportedDtype(Seq<char>),
    EmbeddingOov(u32),
    NaNLogits,
}

impl View for EngineError {
    type V = ErrorV;

    open spec fn view(&self) -> ErrorV {
        match self {
            EngineError::Launch(e) => ErrorV::Launch(*e),
            EngineError::Arch(s) => ErrorV::Arch(s@),
            EngineError::Io(s) => ErrorV::Io(s@),
            EngineError::Sts(s) => ErrorV::Sts(s@),
            EngineError::MissingTensor(s) => ErrorV::MissingTensor(s@),
            EngineError::WeightShape(s) => ErrorV::WeightShape(s@),
            EngineError::UnsupportedDtype(s) => ErrorV::UnsupportedDtype(s@),
            EngineError::EmbeddingOov(t) => ErrorV::EmbeddingOov(*t),
            EngineError::NaNLogits => ErrorV::NaNLogits,
        }
    }
}

} // verus!
