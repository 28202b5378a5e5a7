//! Selection of the inference wire protocol a caller speaks.

use vstd::prelude::*;

verus! {

/// The two request schemas the HTTP front-end accepts.  Callers choose
/// one through a protocol header; without the header the native schema
/// is assumed.
#[derive(Debug, Clone, PartialEq, Eq)]
pub enum InferenceProtocol {
    OpenAI,
    Galemind,
}

impl Default for InferenceProtocol {
    fn default() -> (r: Self)
        ensures
            r is Galemind,
    {
        InferenceProtocol::Galemind
    }
}

/// Protocol denoted by a (lower-cased) header value: nothing denotes
/// the native schema, known names select theirs, and an unknown name is
/// rejected as unsupported — the front-end words the rejection.
pub open spec fn spec_protocol_for(value: Option<Seq<char>>) -> Option<InferenceProtocol> {
    match value {
        None => Some(InferenceProtocol::Galemind),
        Some(v) => if v == "openai"@ {
            Some(InferenceProtocol::OpenAI)
        } else if v == "galemind"@ {
            Some(InferenceProtocol::Galemind)
        } else {
            None
        },
    }
}

impl InferenceProtocol {
    /// Decides the protocol for a header value, as `spec_protocol_for`
    /// defines it.  The caller lower-cases the header first, as the
    /// front-end has always done.
    pub fn from_header_value(value: Option<&str>) -> (r: Option<InferenceProtocol>)
        ensures
            r == spec_protocol_for(match value {
                Some(v) => Some(v@),
                None => None,
            }),
    {
        match value {
            None => Some(InferenceProtocol::Galemind),
            Some(v) => {
                if crate::inference::str_eq(v, "openai") {
                    Some(InferenceProtocol::OpenAI)
                } else if crate::inference::str_eq(v, "galemind") {
                    Some(InferenceProtocol::Galemind)
                } else {
                    None
                }
            },
        }
    }
}

} // verus!
