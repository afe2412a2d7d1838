use vstd::prelude::*;

verus! {

/// Failure of a request to the model backend, or of the configuration.
#[derive(Clone, Debug, PartialEq, Eq)]
pub enum LlmError {
    /// The HTTP exchange failed: `status` is the non-success status code, when
    /// one was received, and `detail` the body or the transport's message.
    Transport { status: Option<u16>, detail: String },
    /// A reply or a stream frame was not valid JSON or lacked an expected field.
    Decode { detail: String },
    /// The configuration cannot serve the selected provider.
    Config { detail: String },
}

} // verus!
