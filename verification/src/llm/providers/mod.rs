//! The services that can answer.

use vstd::prelude::*;

pub mod openai;
pub mod os3;
pub mod os3_chat;

verus! {

/// The HTTP client that a provider makes its requests with.
#[verifier::external_type_specification]
#[verifier::external_body]
pub struct ExHttpClient(reqwest::Client);

/// A client of the `rig` library: an API, and the HTTP client that it uses.
#[verifier::external_type_specification]
#[verifier::external_body]
#[verifier::reject_recursive_types(Ext)]
#[verifier::reject_recursive_types(H)]
pub struct ExRigClient<Ext, H>(rig::client::Client<Ext, H>);

/// The Chat Completions API of OpenAI.
#[verifier::external_type_specification]
#[verifier::external_body]
pub struct ExCompletionsApi(rig::providers::openai::OpenAICompletionsExt);

/// The Responses API of OpenAI.
#[verifier::external_type_specification]
#[verifier::external_body]
pub struct ExResponsesApi(rig::providers::openai::OpenAIResponsesExt);

/// What `rig` answers when a client cannot be built.
#[verifier::external_type_specification]
#[verifier::external_body]
pub struct ExRigError(rig::http_client::Error);

/// Why a provider could not be set up.
pub enum ProviderError {
    /// No key is set; the text says how to set one.
    MissingApiKey(String),
    /// The client of the service could not be built.
    Client(rig::http_client::Error),
}

} // verus!
