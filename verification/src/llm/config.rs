//! The settings of the language model service.

use crate::text;
use vstd::prelude::*;

verus! {

/// The service that answers.
#[derive(Clone, Copy, Debug, PartialEq, Eq, Structural)]
pub enum LlmProvider {
    /// OpenAI itself.
    OpenAi,
    /// Another endpoint that speaks the protocol of OpenAI.
    OpenAiCompatible,
    /// Rabbit OS3.
    Os3,
}

/// The settings that the providers read.
pub struct LlmConfig {
    pub provider: LlmProvider,
    pub model: String,
    /// The key of the service; for OS3, the access token.
    pub api_key: Option<String>,
    pub base_url: Option<String>,
    /// Whether answers may search the web.
    pub web_search: bool,
    /// Whether the local agent with its tools is wanted.
    pub tools_enabled: bool,
}

/// Whether `after` is `before` with OS3 as the service and the given access
/// token, and no other change.
pub open spec fn has_os3_token(before: LlmConfig, after: LlmConfig, token: Seq<char>) -> bool {
    &&& after.provider == LlmProvider::Os3
    &&& text::view_of(after.api_key) == Some(token)
    &&& after == (LlmConfig { provider: after.provider, api_key: after.api_key, ..before })
}

impl LlmConfig {
    /// Makes OS3 the service, with the access token of a finished login. No
    /// other setting changes.
    pub fn store_os3_token(&mut self, token: &str)
        ensures
            has_os3_token(*old(self), *final(self), token@),
            final(self).api_key matches Some(key) && key@ == token@,
    {
        self.provider = LlmProvider::Os3;
        self.api_key = Some(token.to_owned());
    }
}

/// Storing a token makes OS3 the service and the token its key, and changes
/// nothing else.
pub proof fn law_storing_a_token_keeps_the_other_settings(
    before: LlmConfig,
    after: LlmConfig,
    token: Seq<char>,
)
    requires
        has_os3_token(before, after, token),
    ensures
        after.provider == LlmProvider::Os3,
        after.api_key matches Some(key) && key@ == token,
        after.model == before.model,
        after.base_url == before.base_url,
        after.web_search == before.web_search,
        after.tools_enabled == before.tools_enabled,
{
}

} // verus!
