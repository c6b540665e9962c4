//! The choice of a backend that speaks the protocol of OpenAI.

use crate::llm::config::{LlmConfig, LlmProvider};
use crate::llm::providers::ProviderError;
use vstd::prelude::*;

verus! {

/// Where OpenAI itself is reached.
pub const OPENAI_BASE_URL: &'static str = "https://api.openai.com/v1";

/// The parameters, as JSON, that let an answer search the web.
pub const WEB_SEARCH_PARAMS: &'static str = "{\"tools\":[{\"type\":\"web_search\"}]}";

/// Sets up a backend that speaks the protocol of OpenAI.
pub struct OpenAiProvider;

/// What a client sends its requests with, as the client itself tells it.
pub struct Endpoint {
    /// The address that the paths of the API are relative to.
    pub base_url: String,
    /// The value of the authorisation header.
    pub authorization: Vec<u8>,
}

/// A backend to run.
pub enum OpenAiBackend {
    /// One completion for each utterance, without a local agent.
    SingleShot { http: reqwest::Client },
    /// The local agent, over the Chat Completions API.
    Completions { client: rig::providers::openai::CompletionsClient, endpoint: Endpoint },
    /// The local agent, over the Responses API, with the parameters that let an
    /// answer search the web.
    Responses { client: rig::providers::openai::Client, endpoint: Endpoint, params: String },
}

/// Whether a text can stand in a header: no control character but the tab.
pub open spec fn header_safe(text: Seq<char>) -> bool {
    forall|i: int|
        0 <= i < text.len() ==> {
            ||| (#[trigger] text[i] as int) >= 32 && text[i] as int != 127
            ||| text[i] as int == 9
        }
}

/// The authorisation header for a key.
pub open spec fn bearer(key: Seq<char>) -> Seq<u8> {
    vstd::utf8::encode_utf8("Bearer "@ + key)
}

/// The address that `rig` gives its OpenAI clients unless told otherwise, the
/// constant `BASE_URL` of their builder.
#[verifier::external_body]
fn default_address() -> (r: &'static str)
    ensures
        r@ == OPENAI_BASE_URL@,
{
    <rig::providers::openai::OpenAICompletionsExtBuilder as rig::client::ProviderBuilder>::BASE_URL
}

/// The `rig` builder of a Chat Completions client for a key, an address and an
/// HTTP client, and what the client it builds says of itself (`headers` and
/// `base_url`). Building fails exactly if the key cannot stand in a header.
/// Nothing is stated of the HTTP client, which is opaque.
#[verifier::external_body]
fn completions_client(api_key: &str, base_url: &str, http: reqwest::Client) -> (r: Result<
    (rig::providers::openai::CompletionsClient, Endpoint),
    rig::http_client::Error,
>)
    ensures
        r is Ok <==> header_safe(api_key@),
        r matches Ok((_, e)) ==> e.base_url@ == base_url@ && e.authorization@ == bearer(api_key@),
{
    let builder = rig::providers::openai::CompletionsClient::builder().api_key(api_key);
    let client = builder.http_client(http).base_url(base_url).build()?;
    let sent = client.headers().get(reqwest::header::AUTHORIZATION);
    let authorization = sent.map(|value| value.as_bytes().to_vec()).unwrap_or_default();
    let base_url = client.base_url().to_owned();
    Ok((client, Endpoint { base_url, authorization }))
}

/// As `completions_client`, and then `responses_api` of the client, which
/// changes nothing but the API that it speaks.
#[verifier::external_body]
fn responses_client(api_key: &str, base_url: &str, http: reqwest::Client) -> (r: Result<
    (rig::providers::openai::Client, Endpoint),
    rig::http_client::Error,
>)
    ensures
        r is Ok <==> header_safe(api_key@),
        r matches Ok((_, e)) ==> e.base_url@ == base_url@ && e.authorization@ == bearer(api_key@),
{
    let builder = rig::providers::openai::CompletionsClient::builder().api_key(api_key);
    let client = builder.http_client(http).base_url(base_url).build()?.responses_api();
    let sent = client.headers().get(reqwest::header::AUTHORIZATION);
    let authorization = sent.map(|value| value.as_bytes().to_vec()).unwrap_or_default();
    let base_url = client.base_url().to_owned();
    Ok((client, Endpoint { base_url, authorization }))
}

/// Whether `client` is a Chat Completions client that `rig` built for a key, an
/// address and an HTTP client, and `endpoint` what that client says of itself.
pub closed spec fn completions_built(
    client: rig::providers::openai::CompletionsClient,
    endpoint: Endpoint,
    key: Seq<char>,
    address: Seq<char>,
    http: reqwest::Client,
) -> bool {
    exists|k: &str, b: &str|
        k@ == key && b@ == address && #[trigger] call_ensures(
            completions_client,
            (k, b, http),
            Ok((client, endpoint)),
        )
}

/// Whether `client` is a Responses client that `rig` built for a key, an address
/// and an HTTP client, and `endpoint` what that client says of itself.
pub closed spec fn responses_built(
    client: rig::providers::openai::Client,
    endpoint: Endpoint,
    key: Seq<char>,
    address: Seq<char>,
    http: reqwest::Client,
) -> bool {
    exists|k: &str, b: &str|
        k@ == key && b@ == address && #[trigger] call_ensures(
            responses_client,
            (k, b, http),
            Ok((client, endpoint)),
        )
}

/// Whether `error` is what `rig` answered when a client for the settings was to
/// be built.
pub closed spec fn build_failed(
    error: rig::http_client::Error,
    web_search: bool,
    key: Seq<char>,
    address: Seq<char>,
    http: reqwest::Client,
) -> bool {
    if web_search {
        exists|k: &str, b: &str|
            k@ == key && b@ == address && #[trigger] call_ensures(
                responses_client,
                (k, b, http),
                Err(error),
            )
    } else {
        exists|k: &str, b: &str|
            k@ == key && b@ == address && #[trigger] call_ensures(
                completions_client,
                (k, b, http),
                Err(error),
            )
    }
}

/// Whether answers search the web: only OpenAI itself has the hosted search.
pub open spec fn searches_web(llm: LlmConfig) -> bool {
    llm.provider == LlmProvider::OpenAi && llm.web_search
}

/// The address in the settings.
pub open spec fn configured_address(llm: LlmConfig) -> Seq<char> {
    match llm.base_url {
        Some(url) => url@,
        None => OPENAI_BASE_URL@,
    }
}

impl OpenAiProvider {
    /// The backend for the settings and the key. Unless the local agent is
    /// wanted, it is the single-shot one, which needs no key here.
    pub fn build(llm: &LlmConfig, api_key: Option<String>, http: reqwest::Client) -> (r: Result<
        OpenAiBackend,
        ProviderError,
    >)
        ensures
            llm.base_url matches Some(url) ==> match r {
                Ok(OpenAiBackend::Completions { endpoint, .. }) => endpoint.base_url@ == url@,
                Ok(OpenAiBackend::Responses { endpoint, .. }) => endpoint.base_url@ == url@,
                _ => true,
            },
            llm.base_url is None ==> match r {
                Ok(OpenAiBackend::Completions { endpoint, .. }) => endpoint.base_url@
                    == "https://api.openai.com/v1"@,
                Ok(OpenAiBackend::Responses { endpoint, .. }) => endpoint.base_url@
                    == "https://api.openai.com/v1"@,
                _ => true,
            },
            !llm.tools_enabled ==> r == Ok::<_, ProviderError>(OpenAiBackend::SingleShot { http }),
            llm.tools_enabled ==> match api_key {
                None => r matches Err(ProviderError::MissingApiKey(message)) && message@
                    == "OpenAI api_key not set; configure OPENAI_API_KEY in the environment or .env, or set llm.api_key in config.toml"@,
                Some(key) => if !header_safe(key@) {
                    r matches Err(ProviderError::Client(error)) && build_failed(
                        error,
                        searches_web(*llm),
                        key@,
                        configured_address(*llm),
                        http,
                    )
                } else if searches_web(*llm) {
                    r matches Ok(OpenAiBackend::Responses { client, endpoint, params })
                        && endpoint.base_url@ == configured_address(*llm)
                        && endpoint.authorization@ == bearer(key@) && params@
                        == WEB_SEARCH_PARAMS@ && responses_built(
                        client,
                        endpoint,
                        key@,
                        configured_address(*llm),
                        http,
                    )
                } else {
                    r matches Ok(OpenAiBackend::Completions { client, endpoint })
                        && endpoint.base_url@ == configured_address(*llm)
                        && endpoint.authorization@ == bearer(key@) && completions_built(
                        client,
                        endpoint,
                        key@,
                        configured_address(*llm),
                        http,
                    )
                },
            },
    {
        if !llm.tools_enabled {
            return Ok(OpenAiBackend::SingleShot { http });
        }
        let key = match api_key {
            None => {
                return Err(
                    ProviderError::MissingApiKey(
                        "OpenAI api_key not set; configure OPENAI_API_KEY in the environment or .env, or set llm.api_key in config.toml".to_owned(),
                    ),
                );
            },
            Some(key) => key,
        };
        let base_url = match &llm.base_url {
            Some(url) => url.as_str(),
            None => default_address(),
        };
        let web_search = llm.provider == LlmProvider::OpenAi && llm.web_search;
        if web_search {
            match responses_client(key.as_str(), base_url, http) {
                Ok((client, endpoint)) => {
                    let params = WEB_SEARCH_PARAMS.to_owned();
                    Ok(OpenAiBackend::Responses { client, endpoint, params })
                },
                Err(e) => Err(ProviderError::Client(e)),
            }
        } else {
            match completions_client(key.as_str(), base_url, http) {
                Ok((client, endpoint)) => Ok(OpenAiBackend::Completions { client, endpoint }),
                Err(e) => Err(ProviderError::Client(e)),
            }
        }
    }
}

/// The address in the settings is used as it stands there, and without one the
/// address of OpenAI itself.
pub proof fn law_configured_address_is_used_as_it_is(llm: LlmConfig)
    ensures
        llm.base_url matches Some(url) ==> configured_address(llm) == url@,
        llm.base_url is None ==> configured_address(llm) == "https://api.openai.com/v1"@,
{
}

/// Answers search the web exactly if the service is OpenAI itself and the
/// settings ask for it.
pub proof fn law_only_openai_itself_searches_the_web(llm: LlmConfig)
    ensures
        searches_web(llm) ==> llm.web_search && llm.provider == LlmProvider::OpenAi,
        llm.web_search && llm.provider == LlmProvider::OpenAi ==> searches_web(llm),
        WEB_SEARCH_PARAMS@ == "{\"tools\":[{\"type\":\"web_search\"}]}"@,
{
}

/// A client that was built for a key and an address says of itself that it uses
/// that address and that key, so two clients that say different things were
/// built for different ones.
pub proof fn law_built_clients_use_what_they_were_built_for(
    completions: rig::providers::openai::CompletionsClient,
    responses: rig::providers::openai::Client,
    endpoint: Endpoint,
    key: Seq<char>,
    address: Seq<char>,
    http: reqwest::Client,
)
    ensures
        completions_built(completions, endpoint, key, address, http) ==> endpoint.base_url@
            == address && endpoint.authorization@ == vstd::utf8::encode_utf8("Bearer "@ + key),
        responses_built(responses, endpoint, key, address, http) ==> endpoint.base_url@ == address
            && endpoint.authorization@ == vstd::utf8::encode_utf8("Bearer "@ + key),
{
    if completions_built(completions, endpoint, key, address, http) {
        let (k, b) = choose|k: &str, b: &str|
            k@ == key && b@ == address && #[trigger] call_ensures(
                completions_client,
                (k, b, http),
                Ok((completions, endpoint)),
            );
        assert(call_ensures(completions_client, (k, b, http), Ok((completions, endpoint))));
    }
    if responses_built(responses, endpoint, key, address, http) {
        let (k, b) = choose|k: &str, b: &str|
            k@ == key && b@ == address && #[trigger] call_ensures(
                responses_client,
                (k, b, http),
                Ok((responses, endpoint)),
            );
        assert(call_ensures(responses_client, (k, b, http), Ok((responses, endpoint))));
    }
}

/// A key fits a header if it holds no control character but the tabulator.
pub proof fn law_control_characters_do_not_fit_a_header(text: Seq<char>, i: int)
    requires
        0 <= i < text.len(),
    ensures
        (text[i] as int) <= 31 && text[i] as int != 9 ==> !header_safe(text),
        text[i] as int == 127 ==> !header_safe(text),
        header_safe(text.remove(i)) && ((text[i] as int) >= 32 && text[i] as int != 127
            || text[i] as int == 9) ==> header_safe(text),
{
    if header_safe(text.remove(i)) {
        assert forall|j: int| 0 <= j < text.len() && j != i implies {
            ||| (#[trigger] text[j] as int) >= 32 && text[j] as int != 127
            ||| text[j] as int == 9
        } by {
            if j < i {
                assert(text.remove(i)[j] == text[j]);
            } else {
                assert(text.remove(i)[j - 1] == text[j]);
            }
        }
    }
}

/// A client that was built is what `rig` answered for that key, that address
/// and that HTTP client, and so is the error of one that was not.
proof fn law_built_clients_come_from_rig(
    completions: rig::providers::openai::CompletionsClient,
    responses: rig::providers::openai::Client,
    endpoint: Endpoint,
    error: rig::http_client::Error,
    key: Seq<char>,
    address: Seq<char>,
    http: reqwest::Client,
)
    ensures
        completions_built(completions, endpoint, key, address, http) ==> exists|k: &str, b: &str|
            k@ == key && b@ == address && #[trigger] call_ensures(
                completions_client,
                (k, b, http),
                Ok((completions, endpoint)),
            ),
        responses_built(responses, endpoint, key, address, http) ==> exists|k: &str, b: &str|
            k@ == key && b@ == address && #[trigger] call_ensures(
                responses_client,
                (k, b, http),
                Ok((responses, endpoint)),
            ),
        build_failed(error, true, key, address, http) ==> exists|k: &str, b: &str|
            k@ == key && b@ == address && #[trigger] call_ensures(
                responses_client,
                (k, b, http),
                Err(error),
            ),
        build_failed(error, false, key, address, http) ==> exists|k: &str, b: &str|
            k@ == key && b@ == address && #[trigger] call_ensures(
                completions_client,
                (k, b, http),
                Err(error),
            ),
{
}

} // verus!
