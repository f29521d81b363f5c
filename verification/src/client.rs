//! The client of the Messages endpoint: which providers it serves, and where it sends requests.

use crate::models::{ApiError, ApiErrorView};
use http::{HeaderMap, HeaderValue};
use vstd::prelude::*;

verus! {

/// The protocol that a provider speaks.
#[derive(Debug, Clone, Copy, PartialEq, Eq, Structural)]
pub enum WireApi {
    Responses,
    Chat,
    AnthropicMessages,
}

/// When and how often a request is tried again.
#[derive(Debug, Clone, Copy, PartialEq, Eq, Structural)]
pub struct RetryConfig {
    /// How often a request may be tried in all.
    pub max_attempts: u64,
    /// How long to wait before it is tried again.
    pub base_delay_ms: u64,
    pub retry_429: bool,
    pub retry_5xx: bool,
    pub retry_transport: bool,
}

/// How an attempt at a request failed.
#[derive(Debug, Clone, Copy, PartialEq, Eq, Structural)]
pub enum RequestFailure {
    /// The server answered with this status.
    Status(u16),
    /// The server could not be reached, or did not answer in time.
    Transport,
    /// The request could not be made.
    Other,
}

impl RetryConfig {
    /// Whether a failure is of a kind that may pass, and after which a request is to be tried again.
    pub open spec fn is_transient(&self, failure: RequestFailure) -> bool {
        match failure {
            RequestFailure::Status(code) => {
                ||| code == 429 && self.retry_429
                ||| 500 <= code < 600 && self.retry_5xx
            },
            RequestFailure::Transport => self.retry_transport,
            RequestFailure::Other => false,
        }
    }

    /// Whether a request whose last attempt failed, the last of so many, is to be tried again.
    pub fn should_retry(&self, attempts: u64, failure: RequestFailure) -> (r: bool)
        ensures
            r == (attempts < self.max_attempts && self.is_transient(failure)),
    {
        let transient: bool = match failure {
            RequestFailure::Status(code) => {
                (code == 429 && self.retry_429) || (500 <= code && code < 600 && self.retry_5xx)
            },
            RequestFailure::Transport => self.retry_transport,
            RequestFailure::Other => false,
        };
        attempts < self.max_attempts && transient
    }
}

/// Where requests go.
#[derive(Debug)]
pub struct Provider {
    pub name: String,
    pub base_url: String,
    pub query_params: Option<Vec<(String, String)>>,
    pub wire: WireApi,
    pub headers: HeaderMap<HeaderValue>,
    pub retry: RetryConfig,
    pub stream_idle_timeout_ms: u64,
}

/// A client of a provider that speaks the Messages protocol.
pub struct AnthropicMessagesClient<T, A> {
    transport: T,
    provider: Provider,
    auth: A,
}

impl<T, A> AnthropicMessagesClient<T, A> {
    /// Only a provider that speaks the Messages protocol has a client.
    #[verifier::type_invariant]
    closed spec fn speaks_messages(self) -> bool {
        self.provider.wire == WireApi::AnthropicMessages
    }

    pub closed spec fn spec_transport(&self) -> T {
        self.transport
    }

    pub closed spec fn spec_provider(&self) -> Provider {
        self.provider
    }

    pub closed spec fn spec_auth(&self) -> A {
        self.auth
    }

    /// Makes the client of a provider, which has to speak the Messages protocol.
    pub fn new(transport: T, provider: Provider, auth: A) -> (r: Result<Self, ApiError>)
        ensures
            match r {
                Ok(client) => {
                    &&& provider.wire == WireApi::AnthropicMessages
                    &&& client.spec_transport() == transport
                    &&& client.spec_provider() == provider
                    &&& client.spec_auth() == auth
                },
                Err(error) => {
                    &&& provider.wire != WireApi::AnthropicMessages
                    &&& error@ == ApiErrorView::Config(
                        "AnthropicMessagesClient requires a provider with AnthropicMessages wire api"@,
                    )
                },
            },
    {
        if provider.wire != WireApi::AnthropicMessages {
            return Err(
                ApiError::Config(
                    "AnthropicMessagesClient requires a provider with AnthropicMessages wire api".to_string(),
                ),
            );
        }
        Ok(AnthropicMessagesClient { transport, provider, auth })
    }

    /// The endpoint's path below the provider's base URL.
    pub fn path(&self) -> (r: &'static str)
        ensures
            r@ == "messages"@,
    {
        "messages"
    }

    /// What carries the client's requests.
    pub fn transport(&self) -> (r: &T)
        ensures
            *r == self.spec_transport(),
    {
        &self.transport
    }

    /// The client's provider, which speaks the Messages protocol.
    pub fn provider(&self) -> (r: &Provider)
        ensures
            *r == self.spec_provider(),
            r.wire == WireApi::AnthropicMessages,
    {
        proof {
            use_type_invariant(self);
        }
        &self.provider
    }

    /// What authorizes the client's requests.
    pub fn auth(&self) -> (r: &A)
        ensures
            *r == self.spec_auth(),
    {
        &self.auth
    }
}

} // verus!
