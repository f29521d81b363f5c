use anthropic_messages::client::{
    AnthropicMessagesClient, Provider, RequestFailure, RetryConfig, WireApi,
};
use anthropic_messages::models::ApiError;
use http::HeaderMap;

struct DummyTransport;

struct DummyAuth;

fn provider(wire: WireApi) -> Provider {
    Provider {
        name: "test".to_string(),
        base_url: "https://example.com/v1".to_string(),
        query_params: None,
        wire,
        headers: HeaderMap::new(),
        retry: RetryConfig {
            max_attempts: 1,
            base_delay_ms: 1,
            retry_429: false,
            retry_5xx: true,
            retry_transport: true,
        },
        stream_idle_timeout_ms: 1000,
    }
}

#[test]
fn anthropic_client_new_with_correct_wire_api() {
    let result =
        AnthropicMessagesClient::new(DummyTransport, provider(WireApi::AnthropicMessages), DummyAuth);
    assert!(result.is_ok(), "expected Ok for AnthropicMessages wire api");
}

#[test]
fn anthropic_client_new_with_wrong_wire_api_responses() {
    let result = AnthropicMessagesClient::new(DummyTransport, provider(WireApi::Responses), DummyAuth);
    assert!(
        matches!(result, Err(ApiError::Config(msg)) if msg.contains("AnthropicMessages wire api")),
        "expected Config error for Responses wire api"
    );
}

#[test]
fn anthropic_client_new_with_wrong_wire_api_chat() {
    let result = AnthropicMessagesClient::new(DummyTransport, provider(WireApi::Chat), DummyAuth);
    assert!(
        matches!(result, Err(ApiError::Config(msg)) if msg.contains("AnthropicMessages wire api")),
        "expected Config error for Chat wire api"
    );
}

#[test]
fn client_keeps_what_it_was_made_of() {
    let client = match AnthropicMessagesClient::new(7, provider(WireApi::AnthropicMessages), "key") {
        Ok(client) => client,
        Err(error) => panic!("unexpected error {error:?}"),
    };
    assert_eq!(*client.transport(), 7);
    assert_eq!(*client.auth(), "key");
    assert_eq!(client.provider().name, "test");
    assert_eq!(client.provider().wire, WireApi::AnthropicMessages);
    assert_eq!(client.path(), "messages");
}

#[test]
fn transient_failures_are_retried() {
    let retry = RetryConfig {
        max_attempts: 3,
        base_delay_ms: 1,
        retry_429: false,
        retry_5xx: true,
        retry_transport: true,
    };
    assert!(retry.should_retry(1, RequestFailure::Status(503)));
    assert!(retry.should_retry(2, RequestFailure::Status(500)));
    assert!(!retry.should_retry(3, RequestFailure::Status(503)));
    assert!(!retry.should_retry(1, RequestFailure::Status(600)));
    assert!(!retry.should_retry(1, RequestFailure::Status(400)));
    assert!(!retry.should_retry(1, RequestFailure::Status(429)));
    assert!(retry.should_retry(1, RequestFailure::Transport));
    assert!(!retry.should_retry(1, RequestFailure::Other));

    let other = RetryConfig { retry_429: true, retry_5xx: false, retry_transport: false, ..retry };
    assert!(other.should_retry(1, RequestFailure::Status(429)));
    assert!(!other.should_retry(1, RequestFailure::Status(503)));
    assert!(!other.should_retry(1, RequestFailure::Transport));
}
