use arbstr::proxy::types::{
    ensure_stream_options, ChatCompletionRequest, Message, StreamOptions,
};

fn minimal_request() -> ChatCompletionRequest {
    ChatCompletionRequest {
        model: "gpt-4o".to_string(),
        messages: vec![Message {
            role: "user".to_string(),
            content: "hello".to_string(),
            name: None,
        }],
        temperature_bits: None,
        max_tokens: None,
        stream: Some(true),
        stream_options: None,
        top_p_bits: None,
        frequency_penalty_bits: None,
        presence_penalty_bits: None,
        stop: None,
        user: None,
    }
}

#[test]
fn ensure_stream_options_sets_when_none() {
    let mut req = minimal_request();
    assert!(req.stream_options.is_none());

    ensure_stream_options(&mut req);

    let opts = req.stream_options.as_ref().unwrap();
    assert_eq!(opts.include_usage, Some(true));
}

#[test]
fn ensure_stream_options_sets_when_include_usage_is_none() {
    let mut req = minimal_request();
    req.stream_options = Some(StreamOptions {
        include_usage: None,
    });

    ensure_stream_options(&mut req);

    let opts = req.stream_options.as_ref().unwrap();
    assert_eq!(opts.include_usage, Some(true));
}

#[test]
fn ensure_stream_options_preserves_existing_false() {
    let mut req = minimal_request();
    req.stream_options = Some(StreamOptions {
        include_usage: Some(false),
    });

    ensure_stream_options(&mut req);

    let opts = req.stream_options.as_ref().unwrap();
    assert_eq!(opts.include_usage, Some(false));
}

#[test]
fn ensure_stream_options_preserves_existing_true() {
    let mut req = minimal_request();
    req.stream_options = Some(StreamOptions {
        include_usage: Some(true),
    });

    ensure_stream_options(&mut req);

    let opts = req.stream_options.as_ref().unwrap();
    assert_eq!(opts.include_usage, Some(true));
}

#[test]
fn ensure_stream_options_leaves_the_rest_alone() {
    let mut req = minimal_request();
    req.temperature_bits = Some(0.5f32.to_bits());
    req.max_tokens = Some(7);
    ensure_stream_options(&mut req);
    assert_eq!(req.model, "gpt-4o");
    assert_eq!(req.messages.len(), 1);
    assert_eq!(req.temperature_bits.map(f32::from_bits), Some(0.5));
    assert_eq!(req.max_tokens, Some(7));
    assert_eq!(req.stream, Some(true));
}

#[test]
fn user_prompt_is_the_last_user_message() {
    let mut req = minimal_request();
    assert_eq!(req.user_prompt(), Some("hello"));
    req.messages.push(Message {
        role: "assistant".to_string(),
        content: "hi".to_string(),
        name: None,
    });
    req.messages.push(Message {
        role: "user".to_string(),
        content: "again".to_string(),
        name: None,
    });
    req.messages.push(Message {
        role: "system".to_string(),
        content: "note".to_string(),
        name: None,
    });
    assert_eq!(req.user_prompt(), Some("again"));
    req.messages.clear();
    assert_eq!(req.user_prompt(), None);
    assert!(req.is_streaming());
    req.stream = None;
    assert!(!req.is_streaming());
}

#[test]
fn streaming_request_gets_stream_options_injected() {
    let mut request = ChatCompletionRequest {
        model: "gpt-4o".to_string(),
        messages: vec![Message {
            role: "user".to_string(),
            content: "Write a poem".to_string(),
            name: None,
        }],
        temperature_bits: None,
        max_tokens: None,
        stream: Some(true),
        stream_options: None,
        top_p_bits: None,
        frequency_penalty_bits: None,
        presence_penalty_bits: None,
        stop: None,
        user: None,
    };

    ensure_stream_options(&mut request);

    assert_eq!(
        request.stream_options,
        Some(StreamOptions {
            include_usage: Some(true)
        })
    );
}

#[test]
fn client_stream_options_preserved_on_merge() {
    let mut request = ChatCompletionRequest {
        model: "gpt-4o".to_string(),
        messages: vec![Message {
            role: "user".to_string(),
            content: "Hello".to_string(),
            name: None,
        }],
        temperature_bits: None,
        max_tokens: None,
        stream: Some(true),
        stream_options: Some(StreamOptions {
            include_usage: Some(false),
        }),
        top_p_bits: None,
        frequency_penalty_bits: None,
        presence_penalty_bits: None,
        stop: None,
        user: None,
    };

    ensure_stream_options(&mut request);

    let opts = request.stream_options.as_ref().unwrap();
    assert_eq!(opts.include_usage, Some(false));
}
