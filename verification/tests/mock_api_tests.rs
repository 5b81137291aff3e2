use gaia::mock_api::{
    approximate_tokens, chat_completion_json, chat_exchange, chat_stream_events,
    completion_exchange, embedding_states, embeddings_request, extract_embedding_inputs,
    extract_last_user_message, extract_prompt, extract_responses_input, extract_text, fnv1a_hash,
    get, is_authorized, normalize_path, route_request, speech_audio, split_for_streaming,
    to_sse_body, transcription_body, HttpMethod, Json, MockApiArgs, MockRoute,
};
use gaia::mock_api::{body_use, id_prefixes, reply, BodyUse, MockReply};

fn s(text: &str) -> Json {
    Json::Str(text.to_owned())
}

fn obj(pairs: Vec<(&str, Json)>) -> Json {
    Json::Obj(pairs.into_iter().map(|(k, v)| (k.to_owned(), v)).collect())
}

fn str_at<'a>(value: &'a Json, key: &str) -> &'a str {
    match get(value, key) {
        Some(Json::Str(t)) => t.as_str(),
        other => panic!("expected a string at {key}, got {:?}", other),
    }
}

fn uint_at(value: &Json, key: &str) -> u64 {
    match get(value, key) {
        Some(Json::UInt(n)) => *n,
        other => panic!("expected a number at {key}, got {:?}", other),
    }
}

fn headers(pairs: &[(&str, &str)]) -> Vec<(String, String)> {
    pairs.iter().map(|(k, v)| (k.to_string(), v.to_string())).collect()
}

#[test]
fn defaults_match_the_command_line() {
    let args = MockApiArgs::defaults();
    assert_eq!(args.host, "0.0.0.0");
    assert_eq!(args.port, 8000);
    assert_eq!(args.model, "Qwen/Qwen2.5-7B-Instruct");
    assert_eq!(args.api_key, "local-key");
}

#[test]
fn paths_drop_the_query() {
    assert_eq!(normalize_path("/v1/models?x=1"), "/v1/models");
    assert_eq!(normalize_path("/health"), "/health");
    assert_eq!(normalize_path("?a"), "");
}

#[test]
fn authorization_needs_the_bearer_key() {
    assert!(is_authorized("", &headers(&[])));
    assert!(is_authorized("k", &headers(&[("authorization", "Bearer k")])));
    assert!(!is_authorized("k", &headers(&[("Authorization", "Bearer other")])));
    assert!(!is_authorized("k", &headers(&[])));
}

#[test]
fn requests_are_routed_by_method_and_path() {
    let auth = headers(&[("Authorization", "Bearer key")]);
    assert!(matches!(route_request(HttpMethod::Options, "/v1/chat/completions", &headers(&[]), "key"), MockRoute::Preflight));
    assert!(matches!(route_request(HttpMethod::Post, "/v1/chat/completions", &headers(&[]), "key"), MockRoute::Unauthorized));
    assert!(matches!(route_request(HttpMethod::Post, "/v1/chat/completions", &auth, "key"), MockRoute::ChatCompletions));
    assert!(matches!(route_request(HttpMethod::Get, "/health?probe=1", &auth, "key"), MockRoute::Health));
    assert!(matches!(route_request(HttpMethod::Get, "/v1/models", &auth, "key"), MockRoute::ModelList));
    match route_request(HttpMethod::Get, "/v1/models/org/model", &auth, "key") {
        MockRoute::ModelInfo(name) => assert_eq!(name, "org/model"),
        other => panic!("unexpected {:?}", other),
    }
    match route_request(HttpMethod::Get, "/v1/responses/resp-1", &auth, "key") {
        MockRoute::StoredResponse(id) => assert_eq!(id, "resp-1"),
        other => panic!("unexpected {:?}", other),
    }
    match route_request(HttpMethod::Get, "/nope", &auth, "key") {
        MockRoute::NotFound(path) => assert_eq!(path, "/nope"),
        other => panic!("unexpected {:?}", other),
    }
    assert!(matches!(route_request(HttpMethod::Post, "/v1/embeddings", &auth, "key"), MockRoute::Embeddings));
    assert!(matches!(route_request(HttpMethod::Post, "/v1/audio/speech", &auth, "key"), MockRoute::AudioSpeech));
}

#[test]
fn message_text_is_read_from_strings_and_parts() {
    assert_eq!(extract_text(&s("hi")), Some("hi".to_owned()));
    let parts = Json::Arr(vec![obj(vec![("type", s("text")), ("text", s("a"))]), s("b")]);
    assert_eq!(extract_text(&parts), Some("a b".to_owned()));
    assert_eq!(extract_text(&Json::Int(3)), None);
}

#[test]
fn the_last_user_message_is_answered() {
    let payload = obj(vec![
        ("model", s("m")),
        (
            "messages",
            Json::Arr(vec![
                obj(vec![("role", s("user")), ("content", s("first"))]),
                obj(vec![("role", s("assistant")), ("content", s("reply"))]),
                obj(vec![("role", s("user")), ("content", s("second"))]),
            ]),
        ),
    ]);
    assert_eq!(extract_last_user_message(&payload), Some("second".to_owned()));
    let exchange = chat_exchange(&payload, "default");
    assert_eq!(exchange.model, "m");
    assert!(!exchange.stream);
    assert_eq!(exchange.output, "(mock) I received: second. This is a simulated answer from Gaia.");

    let empty = obj(vec![("stream", Json::Bool(true))]);
    let exchange = chat_exchange(&empty, "default");
    assert_eq!(exchange.model, "default");
    assert!(exchange.stream);
    assert_eq!(exchange.input, "Hello from Gaia mock mode.");
}

#[test]
fn prompts_and_responses_inputs_are_read() {
    assert_eq!(extract_prompt(&obj(vec![("prompt", s("p"))])), Some("p".to_owned()));
    assert_eq!(extract_prompt(&obj(vec![("prompt", Json::Arr(vec![Json::Int(1), s("q")]))])), Some("q".to_owned()));
    assert_eq!(extract_prompt(&obj(vec![])), None);
    assert_eq!(extract_responses_input(&obj(vec![("input", s("r"))])), Some("r".to_owned()));
    let exchange = completion_exchange(&obj(vec![("prompt", s("p"))]), "d");
    assert_eq!(exchange.input, "p");
}

#[test]
fn chat_completion_body_counts_tokens() {
    let payload = obj(vec![(
        "messages",
        Json::Arr(vec![obj(vec![("role", s("user")), ("content", s("two words"))])]),
    )]);
    let exchange = chat_exchange(&payload, "mock-model");
    let body = chat_completion_json("chatcmpl-1", 42, &exchange);
    assert_eq!(str_at(&body, "object"), "chat.completion");
    assert_eq!(str_at(&body, "id"), "chatcmpl-1");
    assert_eq!(uint_at(&body, "created"), 42);
    let usage = get(&body, "usage").unwrap();
    assert_eq!(uint_at(usage, "prompt_tokens"), 2);
    assert_eq!(uint_at(usage, "completion_tokens"), approximate_tokens(&exchange.output));
    assert_eq!(uint_at(usage, "total_tokens"), 2 + approximate_tokens(&exchange.output));
}

#[test]
fn token_estimates_count_words_with_a_floor_of_one() {
    assert_eq!(approximate_tokens(""), 1);
    assert_eq!(approximate_tokens("   "), 1);
    assert_eq!(approximate_tokens(" one  two\tthree\n"), 3);
}

#[test]
fn streaming_splits_into_eighteen_character_pieces() {
    assert_eq!(split_for_streaming(""), vec![String::new()]);
    let text = "abcdefghijklmnopqrstuvwxyz";
    assert_eq!(split_for_streaming(text), vec!["abcdefghijklmnopqr".to_owned(), "stuvwxyz".to_owned()]);
    let events = chat_stream_events("id", 1, "m", text);
    assert_eq!(events.len(), 4);
}

#[test]
fn sse_bodies_end_with_done() {
    assert_eq!(to_sse_body(&vec![]), "data: [DONE]\n\n");
    assert_eq!(to_sse_body(&vec!["{}".to_owned()]), "data: {}\n\ndata: [DONE]\n\n");
}

#[test]
fn fnv1a_matches_the_reference_values() {
    assert_eq!(fnv1a_hash(b""), 0xcbf29ce484222325);
    assert_eq!(fnv1a_hash(b"a"), 0xaf63dc4c8601ec8c);
}

#[test]
fn embeddings_are_deterministic_per_input() {
    let a = embedding_states("hello", 8);
    let b = embedding_states("hello", 8);
    let c = embedding_states("world", 8);
    assert_eq!(a.len(), 8);
    assert_eq!(a, b);
    assert_ne!(a, c);
    assert!(a.iter().all(|v| *v < (1u32 << 31)));
}

#[test]
fn embedding_inputs_drop_blanks() {
    let payload = obj(vec![("input", Json::Arr(vec![s("a b"), s("  "), Json::Arr(vec![Json::Int(1), Json::Int(2)])]))]);
    assert_eq!(extract_embedding_inputs(&payload), vec!["a b".to_owned(), "  ".to_owned(), "1 2".to_owned()]);
    let request = embeddings_request(&payload, "emb");
    assert_eq!(request.model, "emb");
    assert_eq!(request.inputs, vec!["a b".to_owned(), "1 2".to_owned()]);
    assert_eq!(request.token_count, 4);

    let request = embeddings_request(&obj(vec![]), "emb");
    assert_eq!(request.inputs, vec![String::new()]);
    assert_eq!(request.token_count, 1);
}

#[test]
fn audio_bodies_describe_the_payload() {
    assert_eq!(str_at(&transcription_body(0), "text"), "(mock transcription) empty audio payload.");
    assert_eq!(str_at(&transcription_body(12), "text"), "(mock transcription) received 12 bytes of audio data.");
    assert_eq!(speech_audio(&obj(vec![("input", s("say"))])), "MOCK_MP3:say");
    assert_eq!(speech_audio(&obj(vec![])), "MOCK_MP3:Hello from Gaia mock speech mode.");
}

fn chat_payload(model: &str, content: &str, stream: bool) -> Json {
    obj(vec![
        ("model", s(model)),
        ("messages", Json::Arr(vec![obj(vec![("role", s("user")), ("content", s(content))])])),
        ("stream", Json::Bool(stream)),
    ])
}

#[test]
fn openai_core_contract_holds_for_declared_backends() {
    let api_key = "core-contract-key";
    let auth = headers(&[("Authorization", "Bearer core-contract-key")]);
    let wrong = headers(&[("Authorization", "Bearer wrong-key")]);
    for backend in ["vllm", "tgi", "sglang", "llamacpp", "ollama"] {
        let model_name = format!("gaia-core-contract-{backend}");

        assert!(matches!(
            route_request(HttpMethod::Post, "/v1/chat/completions", &auth, api_key),
            MockRoute::ChatCompletions
        ));
        let exchange = chat_exchange(&chat_payload(&model_name, &format!("healthcheck {backend}"), false), "Qwen/Qwen2.5-7B-Instruct");
        assert!(!exchange.stream);
        let body = chat_completion_json("chatcmpl-contract", 1, &exchange);
        assert_eq!(str_at(&body, "object"), "chat.completion");
        assert_eq!(str_at(&body, "model"), model_name);

        let exchange = chat_exchange(&chat_payload(&model_name, &format!("stream {backend}"), true), "Qwen/Qwen2.5-7B-Instruct");
        assert!(exchange.stream);
        let events: Vec<String> = chat_stream_events("chatcmpl-contract", 1, &exchange.model, &exchange.output)
            .iter()
            .map(|event| format!("{:?}", event))
            .collect();
        let stream_body = to_sse_body(&events);
        assert!(stream_body.contains("[DONE]"));
        assert!(stream_body.ends_with("data: [DONE]\n\n"));

        assert!(matches!(
            route_request(HttpMethod::Post, "/v1/chat/completions", &wrong, api_key),
            MockRoute::Unauthorized
        ));
    }
}

#[test]
fn replies_follow_the_route() {
    let model = "served/model";
    let none: Vec<String> = vec![];
    assert!(matches!(reply(&MockRoute::Preflight, &obj(vec![]), 0, model, 5, &none), Some(MockReply::NoContent)));
    match reply(&MockRoute::Unauthorized, &obj(vec![]), 0, model, 5, &none) {
        Some(MockReply::Json { status, body }) => {
            assert_eq!(status, 401);
            assert_eq!(str_at(get(&body, "error").unwrap(), "message"), "Invalid API key for mock server.");
        }
        _ => panic!("expected a 401 body"),
    }
    match reply(&MockRoute::NotFound("/v1/nope".to_owned()), &obj(vec![]), 0, model, 5, &none) {
        Some(MockReply::Json { status, body }) => {
            assert_eq!(status, 404);
            assert_eq!(str_at(get(&body, "error").unwrap(), "message"), "Unknown mock endpoint: /v1/nope");
        }
        _ => panic!("expected a 404 body"),
    }
    match reply(&MockRoute::AudioTranscriptions, &obj(vec![]), 12, model, 5, &none) {
        Some(MockReply::Json { status, body }) => {
            assert_eq!(status, 200);
            assert_eq!(str_at(&body, "text"), "(mock transcription) received 12 bytes of audio data.");
        }
        _ => panic!("expected a transcription"),
    }
    assert_eq!(body_use(&MockRoute::AudioTranscriptions), BodyUse::Length);
    assert_eq!(body_use(&MockRoute::Health), BodyUse::Ignored);
    assert_eq!(body_use(&MockRoute::ChatCompletions), BodyUse::Payload);
}

#[test]
fn completion_replies_use_the_drawn_ids() {
    assert_eq!(id_prefixes(&MockRoute::ChatCompletions), vec!["chatcmpl"]);
    assert_eq!(id_prefixes(&MockRoute::Responses), vec!["resp", "msg"]);
    assert!(id_prefixes(&MockRoute::Health).is_empty());
    let ids = vec!["chatcmpl-1".to_owned()];
    match reply(&MockRoute::ChatCompletions, &chat_payload("m", "hi", false), 0, "served", 9, &ids) {
        Some(MockReply::Json { status, body }) => {
            assert_eq!(status, 200);
            assert_eq!(str_at(&body, "id"), "chatcmpl-1");
            assert_eq!(uint_at(&body, "created"), 9);
            assert_eq!(str_at(&body, "model"), "m");
        }
        _ => panic!("expected a chat completion"),
    }
    match reply(&MockRoute::ChatCompletions, &chat_payload("m", "hi", true), 0, "served", 9, &ids) {
        Some(MockReply::Events(events)) => assert!(events.len() >= 2),
        _ => panic!("expected a stream"),
    }
    let ids = vec!["resp-1".to_owned(), "msg-1".to_owned()];
    match reply(&MockRoute::Responses, &obj(vec![("input", s("hello"))]), 0, "served", 9, &ids) {
        Some(MockReply::Json { body, .. }) => {
            assert_eq!(str_at(&body, "id"), "resp-1");
            assert_eq!(str_at(&body, "model"), "served");
            assert_eq!(str_at(&body, "output_text"), "(mock response) I received: hello. This is a simulated response.");
        }
        _ => panic!("expected a response object"),
    }
    match reply(&MockRoute::AudioSpeech, &obj(vec![("input", s("say"))]), 0, "served", 9, &vec![]) {
        Some(MockReply::Audio(a)) => assert_eq!(a, "MOCK_MP3:say"),
        _ => panic!("expected audio"),
    }
}
