use jina::embeddings::input_shape;
use jina::json::{get_field, parse_json};
use jina::{
    ConstructionError, Doc, DocumentType, EmbeddingsInput, EmbeddingsModel, EmbeddingsRequest,
    ImageDoc, InputShape, Jina, JinaError, QueryType, ReaderRequest, ReaderReturnFormat,
    RerankRequest, RerankerModel, TextDoc,
};

fn test_client() -> Jina {
    Jina::builder()
        .with_api_key("test-key")
        .with_base_url("http://mock.test")
        .build(None)
        .unwrap()
}

fn has_header(headers: &[(String, String)], name: &str, value: &str) -> bool {
    headers.iter().any(|(n, v)| n == name && v == value)
}

#[test]
fn test_embeddings() {
    let client = test_client();
    let request = EmbeddingsRequest {
        model: EmbeddingsModel::ClipV1,
        input: EmbeddingsInput::String("Hello, world!".to_string()),
        embedding_type: None,
        normalized: None,
    };
    let prepared = client.embeddings(&request).unwrap();
    assert_eq!(prepared.method, "POST");
    assert_eq!(prepared.url, "http://mock.test/v1/embeddings");
    assert!(has_header(&prepared.headers, "Authorization", "Bearer test-key"));
    assert!(has_header(&prepared.headers, "Content-Type", "application/json"));
    assert_eq!(
        prepared.body,
        "{\"model\":\"jina-clip-v1\",\"input\":\"Hello, world!\"}"
    );

    let body = r#"
                {
                    "model": "test-model",
                    "data": [
                        {
                            "index": 0,
                            "embedding": [0.1, 0.2, 0.3],
                            "object": "embedding"
                        }
                    ],
                    "usage": {
                        "total_tokens": 3,
                        "prompt_tokens": 3
                    }
                }
            "#;
    let response = Jina::embeddings_response(200, body).unwrap();
    assert_eq!(response.model, "test-model");
    assert_eq!(response.data.len(), 1);
    assert_eq!(response.data[0].index, 0);
    let vector: Vec<f32> = response.data[0]
        .embedding
        .iter()
        .map(|t| t.parse::<f32>().unwrap())
        .collect();
    assert_eq!(vector, vec![0.1, 0.2, 0.3]);
    assert_eq!(response.usage.total_tokens, 3);
}

#[test]
fn test_rerank() {
    let client = test_client();
    let request = RerankRequest {
        model: RerankerModel::ColbertV1En,
        query: QueryType::String("Test query".to_string()),
        documents: DocumentType::Strings(vec!["Relevant document".to_string()]),
        top_n: None,
        return_documents: None,
    };
    let prepared = client.rerank(&request).unwrap();
    assert_eq!(prepared.method, "POST");
    assert_eq!(prepared.url, "http://mock.test/v1/rerank");
    assert!(has_header(&prepared.headers, "Authorization", "Bearer test-key"));
    assert!(has_header(&prepared.headers, "Content-Type", "application/json"));
    assert_eq!(
        prepared.body,
        "{\"model\":\"jina-colbert-v1-en\",\"query\":\"Test query\",\"documents\":[\"Relevant document\"]}"
    );

    let body = r#"
                {
                    "model": "test-model",
                    "results": [
                        {
                            "index": 0,
                            "document": {
                                "text": "Relevant document"
                            },
                            "relevance_score": 0.9
                        }
                    ],
                    "usage": {
                        "total_tokens": 5,
                        "prompt_tokens": 5
                    }
                }
            "#;
    let response = Jina::rerank_response(200, body).unwrap();
    assert_eq!(response.model, "test-model");
    assert_eq!(response.results.len(), 1);
    assert_eq!(response.results[0].index, 0);
    assert_eq!(response.results[0].document.text, "Relevant document");
    assert_eq!(response.results[0].relevance_score.parse::<f32>().unwrap(), 0.9);
    assert_eq!(response.usage.total_tokens, 5);
}

fn shape_of_serialized_input(input: EmbeddingsInput) -> Option<InputShape> {
    let client = test_client();
    let request = EmbeddingsRequest {
        model: EmbeddingsModel::EmbeddingsV2BaseEn,
        input,
        embedding_type: None,
        normalized: None,
    };
    let prepared = client.embeddings(&request).unwrap();
    let document = parse_json(&prepared.body).unwrap();
    let input_value = get_field(&document, "input").unwrap();
    input_shape(input_value)
}

#[test]
fn test_input_shapes_round_trip() {
    assert_eq!(
        shape_of_serialized_input(EmbeddingsInput::String("one".to_string())),
        Some(InputShape::SingleString)
    );
    assert_eq!(
        shape_of_serialized_input(EmbeddingsInput::StringArray(vec![
            "one".to_string(),
            "two".to_string()
        ])),
        Some(InputShape::StringList)
    );
    assert_eq!(
        shape_of_serialized_input(EmbeddingsInput::Doc(Doc::Text(TextDoc {
            text: "one".to_string()
        }))),
        Some(InputShape::SingleDoc)
    );
    assert_eq!(
        shape_of_serialized_input(EmbeddingsInput::DocArray(vec![
            Doc::Text(TextDoc {
                text: "one".to_string()
            }),
            Doc::Image(ImageDoc {
                image: "aGVsbG8=".to_string()
            })
        ])),
        Some(InputShape::DocList)
    );
}

#[test]
fn test_http_error_with_json_payload() {
    let result = Jina::handle_response(429, "{\"detail\":\"rate limited\"}");
    match result {
        Err(JinaError::HttpError(e)) => {
            assert_eq!(e.status, 429);
            assert!(e.payload.is_some());
        }
        other => panic!("expected an HTTP error, got {:?}", other),
    }
}

#[test]
fn test_http_error_with_non_json_payload() {
    let result = Jina::embeddings_response(429, "too many requests");
    match result {
        Err(JinaError::HttpError(e)) => {
            assert_eq!(e.status, 429);
            assert!(e.payload.is_none());
        }
        other => panic!("expected an HTTP error, got {:?}", other),
    }
}

#[test]
fn test_malformed_success_body_is_a_hard_failure() {
    let result = Jina::embeddings_response(200, "not json at all");
    assert!(matches!(result, Err(JinaError::DeserializationError(_))));
    let result = Jina::embeddings_response(200, "{\"model\":\"m\"}");
    assert!(matches!(result, Err(JinaError::DeserializationError(_))));
    let fractional_tokens = r#"{"model":"m","data":[],"usage":{"prompt_tokens":1.5,"total_tokens":2}}"#;
    let result = Jina::embeddings_response(200, fractional_tokens);
    assert!(matches!(result, Err(JinaError::DeserializationError(_))));
}

#[test]
fn test_reader_request_headers_and_body() {
    let client = test_client();
    let request = ReaderRequest {
        url: "https://example.com".to_string(),
        return_format: Some(ReaderReturnFormat::Markdown),
        no_cache: Some(true),
        wait_for_selector: Some("#main".to_string()),
        target_selector: None,
        timeout: Some(30),
        proxy_url: None,
        locale: None,
    };
    let prepared = client.reader(&request).unwrap();
    assert_eq!(prepared.method, "POST");
    assert_eq!(prepared.url, "http://mock.test");
    assert!(has_header(&prepared.headers, "Accept", "application/json"));
    assert!(has_header(&prepared.headers, "X-Wait-For-Selector", "#main"));
    assert!(has_header(&prepared.headers, "X-Return-Format", "markdown"));
    assert!(has_header(&prepared.headers, "X-Timeout", "30"));
    assert!(has_header(&prepared.headers, "X-No-Cache", "true"));
    assert!(!prepared.headers.iter().any(|(n, _)| n == "X-Locale"));
    assert_eq!(prepared.body, "{\"url\":\"https://example.com\"}");
}

#[test]
fn test_reader_rejects_header_unsafe_value() {
    let client = test_client();
    let request = ReaderRequest {
        url: "https://example.com".to_string(),
        return_format: None,
        no_cache: None,
        wait_for_selector: None,
        target_selector: None,
        timeout: None,
        proxy_url: None,
        locale: Some("en\r\nUS".to_string()),
    };
    match client.reader(&request) {
        Err(JinaError::ConstructionError(ConstructionError::InvalidHeaderValue(name))) => {
            assert_eq!(name, "X-Locale");
        }
        other => panic!("expected a construction error, got {:?}", other),
    }
}

#[test]
fn test_header_unsafe_credential_is_rejected() {
    let client = Jina::builder()
        .with_api_key("bad\nkey")
        .build(None)
        .unwrap();
    let request = EmbeddingsRequest {
        model: EmbeddingsModel::ClipV1,
        input: EmbeddingsInput::String("x".to_string()),
        embedding_type: None,
        normalized: None,
    };
    match client.embeddings(&request) {
        Err(JinaError::ConstructionError(ConstructionError::InvalidHeaderValue(name))) => {
            assert_eq!(name, "Authorization");
        }
        other => panic!("expected a construction error, got {:?}", other),
    }
}

#[test]
fn test_missing_credential_fails_construction() {
    match Jina::builder().build(None) {
        Err(JinaError::ConstructionError(ConstructionError::MissingCredential)) => {}
        other => panic!("expected a missing-credential error, got {:?}", other),
    }
}

#[test]
fn test_credential_sources_in_order() {
    let explicit = Jina::builder()
        .with_api_key("explicit")
        .build(Some("fallback".to_string()))
        .unwrap();
    assert_eq!(explicit.api_key, "explicit");
    let fallback = Jina::builder().build(Some("fallback".to_string())).unwrap();
    assert_eq!(fallback.api_key, "fallback");
    assert_eq!(fallback.base_url, "https://api.jina.ai");
}

#[test]
fn test_rerank_omits_top_n_when_absent() {
    let client = test_client();
    let documents: Vec<String> = vec!["a", "b", "c", "d", "e"]
        .into_iter()
        .map(|s| s.to_string())
        .collect();
    let request = RerankRequest {
        model: RerankerModel::RerankerV1TurboEn,
        query: QueryType::String("q".to_string()),
        documents: DocumentType::Strings(documents),
        top_n: None,
        return_documents: None,
    };
    let prepared = client.rerank(&request).unwrap();
    assert!(!prepared.body.contains("top_n"));
    assert_eq!(
        prepared.body,
        "{\"model\":\"jina-reranker-v1-turbo-en\",\"query\":\"q\",\"documents\":[\"a\",\"b\",\"c\",\"d\",\"e\"]}"
    );
}

#[test]
fn test_rerank_forwards_options_verbatim() {
    let client = test_client();
    let request = RerankRequest {
        model: RerankerModel::RerankerV2BaseMultilingual,
        query: QueryType::TextDoc(TextDoc {
            text: "q".to_string(),
        }),
        documents: DocumentType::TextDocs(vec![TextDoc {
            text: "d".to_string(),
        }]),
        top_n: Some(12345),
        return_documents: Some(false),
    };
    let prepared = client.rerank(&request).unwrap();
    assert!(prepared.body.contains("\"top_n\":12345"));
    assert!(prepared.body.contains("\"return_documents\":false"));
    assert!(prepared.body.contains("\"query\":{\"text\":\"q\"}"));
}

#[test]
fn test_embeddings_options_serialize() {
    let client = test_client();
    let request = EmbeddingsRequest {
        model: EmbeddingsModel::EmbeddingsV2BaseCode,
        input: EmbeddingsInput::StringArray(vec!["fn main() {}".to_string()]),
        embedding_type: Some(jina::EmbeddingType::Multiple(vec![
            jina::EmbeddingTypeEnum::Float,
            jina::EmbeddingTypeEnum::Ubinary,
        ])),
        normalized: Some(true),
    };
    let prepared = client.embeddings(&request).unwrap();
    assert_eq!(
        prepared.body,
        "{\"model\":\"jina-embeddings-v2-base-code\",\"input\":[\"fn main() {}\"],\"embedding_type\":[\"float\",\"ubinary\"],\"normalized\":true}"
    );
}

#[test]
fn test_string_escaping_round_trips() {
    let client = test_client();
    let tricky = "quote \" backslash \\ newline \n tab \t unicode \u{7}";
    let request = EmbeddingsRequest {
        model: EmbeddingsModel::ClipV1,
        input: EmbeddingsInput::String(tricky.to_string()),
        embedding_type: None,
        normalized: None,
    };
    let prepared = client.embeddings(&request).unwrap();
    let value: serde_json::Value = serde_json::from_str(&prepared.body).unwrap();
    assert_eq!(value["input"].as_str().unwrap(), tricky);
}

#[test]
fn test_return_format_names() {
    assert_eq!(ReaderReturnFormat::Default.as_str(), "default");
    assert_eq!(ReaderReturnFormat::Markdown.as_str(), "markdown");
    assert_eq!(ReaderReturnFormat::Html.as_str(), "html");
    assert_eq!(ReaderReturnFormat::Text.as_str(), "text");
    assert_eq!(ReaderReturnFormat::Screenshot.as_str(), "screenshot");
    assert_eq!(ReaderReturnFormat::Pageshot.as_str(), "pageshot");
    assert_eq!(
        ReaderReturnFormat::try_from("MARKDOWN").unwrap(),
        ReaderReturnFormat::Markdown
    );
    assert_eq!(
        ReaderReturnFormat::try_from("Pageshot").unwrap(),
        ReaderReturnFormat::Pageshot
    );
    assert!(matches!(
        ReaderReturnFormat::try_from("bogus"),
        Err(JinaError::ConstructionError(
            ConstructionError::InvalidReturnFormat
        ))
    ));
}

#[test]
fn test_reader_response_decodes() {
    let body = r#"
        {
            "code": 200,
            "status": 20000,
            "data": {
                "content": "Hello there",
                "description": "a greeting",
                "title": "Greeting",
                "url": "https://example.com",
                "usage": { "tokens": 42 }
            }
        }
    "#;
    let response = Jina::reader_response(200, body).unwrap();
    assert_eq!(response.code, 200);
    assert_eq!(response.status, 20000);
    assert_eq!(response.data.content, "Hello there");
    assert_eq!(response.data.title, "Greeting");
    assert_eq!(response.data.usage.tokens, 42);
}

#[test]
fn test_overlong_integer_is_refused() {
    let body = r#"
        {
            "model": "m",
            "data": [
                {
                    "index": 10000000000000000000000,
                    "embedding": [0.1],
                    "object": "embedding"
                }
            ],
            "usage": { "total_tokens": 1, "prompt_tokens": 1 }
        }
    "#;
    let result = Jina::embeddings_response(200, body);
    assert!(matches!(result, Err(JinaError::DeserializationError(_))));
}

#[test]
fn test_return_format_round_trips_through_its_name() {
    let formats = [
        ReaderReturnFormat::Default,
        ReaderReturnFormat::Markdown,
        ReaderReturnFormat::Html,
        ReaderReturnFormat::Text,
        ReaderReturnFormat::Screenshot,
        ReaderReturnFormat::Pageshot,
    ];
    for format in formats {
        assert_eq!(ReaderReturnFormat::try_from(format.as_str()).unwrap(), format);
    }
}
