//! End-to-end tests of the service facade: construction, tool projection,
//! call preparation under both policies, and response interpretation.

use mcp_pangolin::json::JsonValue;
use mcp_pangolin::service::interpret_response;
use mcp_pangolin::service::transport_error_result;
use mcp_pangolin::service::value_to_string;
use mcp_pangolin::service::PangolinService;
use mcp_pangolin::service::PrepareOutcome;
use mcp_pangolin::service::ServiceError;
use mcp_pangolin::swagger::ParseError;
use mcp_pangolin::swagger::SwaggerSpec;
use mcp_pangolin::types::HttpMethod;

/// Sample OpenAPI spec for testing.
fn sample_spec() -> &'static str {
    r#"{
        "openapi": "3.0.0",
        "info": {"title": "Test Pangolin API", "version": "v1"},
        "servers": [{"url": "/v1"}],
        "paths": {
            "/orgs": {
                "get": {
                    "description": "List all organizations",
                    "tags": ["Organization"],
                    "parameters": [
                        {
                            "name": "limit",
                            "in": "query",
                            "schema": {"type": "integer"}
                        }
                    ],
                    "responses": {}
                }
            },
            "/org": {
                "put": {
                    "description": "Create a new organization",
                    "tags": ["Organization"],
                    "requestBody": {
                        "content": {
                            "application/json": {
                                "schema": {
                                    "type": "object",
                                    "properties": {
                                        "name": {"type": "string"},
                                        "plan": {"type": "string", "enum": ["free", "paid"]}
                                    },
                                    "required": ["name"]
                                }
                            }
                        }
                    },
                    "responses": {}
                }
            },
            "/org/{orgId}": {
                "get": {
                    "description": "Get an organization",
                    "tags": ["Organization"],
                    "parameters": [
                        {
                            "name": "orgId",
                            "in": "path",
                            "required": true,
                            "schema": {"type": "string"}
                        }
                    ],
                    "responses": {}
                },
                "delete": {
                    "description": "Delete an organization",
                    "parameters": [
                        {
                            "name": "orgId",
                            "in": "path",
                            "required": true,
                            "schema": {"type": "string"}
                        }
                    ],
                    "responses": {}
                }
            }
        }
    }"#
}

fn service(read_only: bool) -> PangolinService {
    let spec = SwaggerSpec::from_json(sample_spec()).expect("spec should parse");
    PangolinService::new(
        spec,
        "key123".to_string(),
        "https://api.example.com/v1".to_string(),
        read_only,
    )
    .expect("service should build")
}

#[test]
fn test_dispatch_get_builds_expected_request() {
    let svc = service(false);
    let args = vec![("orgId".to_string(), JsonValue::String("abc".to_string()))];
    match svc.prepare_call("org_by_orgId", &args) {
        PrepareOutcome::Ready(plan) => {
            assert_eq!(plan.method, HttpMethod::Get);
            assert_eq!(plan.url, "https://api.example.com/v1/org/abc");
            assert_eq!(plan.authorization, "Bearer key123");
            assert!(plan.query.is_empty());
            assert!(plan.body.is_none());
        }
        _ => panic!("expected a ready plan"),
    }
}

#[test]
fn test_dispatch_query_and_body_partition() {
    let svc = service(false);
    // Query parameter is stringified; everything else goes to the body.
    let args = vec![("limit".to_string(), JsonValue::Number("10".to_string()))];
    match svc.prepare_call("orgs", &args) {
        PrepareOutcome::Ready(plan) => {
            assert_eq!(plan.query, vec![("limit".to_string(), "10".to_string())]);
            assert!(plan.body.is_none());
        }
        _ => panic!("expected a ready plan"),
    }

    let args = vec![
        ("name".to_string(), JsonValue::String("acme".to_string())),
        ("plan".to_string(), JsonValue::String("free".to_string())),
    ];
    match svc.prepare_call("create_org", &args) {
        PrepareOutcome::Ready(plan) => {
            assert_eq!(plan.method, HttpMethod::Put);
            assert!(plan.query.is_empty());
            match plan.body {
                Some(JsonValue::Object(fields)) => {
                    assert_eq!(fields.len(), 2);
                    assert_eq!(fields[0].0, "name");
                    assert_eq!(fields[0].1, JsonValue::String("acme".to_string()));
                }
                _ => panic!("expected an object body"),
            }
        }
        _ => panic!("expected a ready plan"),
    }
}

#[test]
fn test_dispatch_blocked_in_read_only_mode() {
    let svc = service(true);
    let args = vec![("orgId".to_string(), JsonValue::String("abc".to_string()))];
    match svc.prepare_call("delete_org_by_orgId", &args) {
        PrepareOutcome::Blocked(result) => {
            assert!(result.is_error);
            assert!(result.content.contains("delete_org_by_orgId"));
            assert!(result.content.contains("read-only"));
        }
        _ => panic!("a write operation must be blocked in read-only mode"),
    }
    // A GET under read-only mode still goes through.
    match svc.prepare_call("org_by_orgId", &args) {
        PrepareOutcome::Ready(_) => {}
        _ => panic!("a read operation must pass in read-only mode"),
    }
}

#[test]
fn test_dispatch_unknown_operation() {
    let svc = service(false);
    let args: Vec<(String, JsonValue)> = Vec::new();
    match svc.prepare_call("no_such_tool", &args) {
        PrepareOutcome::UnknownOperation => {}
        _ => panic!("an unknown name must be rejected"),
    }
}

#[test]
fn test_dispatch_missing_required_parameter() {
    let svc = service(false);
    let args: Vec<(String, JsonValue)> = Vec::new();
    match svc.prepare_call("org_by_orgId", &args) {
        PrepareOutcome::MissingRequiredParameter(name) => assert_eq!(name, "orgId"),
        _ => panic!("a missing required path parameter must be rejected"),
    }
}

#[test]
fn test_interpret_success_pretty_prints_verbatim() {
    let r = interpret_response(200, "200 OK", "{\"name\":\"Org\"}");
    assert!(!r.is_error);
    assert_eq!(r.content, "{\n  \"name\": \"Org\"\n}");
}

#[test]
fn test_interpret_empty_success_body() {
    let r = interpret_response(204, "204 No Content", "");
    assert!(!r.is_error);
    assert_eq!(r.content, "{\n  \"status\": \"success\"\n}");
}

#[test]
fn test_interpret_unparsable_success_body() {
    let r = interpret_response(200, "200 OK", "plain text");
    assert!(!r.is_error);
    assert_eq!(r.content, "\"plain text\"");
}

#[test]
fn test_interpret_error_status_message_field() {
    let r = interpret_response(404, "404 Not Found", "{\"message\":\"no such org\"}");
    assert!(r.is_error);
    assert_eq!(r.content, "Pangolin API error (404 Not Found): no such org");
}

#[test]
fn test_interpret_error_status_error_field() {
    let r = interpret_response(500, "500 Internal Server Error", "{\"error\":\"boom\"}");
    assert!(r.is_error);
    assert_eq!(r.content, "Pangolin API error (500 Internal Server Error): boom");
}

#[test]
fn test_interpret_error_status_raw_body() {
    let r = interpret_response(502, "502 Bad Gateway", "upstream gone");
    assert!(r.is_error);
    assert_eq!(r.content, "Pangolin API error (502 Bad Gateway): upstream gone");
}

#[test]
fn test_transport_error_result() {
    let r = transport_error_result("connection refused");
    assert!(r.is_error);
    assert_eq!(r.content, "Error: connection refused");
}

#[test]
fn test_value_to_string_forms() {
    assert_eq!(value_to_string(&JsonValue::String("abc".to_string())), "abc");
    assert_eq!(value_to_string(&JsonValue::Number("3.5".to_string())), "3.5");
    assert_eq!(value_to_string(&JsonValue::Bool(true)), "true");
    assert_eq!(value_to_string(&JsonValue::Bool(false)), "false");
    assert_eq!(value_to_string(&JsonValue::Null), "");
    let arr = JsonValue::Array(vec![
        JsonValue::Number("1".to_string()),
        JsonValue::Number("2".to_string()),
    ]);
    assert_eq!(value_to_string(&arr), "[1,2]");
}

#[test]
fn test_service_rejects_malformed_base_url() {
    let spec = SwaggerSpec::from_json(sample_spec()).expect("spec should parse");
    let r = PangolinService::new(spec, "k".to_string(), "not a url".to_string(), false);
    assert_eq!(r.err(), Some(ServiceError::InvalidBaseUrl));
}

#[test]
fn test_parse_error_variants() {
    match SwaggerSpec::from_json("{ not json").err() {
        Some(ParseError::InvalidJson(detail)) => assert!(!detail.is_empty()),
        other => panic!("expected an invalid-JSON error, got {:?}", other),
    }
    match SwaggerSpec::from_json("[1, 2, 3]").err() {
        Some(ParseError::InvalidDocument(detail)) => {
            assert_eq!(detail, "the document is not a JSON object")
        }
        other => panic!("expected an invalid-document error, got {:?}", other),
    }
    match SwaggerSpec::from_json("{\"openapi\": \"3.0.0\"}").err() {
        Some(ParseError::InvalidDocument(detail)) => {
            assert_eq!(detail, "the `info` block is missing or malformed")
        }
        other => panic!("expected an invalid-document error, got {:?}", other),
    }
    match SwaggerSpec::from_json("{\"info\": {\"title\": \"t\", \"version\": \"v\"}}").err() {
        Some(ParseError::InvalidDocument(detail)) => {
            assert_eq!(detail, "the `openapi` field is missing or not a string")
        }
        other => panic!("expected an invalid-document error, got {:?}", other),
    }
}

#[test]
fn test_parse_error_message_carries_detail() {
    let e = SwaggerSpec::from_json("{\"openapi\": \"3.0.0\"}").err().expect("must fail");
    let msg = e.message();
    assert!(msg.starts_with("Failed to parse swagger JSON: "));
    assert!(msg.contains("`info`"));
    let e = SwaggerSpec::from_json("not json at all").err().expect("must fail");
    let msg = e.message();
    assert!(msg.starts_with("Failed to parse swagger JSON: "));
    assert!(msg.len() > "Failed to parse swagger JSON: ".len());
}

#[test]
fn test_length_bounds_decode() {
    let doc = r#"{
        "openapi": "3.0.0",
        "info": {"title": "t", "version": "v"},
        "paths": {
            "/thing": {
                "post": {
                    "requestBody": {
                        "content": {
                            "application/json": {
                                "schema": {
                                    "type": "object",
                                    "properties": {
                                        "a": {"type": "string", "minLength": 2, "maxLength": 10}
                                    }
                                }
                            }
                        }
                    },
                    "responses": {}
                }
            }
        }
    }"#;
    let spec = SwaggerSpec::from_json(doc).expect("spec should parse");
    let endpoints = spec.extract_endpoints();
    let body = endpoints[0].request_body.as_ref().expect("body should exist");
    let a = &body.properties.iter().find(|(k, _)| k == "a").expect("a").1;
    assert_eq!(a.min_length, Some("2".to_string()));
    assert_eq!(a.max_length, Some("10".to_string()));
}

#[test]
fn test_fractional_length_bound_is_rejected() {
    // An integer field does not accept a fractional bound.
    let doc = r#"{
        "openapi": "3.0.0",
        "info": {"title": "t", "version": "v"},
        "paths": {
            "/thing": {
                "post": {
                    "requestBody": {
                        "content": {
                            "application/json": {
                                "schema": {
                                    "type": "object",
                                    "properties": {
                                        "a": {"type": "string", "minLength": 2.5}
                                    }
                                }
                            }
                        }
                    },
                    "responses": {}
                }
            }
        }
    }"#;
    match SwaggerSpec::from_json(doc).err() {
        Some(ParseError::InvalidDocument(detail)) => {
            assert_eq!(detail, "the `paths` field is missing or malformed")
        }
        other => panic!("expected an invalid-document error, got {:?}", other),
    }
}

#[test]
fn test_envelope_document_is_unwrapped() {
    let enveloped = format!("{{\"swaggerDoc\": {}}}", sample_spec());
    let spec = SwaggerSpec::from_json(&enveloped).expect("enveloped spec should parse");
    assert_eq!(spec.info.title, "Test Pangolin API");
    assert_eq!(spec.get_base_url(), Some("/v1".to_string()));
}

#[test]
fn test_extract_is_idempotent() {
    let spec = SwaggerSpec::from_json(sample_spec()).expect("spec should parse");
    let first = spec.extract_endpoints();
    let second = spec.extract_endpoints();
    assert_eq!(first, second);
}

#[test]
fn test_extract_count_matches_declared_methods() {
    let spec = SwaggerSpec::from_json(sample_spec()).expect("spec should parse");
    // /orgs declares 1 method, /org declares 1, /org/{orgId} declares 2.
    assert_eq!(spec.extract_endpoints().len(), 4);
    let empty = SwaggerSpec::from_json(
        "{\"openapi\": \"3.0.0\", \"info\": {\"title\": \"t\", \"version\": \"v\"}, \"paths\": {}}",
    )
    .expect("empty spec should parse");
    assert_eq!(empty.extract_endpoints().len(), 0);
}

#[test]
fn test_body_fallback_media_type() {
    // With no application/json entry, the first declared media type drives
    // the schema and its name is the recorded content type.
    let doc = r#"{
        "openapi": "3.0.0",
        "info": {"title": "t", "version": "v"},
        "paths": {
            "/thing": {
                "post": {
                    "requestBody": {
                        "content": {
                            "text/xml": {
                                "schema": {
                                    "type": "object",
                                    "properties": {"a": {"type": "string"}},
                                    "required": ["a"]
                                }
                            }
                        }
                    },
                    "responses": {}
                }
            }
        }
    }"#;
    let spec = SwaggerSpec::from_json(doc).expect("spec should parse");
    let endpoints = spec.extract_endpoints();
    let ep = endpoints
        .iter()
        .find(|e| e.name == "update_thing")
        .expect("update_thing should exist");
    let body = ep.request_body.as_ref().expect("body should be extracted");
    assert_eq!(body.content_type, "text/xml");
    assert!(body.properties.iter().any(|(k, _)| k == "a"));
    assert!(body.required.contains(&"a".to_string()));
}

#[test]
fn test_body_prefers_application_json() {
    // application/json wins over an earlier declared media type.
    let doc = r#"{
        "openapi": "3.0.0",
        "info": {"title": "t", "version": "v"},
        "paths": {
            "/thing": {
                "post": {
                    "requestBody": {
                        "content": {
                            "text/xml": {
                                "schema": {
                                    "type": "object",
                                    "properties": {"x": {"type": "string"}}
                                }
                            },
                            "application/json": {
                                "schema": {
                                    "type": "object",
                                    "properties": {"j": {"type": "string"}}
                                }
                            }
                        }
                    },
                    "responses": {}
                }
            }
        }
    }"#;
    let spec = SwaggerSpec::from_json(doc).expect("spec should parse");
    let endpoints = spec.extract_endpoints();
    let ep = endpoints
        .iter()
        .find(|e| e.name == "update_thing")
        .expect("update_thing should exist");
    let body = ep.request_body.as_ref().expect("body should be extracted");
    assert_eq!(body.content_type, "application/json");
    assert!(body.properties.iter().any(|(k, _)| k == "j"));
    assert!(!body.properties.iter().any(|(k, _)| k == "x"));
}

#[test]
fn test_descriptor_required_roundtrip() {
    let svc = service(false);
    let ep = svc.find_endpoint("create_org").expect("create_org should exist");
    let desc = svc.endpoint_to_mcp(ep);
    // The body's declared required names survive into the descriptor,
    // deduplicated.
    assert!(desc.required.contains(&"name".to_string()));
    for i in 0..desc.required.len() {
        for j in (i + 1)..desc.required.len() {
            assert_ne!(desc.required[i], desc.required[j]);
        }
    }
    assert!(desc.description.starts_with("[PUT] "));
    assert!(desc.description.contains("(Tags: Organization)"));
    let name_entry = desc
        .properties
        .iter()
        .find(|(k, _)| k == "name")
        .expect("name property should be present");
    assert_eq!(name_entry.1.json_type, "string");
    let plan_entry = desc
        .properties
        .iter()
        .find(|(k, _)| k == "plan")
        .expect("plan property should be present");
    assert_eq!(
        plan_entry.1.enum_values,
        Some(vec!["free".to_string(), "paid".to_string()])
    );
}

#[test]
fn test_descriptor_includes_required_path_params() {
    let svc = service(false);
    let ep = svc.find_endpoint("org_by_orgId").expect("org_by_orgId should exist");
    let desc = svc.endpoint_to_mcp(ep);
    assert_eq!(desc.name, "org_by_orgId");
    assert!(desc.required.contains(&"orgId".to_string()));
    assert!(desc.properties.iter().any(|(k, _)| k == "orgId"));
}

#[test]
fn test_available_endpoints_and_info() {
    let svc = service(true);
    assert!(svc.is_read_only());
    let available = svc.get_available_endpoints();
    assert_eq!(available.len(), 2);
    for e in &available {
        assert_eq!(e.method, HttpMethod::Get);
    }
    let info = svc.get_info();
    assert_eq!(info.mode, "read-only");
    assert_eq!(info.available_count, 2);
    assert_eq!(info.base_url, "https://api.example.com/v1");
    assert_eq!(info.api_version, "v1");

    let svc = service(false);
    assert!(!svc.is_read_only());
    assert_eq!(svc.get_available_endpoints().len(), 4);
    assert_eq!(svc.get_info().mode, "read-write");
}

#[test]
fn test_list_tools_matches_available() {
    let svc = service(true);
    let tools = svc.list_tools();
    assert_eq!(tools.len(), 2);
    let names: Vec<_> = tools.iter().map(|t| t.name.as_str()).collect();
    assert!(names.contains(&"orgs"));
    assert!(names.contains(&"org_by_orgId"));
}
