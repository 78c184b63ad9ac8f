use a2a_rs::json::{to_json_string, JsonValue};
use a2a_rs::transport::openapi::OpenApiBuilder;

fn at<'a>(v: &'a JsonValue, path: &[&str]) -> Option<&'a JsonValue> {
    let mut cur = v;
    for k in path {
        cur = cur.get(k)?;
    }
    Some(cur)
}

fn is_object(v: Option<&JsonValue>) -> bool {
    matches!(v, Some(JsonValue::Object(_)))
}

fn text(v: Option<&JsonValue>) -> Option<&str> {
    v.and_then(|x| x.as_str())
}

#[test]
fn test_openapi_builder() {
    let builder = OpenApiBuilder::new()
        .with_title("Test Service".to_string())
        .with_version("1.0.0".to_string())
        .add_server("http://localhost:8080".to_string(), Some("Local".to_string()))
        .include_health(true);

    let spec = builder.build();

    assert_eq!(text(at(&spec, &["openapi"])), Some("3.0.0"));
    assert_eq!(text(at(&spec, &["info", "title"])), Some("Test Service"));
    assert_eq!(text(at(&spec, &["info", "version"])), Some("1.0.0"));
    assert!(is_object(at(&spec, &["paths", "/health"])));
    assert!(is_object(at(&spec, &["paths", "/ready"])));
    assert!(is_object(at(&spec, &["paths", "/live"])));
    assert!(is_object(at(&spec, &["paths", "/openapi.json"])));
}

#[test]
fn test_openapi_security_schemes() {
    let builder = OpenApiBuilder::new()
        .add_http_security("bearer".to_string(), Some("Bearer auth".to_string()))
        .add_api_key_security("x-api-key".to_string(), "header".to_string(), Some("API key".to_string()));

    let spec = builder.build();

    assert!(is_object(at(&spec, &["components", "securitySchemes", "scheme_0"])));
    assert!(is_object(at(&spec, &["components", "securitySchemes", "scheme_1"])));
    assert_eq!(text(at(&spec, &["components", "securitySchemes", "scheme_0", "bearer_format"])), Some("JWT"));
    assert_eq!(text(at(&spec, &["components", "securitySchemes", "scheme_1", "type"])), Some("apiKey"));
}

#[test]
fn test_openapi_schemas() {
    let builder = OpenApiBuilder::new();
    let spec = builder.build();
    let schemas = at(&spec, &["components", "schemas"]).unwrap();

    assert!(is_object(schemas.get("JSONRPCRequest")));
    assert!(is_object(schemas.get("AgentCard")));
    assert!(is_object(schemas.get("AgentSkill")));
    assert!(is_object(schemas.get("HealthCheckResponse")));
}

#[test]
fn document_without_health_or_spec_paths_and_without_schemes() {
    let spec = OpenApiBuilder::new().include_health(false).include_spec_endpoint(false).build();
    assert!(at(&spec, &["paths", "/health"]).is_none());
    assert!(at(&spec, &["paths", "/openapi.json"]).is_none());
    assert!(is_object(at(&spec, &["paths", "/skills/{id}"])));
    assert_eq!(to_json_string(at(&spec, &["security"]).unwrap()), "[{}]");
    assert_eq!(
        to_json_string(at(&spec, &["info"]).unwrap()),
        "{\"description\":\"Agent-to-Agent (A2A) Protocol v0.3.0 Server Implementation\",\"license\":{\"name\":\"MIT\",\"url\":\"https://opensource.org/licenses/MIT\"},\"title\":\"A2A Protocol Server\",\"version\":\"0.3.0\"}"
    );
    let reqs = OpenApiBuilder::new().add_http_security("basic".to_string(), None).build();
    assert_eq!(to_json_string(at(&reqs, &["security"]).unwrap()), "[{\"scheme_0\":[]}]");
    assert_eq!(
        to_json_string(at(&reqs, &["components", "securitySchemes"]).unwrap()),
        "{\"scheme_0\":{\"scheme\":\"basic\",\"type\":\"http\"}}"
    );
}

#[test]
fn security_schemes_are_listed_in_key_order() {
    let mut b = OpenApiBuilder::new();
    for i in 0..12 {
        b = b.add_api_key_security(format!("key-{}", i), "header".to_string(), None);
    }
    let spec = b.build();
    match at(&spec, &["components", "securitySchemes"]) {
        Some(JsonValue::Object(members)) => {
            let keys: Vec<&str> = members.iter().map(|(k, _)| k.as_str()).collect();
            assert_eq!(
                keys,
                vec![
                    "scheme_0", "scheme_1", "scheme_10", "scheme_11", "scheme_2", "scheme_3", "scheme_4", "scheme_5",
                    "scheme_6", "scheme_7", "scheme_8", "scheme_9"
                ]
            );
        },
        other => panic!("unexpected {:?}", other),
    }
    match at(&spec, &["security"]) {
        Some(JsonValue::Array(reqs)) => assert_eq!(reqs.len(), 12),
        other => panic!("unexpected {:?}", other),
    }
}
