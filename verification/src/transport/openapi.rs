//! OpenAPI 3.0 document of the service: its info, servers, security
//! schemes, the paths of the JSON-RPC endpoint, the agent card, skills,
//! health and the document itself, and the component schemas.
//!
//! Objects list their members in key order, as serde_json's map keeps them.
use vstd::prelude::*;
use crate::json::{JsonValue, JsonView, clone_json, items_view, jview, members_view, push_item, push_member};
use crate::text::{dec_of, owned, push_decimal, str_eq};
use crate::strmap::{StrMap, has_key, lemma_pairs_ext, pairs_map, sorted_keys};

verus! {

/// The `info` object of an OpenAPI document.
#[derive(Debug, Clone)]
pub struct OpenApiInfo {
    pub title: String,
    pub version: String,
    pub description: Option<String>,
    pub terms_of_service: Option<String>,
    pub contact: Option<OpenApiContact>,
    pub license: Option<OpenApiLicense>,
}

/// Contact information.
#[derive(Debug, Clone)]
pub struct OpenApiContact {
    pub name: String,
    pub email: Option<String>,
    pub url: Option<String>,
}

/// License information.
#[derive(Debug, Clone)]
pub struct OpenApiLicense {
    pub name: String,
    pub url: Option<String>,
}

/// A server the service is reached at.
#[derive(Debug)]
pub struct OpenApiServer {
    pub url: String,
    pub description: Option<String>,
    pub variables: Option<JsonValue>,
}

/// A security scheme.
#[derive(Debug)]
pub enum OpenApiSecurityScheme {
    Http { scheme: String, bearer_format: Option<String>, description: Option<String> },
    ApiKey { name: String, in_: String, description: Option<String> },
    OAuth2 { flows: JsonValue, description: Option<String> },
    OpenIdConnect { open_id_connect_url: String, description: Option<String> },
}

/// Builder of the service's OpenAPI document.
#[derive(Debug)]
pub struct OpenApiBuilder {
    info: OpenApiInfo,
    servers: Vec<OpenApiServer>,
    security_schemes: Vec<OpenApiSecurityScheme>,
    include_health: bool,
    include_spec_endpoint: bool,
}

/// One member `(k, v)` when `present`, else none.
pub open spec fn opt_member(present: bool, k: Seq<char>, v: JsonView) -> Seq<(Seq<char>, JsonView)> {
    if present { seq![(k, v)] } else { Seq::empty() }
}

/// The text of an optional string (meaningful when present).
pub open spec fn opt_text(o: Option<String>) -> Seq<char> {
    match o {
        Some(s) => s@,
        None => Seq::empty(),
    }
}

/// A contact as JSON.
pub open spec fn contact_json(c: OpenApiContact) -> JsonView {
    JsonView::Object(opt_member(c.email is Some, "email"@, JsonView::Str(opt_text(c.email)))
        + seq![("name"@, JsonView::Str(c.name@))]
        + opt_member(c.url is Some, "url"@, JsonView::Str(opt_text(c.url))))
}

/// A license as JSON.
pub open spec fn license_json(l: OpenApiLicense) -> JsonView {
    JsonView::Object(seq![("name"@, JsonView::Str(l.name@))]
        + opt_member(l.url is Some, "url"@, JsonView::Str(opt_text(l.url))))
}

/// The `info` object as JSON, camel-cased, absent fields left out.
pub open spec fn info_json(i: OpenApiInfo) -> JsonView {
    JsonView::Object(opt_member(i.contact is Some, "contact"@, contact_json(i.contact->0))
        + opt_member(i.description is Some, "description"@, JsonView::Str(opt_text(i.description)))
        + opt_member(i.license is Some, "license"@, license_json(i.license->0))
        + opt_member(i.terms_of_service is Some, "termsOfService"@, JsonView::Str(opt_text(i.terms_of_service)))
        + seq![("title"@, JsonView::Str(i.title@)), ("version"@, JsonView::Str(i.version@))])
}

/// A server as JSON.
pub open spec fn server_json(s: OpenApiServer) -> JsonView {
    JsonView::Object(opt_member(s.description is Some, "description"@, JsonView::Str(opt_text(s.description)))
        + seq![("url"@, JsonView::Str(s.url@))]
        + opt_member(s.variables is Some, "variables"@, jview(s.variables->0)))
}

/// Servers as JSON, in order.
pub open spec fn servers_json(s: Seq<OpenApiServer>) -> Seq<JsonView>
    decreases s.len(),
{
    if s.len() == 0 { Seq::empty() } else { servers_json(s.drop_last()).push(server_json(s.last())) }
}

/// A security scheme as JSON: its fields, and its kind under `type`.
pub open spec fn scheme_json(s: OpenApiSecurityScheme) -> JsonView {
    match s {
        OpenApiSecurityScheme::Http { scheme, bearer_format, description } => JsonView::Object(
            opt_member(bearer_format is Some, "bearer_format"@, JsonView::Str(opt_text(bearer_format)))
                + opt_member(description is Some, "description"@, JsonView::Str(opt_text(description)))
                + seq![("scheme"@, JsonView::Str(scheme@)), ("type"@, JsonView::Str("http"@))]),
        OpenApiSecurityScheme::ApiKey { name, in_, description } => JsonView::Object(
            opt_member(description is Some, "description"@, JsonView::Str(opt_text(description)))
                + seq![("in_"@, JsonView::Str(in_@)), ("name"@, JsonView::Str(name@)), ("type"@, JsonView::Str("apiKey"@))]),
        OpenApiSecurityScheme::OAuth2 { flows, description } => JsonView::Object(
            opt_member(description is Some, "description"@, JsonView::Str(opt_text(description)))
                + seq![("flows"@, jview(flows)), ("type"@, JsonView::Str("oauth2"@))]),
        OpenApiSecurityScheme::OpenIdConnect { open_id_connect_url, description } => JsonView::Object(
            opt_member(description is Some, "description"@, JsonView::Str(opt_text(description)))
                + seq![("open_id_connect_url"@, JsonView::Str(open_id_connect_url@)), ("type"@, JsonView::Str("openIdConnect"@))]),
    }
}

/// The name under which the scheme at `i` is registered.
pub open spec fn scheme_name(i: nat) -> Seq<char> {
    "scheme_"@ + dec_of(i)
}

/// The security schemes by name.
pub open spec fn scheme_map(s: Seq<OpenApiSecurityScheme>) -> Map<Seq<char>, JsonView>
    decreases s.len(),
{
    if s.len() == 0 {
        Map::empty()
    } else {
        scheme_map(s.drop_last()).insert(scheme_name((s.len() - 1) as nat), scheme_json(s.last()))
    }
}

/// The keys of object members.
pub open spec fn member_keys(ms: Seq<(Seq<char>, JsonView)>) -> Seq<Seq<char>> {
    Seq::new(ms.len(), |i: int| ms[i].0)
}

/// The values of object members.
pub open spec fn member_vals(ms: Seq<(Seq<char>, JsonView)>) -> Seq<JsonView> {
    Seq::new(ms.len(), |i: int| ms[i].1)
}

/// `ms` lists the entries of `m`, in strictly increasing key order (the
/// order of serde_json's map).
pub open spec fn sorted_members(ms: Seq<(Seq<char>, JsonView)>, m: Map<Seq<char>, JsonView>) -> bool {
    &&& sorted_keys(member_keys(ms))
    &&& pairs_map(member_keys(ms), member_vals(ms)) == m
}

/// One security requirement per scheme, naming it with no scopes; a single
/// empty requirement (no authentication) when there is no scheme.
pub open spec fn requirements(n: nat) -> Seq<JsonView>
    decreases n,
{
    if n == 0 {
        Seq::empty()
    } else {
        requirements((n - 1) as nat).push(JsonView::Object(seq![(scheme_name((n - 1) as nat), JsonView::Array(Seq::empty()))]))
    }
}

/// The security requirements of the document.
pub open spec fn security_json(n: nat) -> Seq<JsonView> {
    if n == 0 { seq![JsonView::Object(Seq::empty())] } else { requirements(n) }
}

/// The path items: the JSON-RPC endpoint, the agent card and the skills
/// always; health, readiness and liveness when `health`; the document
/// itself when `spec`.
pub open spec fn paths_json(health: bool, spec: bool) -> JsonView {
    JsonView::Object(seq![("/"@, path_root_view()), ("/.well-known/agent-card.json"@, path_agent_card_view())]
        + opt_member(health, "/health"@, path_health_view())
        + opt_member(health, "/live"@, path_live_view())
        + opt_member(spec, "/openapi.json"@, path_spec_view())
        + opt_member(health, "/ready"@, path_ready_view())
        + seq![("/skills"@, path_skills_view()), ("/skills/{id}"@, path_skill_by_id_view())])
}

/// The whole document, with `sec` the members of its security schemes
/// object and `n` the number of schemes.
pub open spec fn openapi_view(info: OpenApiInfo, servers: Seq<OpenApiServer>, sec: Seq<(Seq<char>, JsonView)>, n: nat,
    health: bool, spec: bool) -> JsonView {
    JsonView::Object(Seq::empty()
        .push(("components"@, JsonView::Object(Seq::empty()
            .push(("schemas"@, schemas_view()))
            .push(("securitySchemes"@, JsonView::Object(sec))))))
        .push(("info"@, info_json(info)))
        .push(("openapi"@, JsonView::Str("3.0.0"@)))
        .push(("paths"@, paths_json(health, spec)))
        .push(("security"@, JsonView::Array(security_json(n))))
        .push(("servers"@, JsonView::Array(servers_json(servers)))))
}

/// The `/` path item.
pub open spec fn path_root_view() -> JsonView {
    JsonView::Object(Seq::empty()
        .push(("post"@, JsonView::Object(Seq::empty()
            .push(("description"@, JsonView::Str("Main endpoint for all JSON-RPC 2.0 requests"@)))
            .push(("requestBody"@, JsonView::Object(Seq::empty()
                .push(("content"@, JsonView::Object(Seq::empty()
                    .push(("application/json"@, JsonView::Object(Seq::empty()
                        .push(("schema"@, JsonView::Object(Seq::empty()
                            .push(("oneOf"@, JsonView::Array(Seq::empty()
                                .push(JsonView::Object(Seq::empty()
                                    .push(("$ref"@, JsonView::Str("#/components/schemas/JSONRPCRequest"@)))
                                ))
                                .push(JsonView::Object(Seq::empty()
                                    .push(("$ref"@, JsonView::Str("#/components/schemas/JSONRPCBatchRequest"@)))
                                ))
                            )))
                        )))
                    )))
                )))
                .push(("required"@, JsonView::Bool(true)))
            )))
            .push(("responses"@, JsonView::Object(Seq::empty()
                .push(("200"@, JsonView::Object(Seq::empty()
                    .push(("content"@, JsonView::Object(Seq::empty()
                        .push(("application/json"@, JsonView::Object(Seq::empty()
                            .push(("schema"@, JsonView::Object(Seq::empty()
                                .push(("oneOf"@, JsonView::Array(Seq::empty()
                                    .push(JsonView::Object(Seq::empty()
                                        .push(("$ref"@, JsonView::Str("#/components/schemas/JSONRPCResponse"@)))
                                    ))
                                    .push(JsonView::Object(Seq::empty()
                                        .push(("$ref"@, JsonView::Str("#/components/schemas/JSONRPCBatchResponse"@)))
                                    ))
                                )))
                            )))
                        )))
                    )))
                    .push(("description"@, JsonView::Str("Successful response"@)))
                )))
                .push(("400"@, JsonView::Object(Seq::empty()
                    .push(("content"@, JsonView::Object(Seq::empty()
                        .push(("application/json"@, JsonView::Object(Seq::empty()
                            .push(("schema"@, JsonView::Object(Seq::empty()
                                .push(("$ref"@, JsonView::Str("#/components/schemas/JSONRPCError"@)))
                            )))
                        )))
                    )))
                    .push(("description"@, JsonView::Str("Invalid request"@)))
                )))
            )))
            .push(("summary"@, JsonView::Str("JSON-RPC endpoint"@)))
            .push(("x-rate-limit"@, JsonView::Str("100/minute"@)))
        )))
    )
}

#[verifier::spinoff_prover]
fn path_root() -> (r: JsonValue)
    ensures
        r@ == path_root_view(),
{
    let s3 = JsonValue::String(owned("Main endpoint for all JSON-RPC 2.0 requests"));
    let s10 = JsonValue::String(owned("#/components/schemas/JSONRPCRequest"));
    let mut m9: Vec<(String, JsonValue)> = Vec::new();
    push_member(&mut m9, "$ref", s10);
    let m9v = JsonValue::Object(m9);
    let s12 = JsonValue::String(owned("#/components/schemas/JSONRPCBatchRequest"));
    let mut m11: Vec<(String, JsonValue)> = Vec::new();
    push_member(&mut m11, "$ref", s12);
    let m11v = JsonValue::Object(m11);
    let mut a8: Vec<JsonValue> = Vec::new();
    push_item(&mut a8, m9v);
    push_item(&mut a8, m11v);
    let a8v = JsonValue::Array(a8);
    let mut m7: Vec<(String, JsonValue)> = Vec::new();
    push_member(&mut m7, "oneOf", a8v);
    let m7v = JsonValue::Object(m7);
    let mut m6: Vec<(String, JsonValue)> = Vec::new();
    push_member(&mut m6, "schema", m7v);
    let m6v = JsonValue::Object(m6);
    let mut m5: Vec<(String, JsonValue)> = Vec::new();
    push_member(&mut m5, "application/json", m6v);
    let m5v = JsonValue::Object(m5);
    let b13 = JsonValue::Bool(true);
    let mut m4: Vec<(String, JsonValue)> = Vec::new();
    push_member(&mut m4, "content", m5v);
    push_member(&mut m4, "required", b13);
    let m4v = JsonValue::Object(m4);
    let s21 = JsonValue::String(owned("#/components/schemas/JSONRPCResponse"));
    let mut m20: Vec<(String, JsonValue)> = Vec::new();
    push_member(&mut m20, "$ref", s21);
    let m20v = JsonValue::Object(m20);
    let s23 = JsonValue::String(owned("#/components/schemas/JSONRPCBatchResponse"));
    let mut m22: Vec<(String, JsonValue)> = Vec::new();
    push_member(&mut m22, "$ref", s23);
    let m22v = JsonValue::Object(m22);
    let mut a19: Vec<JsonValue> = Vec::new();
    push_item(&mut a19, m20v);
    push_item(&mut a19, m22v);
    let a19v = JsonValue::Array(a19);
    let mut m18: Vec<(String, JsonValue)> = Vec::new();
    push_member(&mut m18, "oneOf", a19v);
    let m18v = JsonValue::Object(m18);
    let mut m17: Vec<(String, JsonValue)> = Vec::new();
    push_member(&mut m17, "schema", m18v);
    let m17v = JsonValue::Object(m17);
    let mut m16: Vec<(String, JsonValue)> = Vec::new();
    push_member(&mut m16, "application/json", m17v);
    let m16v = JsonValue::Object(m16);
    let s24 = JsonValue::String(owned("Successful response"));
    let mut m15: Vec<(String, JsonValue)> = Vec::new();
    push_member(&mut m15, "content", m16v);
    push_member(&mut m15, "description", s24);
    let m15v = JsonValue::Object(m15);
    let s29 = JsonValue::String(owned("#/components/schemas/JSONRPCError"));
    let mut m28: Vec<(String, JsonValue)> = Vec::new();
    push_member(&mut m28, "$ref", s29);
    let m28v = JsonValue::Object(m28);
    let mut m27: Vec<(String, JsonValue)> = Vec::new();
    push_member(&mut m27, "schema", m28v);
    let m27v = JsonValue::Object(m27);
    let mut m26: Vec<(String, JsonValue)> = Vec::new();
    push_member(&mut m26, "application/json", m27v);
    let m26v = JsonValue::Object(m26);
    let s30 = JsonValue::String(owned("Invalid request"));
    let mut m25: Vec<(String, JsonValue)> = Vec::new();
    push_member(&mut m25, "content", m26v);
    push_member(&mut m25, "description", s30);
    let m25v = JsonValue::Object(m25);
    let mut m14: Vec<(String, JsonValue)> = Vec::new();
    push_member(&mut m14, "200", m15v);
    push_member(&mut m14, "400", m25v);
    let m14v = JsonValue::Object(m14);
    let s31 = JsonValue::String(owned("JSON-RPC endpoint"));
    let s32 = JsonValue::String(owned("100/minute"));
    let mut m2: Vec<(String, JsonValue)> = Vec::new();
    push_member(&mut m2, "description", s3);
    push_member(&mut m2, "requestBody", m4v);
    push_member(&mut m2, "responses", m14v);
    push_member(&mut m2, "summary", s31);
    push_member(&mut m2, "x-rate-limit", s32);
    let m2v = JsonValue::Object(m2);
    let mut m1: Vec<(String, JsonValue)> = Vec::new();
    push_member(&mut m1, "post", m2v);
    let m1v = JsonValue::Object(m1);
    m1v
}

/// The `/.well-known/agent-card.json` path item.
pub open spec fn path_agent_card_view() -> JsonView {
    JsonView::Object(Seq::empty()
        .push(("get"@, JsonView::Object(Seq::empty()
            .push(("description"@, JsonView::Str("Returns the agent's card describing capabilities, skills, and metadata"@)))
            .push(("responses"@, JsonView::Object(Seq::empty()
                .push(("200"@, JsonView::Object(Seq::empty()
                    .push(("content"@, JsonView::Object(Seq::empty()
                        .push(("application/json"@, JsonView::Object(Seq::empty()
                            .push(("schema"@, JsonView::Object(Seq::empty()
                                .push(("$ref"@, JsonView::Str("#/components/schemas/AgentCard"@)))
                            )))
                        )))
                    )))
                    .push(("description"@, JsonView::Str("Agent card"@)))
                )))
            )))
            .push(("summary"@, JsonView::Str("Get agent card"@)))
        )))
    )
}

#[verifier::spinoff_prover]
fn path_agent_card() -> (r: JsonValue)
    ensures
        r@ == path_agent_card_view(),
{
    let s3 = JsonValue::String(owned("Returns the agent's card describing capabilities, skills, and metadata"));
    let s9 = JsonValue::String(owned("#/components/schemas/AgentCard"));
    let mut m8: Vec<(String, JsonValue)> = Vec::new();
    push_member(&mut m8, "$ref", s9);
    let m8v = JsonValue::Object(m8);
    let mut m7: Vec<(String, JsonValue)> = Vec::new();
    push_member(&mut m7, "schema", m8v);
    let m7v = JsonValue::Object(m7);
    let mut m6: Vec<(String, JsonValue)> = Vec::new();
    push_member(&mut m6, "application/json", m7v);
    let m6v = JsonValue::Object(m6);
    let s10 = JsonValue::String(owned("Agent card"));
    let mut m5: Vec<(String, JsonValue)> = Vec::new();
    push_member(&mut m5, "content", m6v);
    push_member(&mut m5, "description", s10);
    let m5v = JsonValue::Object(m5);
    let mut m4: Vec<(String, JsonValue)> = Vec::new();
    push_member(&mut m4, "200", m5v);
    let m4v = JsonValue::Object(m4);
    let s11 = JsonValue::String(owned("Get agent card"));
    let mut m2: Vec<(String, JsonValue)> = Vec::new();
    push_member(&mut m2, "description", s3);
    push_member(&mut m2, "responses", m4v);
    push_member(&mut m2, "summary", s11);
    let m2v = JsonValue::Object(m2);
    let mut m1: Vec<(String, JsonValue)> = Vec::new();
    push_member(&mut m1, "get", m2v);
    let m1v = JsonValue::Object(m1);
    m1v
}

/// The `/skills` path item.
pub open spec fn path_skills_view() -> JsonView {
    JsonView::Object(Seq::empty()
        .push(("get"@, JsonView::Object(Seq::empty()
            .push(("description"@, JsonView::Str("Returns a list of all available agent skills"@)))
            .push(("responses"@, JsonView::Object(Seq::empty()
                .push(("200"@, JsonView::Object(Seq::empty()
                    .push(("content"@, JsonView::Object(Seq::empty()
                        .push(("application/json"@, JsonView::Object(Seq::empty()
                            .push(("schema"@, JsonView::Object(Seq::empty()
                                .push(("items"@, JsonView::Object(Seq::empty()
                                    .push(("$ref"@, JsonView::Str("#/components/schemas/AgentSkill"@)))
                                )))
                                .push(("type"@, JsonView::Str("array"@)))
                            )))
                        )))
                    )))
                    .push(("description"@, JsonView::Str("List of skills"@)))
                )))
            )))
            .push(("summary"@, JsonView::Str("Get all skills"@)))
        )))
    )
}

#[verifier::spinoff_prover]
fn path_skills() -> (r: JsonValue)
    ensures
        r@ == path_skills_view(),
{
    let s3 = JsonValue::String(owned("Returns a list of all available agent skills"));
    let s10 = JsonValue::String(owned("#/components/schemas/AgentSkill"));
    let mut m9: Vec<(String, JsonValue)> = Vec::new();
    push_member(&mut m9, "$ref", s10);
    let m9v = JsonValue::Object(m9);
    let s11 = JsonValue::String(owned("array"));
    let mut m8: Vec<(String, JsonValue)> = Vec::new();
    push_member(&mut m8, "items", m9v);
    push_member(&mut m8, "type", s11);
    let m8v = JsonValue::Object(m8);
    let mut m7: Vec<(String, JsonValue)> = Vec::new();
    push_member(&mut m7, "schema", m8v);
    let m7v = JsonValue::Object(m7);
    let mut m6: Vec<(String, JsonValue)> = Vec::new();
    push_member(&mut m6, "application/json", m7v);
    let m6v = JsonValue::Object(m6);
    let s12 = JsonValue::String(owned("List of skills"));
    let mut m5: Vec<(String, JsonValue)> = Vec::new();
    push_member(&mut m5, "content", m6v);
    push_member(&mut m5, "description", s12);
    let m5v = JsonValue::Object(m5);
    let mut m4: Vec<(String, JsonValue)> = Vec::new();
    push_member(&mut m4, "200", m5v);
    let m4v = JsonValue::Object(m4);
    let s13 = JsonValue::String(owned("Get all skills"));
    let mut m2: Vec<(String, JsonValue)> = Vec::new();
    push_member(&mut m2, "description", s3);
    push_member(&mut m2, "responses", m4v);
    push_member(&mut m2, "summary", s13);
    let m2v = JsonValue::Object(m2);
    let mut m1: Vec<(String, JsonValue)> = Vec::new();
    push_member(&mut m1, "get", m2v);
    let m1v = JsonValue::Object(m1);
    m1v
}

/// The `/skills/{id}` path item.
pub open spec fn path_skill_by_id_view() -> JsonView {
    JsonView::Object(Seq::empty()
        .push(("get"@, JsonView::Object(Seq::empty()
            .push(("description"@, JsonView::Str("Returns a specific skill by its ID"@)))
            .push(("parameters"@, JsonView::Array(Seq::empty()
                .push(JsonView::Object(Seq::empty()
                    .push(("in"@, JsonView::Str("path"@)))
                    .push(("name"@, JsonView::Str("id"@)))
                    .push(("required"@, JsonView::Bool(true)))
                    .push(("schema"@, JsonView::Object(Seq::empty()
                        .push(("type"@, JsonView::Str("string"@)))
                    )))
                ))
            )))
            .push(("responses"@, JsonView::Object(Seq::empty()
                .push(("200"@, JsonView::Object(Seq::empty()
                    .push(("content"@, JsonView::Object(Seq::empty()
                        .push(("application/json"@, JsonView::Object(Seq::empty()
                            .push(("schema"@, JsonView::Object(Seq::empty()
                                .push(("$ref"@, JsonView::Str("#/components/schemas/AgentSkill"@)))
                            )))
                        )))
                    )))
                    .push(("description"@, JsonView::Str("Skill details"@)))
                )))
                .push(("404"@, JsonView::Object(Seq::empty()
                    .push(("description"@, JsonView::Str("Skill not found"@)))
                )))
            )))
            .push(("summary"@, JsonView::Str("Get skill by ID"@)))
        )))
    )
}

#[verifier::spinoff_prover]
fn path_skill_by_id() -> (r: JsonValue)
    ensures
        r@ == path_skill_by_id_view(),
{
    let s3 = JsonValue::String(owned("Returns a specific skill by its ID"));
    let s6 = JsonValue::String(owned("path"));
    let s7 = JsonValue::String(owned("id"));
    let b8 = JsonValue::Bool(true);
    let s10 = JsonValue::String(owned("string"));
    let mut m9: Vec<(String, JsonValue)> = Vec::new();
    push_member(&mut m9, "type", s10);
    let m9v = JsonValue::Object(m9);
    let mut m5: Vec<(String, JsonValue)> = Vec::new();
    push_member(&mut m5, "in", s6);
    push_member(&mut m5, "name", s7);
    push_member(&mut m5, "required", b8);
    push_member(&mut m5, "schema", m9v);
    let m5v = JsonValue::Object(m5);
    let mut a4: Vec<JsonValue> = Vec::new();
    push_item(&mut a4, m5v);
    let a4v = JsonValue::Array(a4);
    let s16 = JsonValue::String(owned("#/components/schemas/AgentSkill"));
    let mut m15: Vec<(String, JsonValue)> = Vec::new();
    push_member(&mut m15, "$ref", s16);
    let m15v = JsonValue::Object(m15);
    let mut m14: Vec<(String, JsonValue)> = Vec::new();
    push_member(&mut m14, "schema", m15v);
    let m14v = JsonValue::Object(m14);
    let mut m13: Vec<(String, JsonValue)> = Vec::new();
    push_member(&mut m13, "application/json", m14v);
    let m13v = JsonValue::Object(m13);
    let s17 = JsonValue::String(owned("Skill details"));
    let mut m12: Vec<(String, JsonValue)> = Vec::new();
    push_member(&mut m12, "content", m13v);
    push_member(&mut m12, "description", s17);
    let m12v = JsonValue::Object(m12);
    let s19 = JsonValue::String(owned("Skill not found"));
    let mut m18: Vec<(String, JsonValue)> = Vec::new();
    push_member(&mut m18, "description", s19);
    let m18v = JsonValue::Object(m18);
    let mut m11: Vec<(String, JsonValue)> = Vec::new();
    push_member(&mut m11, "200", m12v);
    push_member(&mut m11, "404", m18v);
    let m11v = JsonValue::Object(m11);
    let s20 = JsonValue::String(owned("Get skill by ID"));
    let mut m2: Vec<(String, JsonValue)> = Vec::new();
    push_member(&mut m2, "description", s3);
    push_member(&mut m2, "parameters", a4v);
    push_member(&mut m2, "responses", m11v);
    push_member(&mut m2, "summary", s20);
    let m2v = JsonValue::Object(m2);
    let mut m1: Vec<(String, JsonValue)> = Vec::new();
    push_member(&mut m1, "get", m2v);
    let m1v = JsonValue::Object(m1);
    m1v
}

/// The `/health` path item.
pub open spec fn path_health_view() -> JsonView {
    JsonView::Object(Seq::empty()
        .push(("get"@, JsonView::Object(Seq::empty()
            .push(("description"@, JsonView::Str("Returns the health status of the service and its components"@)))
            .push(("responses"@, JsonView::Object(Seq::empty()
                .push(("200"@, JsonView::Object(Seq::empty()
                    .push(("content"@, JsonView::Object(Seq::empty()
                        .push(("application/json"@, JsonView::Object(Seq::empty()
                            .push(("schema"@, JsonView::Object(Seq::empty()
                                .push(("$ref"@, JsonView::Str("#/components/schemas/HealthCheckResponse"@)))
                            )))
                        )))
                    )))
                    .push(("description"@, JsonView::Str("Health status"@)))
                )))
                .push(("503"@, JsonView::Object(Seq::empty()
                    .push(("description"@, JsonView::Str("Service unhealthy"@)))
                )))
            )))
            .push(("summary"@, JsonView::Str("Health check"@)))
        )))
    )
}

#[verifier::spinoff_prover]
fn path_health() -> (r: JsonValue)
    ensures
        r@ == path_health_view(),
{
    let s3 = JsonValue::String(owned("Returns the health status of the service and its components"));
    let s9 = JsonValue::String(owned("#/components/schemas/HealthCheckResponse"));
    let mut m8: Vec<(String, JsonValue)> = Vec::new();
    push_member(&mut m8, "$ref", s9);
    let m8v = JsonValue::Object(m8);
    let mut m7: Vec<(String, JsonValue)> = Vec::new();
    push_member(&mut m7, "schema", m8v);
    let m7v = JsonValue::Object(m7);
    let mut m6: Vec<(String, JsonValue)> = Vec::new();
    push_member(&mut m6, "application/json", m7v);
    let m6v = JsonValue::Object(m6);
    let s10 = JsonValue::String(owned("Health status"));
    let mut m5: Vec<(String, JsonValue)> = Vec::new();
    push_member(&mut m5, "content", m6v);
    push_member(&mut m5, "description", s10);
    let m5v = JsonValue::Object(m5);
    let s12 = JsonValue::String(owned("Service unhealthy"));
    let mut m11: Vec<(String, JsonValue)> = Vec::new();
    push_member(&mut m11, "description", s12);
    let m11v = JsonValue::Object(m11);
    let mut m4: Vec<(String, JsonValue)> = Vec::new();
    push_member(&mut m4, "200", m5v);
    push_member(&mut m4, "503", m11v);
    let m4v = JsonValue::Object(m4);
    let s13 = JsonValue::String(owned("Health check"));
    let mut m2: Vec<(String, JsonValue)> = Vec::new();
    push_member(&mut m2, "description", s3);
    push_member(&mut m2, "responses", m4v);
    push_member(&mut m2, "summary", s13);
    let m2v = JsonValue::Object(m2);
    let mut m1: Vec<(String, JsonValue)> = Vec::new();
    push_member(&mut m1, "get", m2v);
    let m1v = JsonValue::Object(m1);
    m1v
}

/// The `/ready` path item.
pub open spec fn path_ready_view() -> JsonView {
    JsonView::Object(Seq::empty()
        .push(("get"@, JsonView::Object(Seq::empty()
            .push(("description"@, JsonView::Str("Returns whether the service is ready to accept requests"@)))
            .push(("responses"@, JsonView::Object(Seq::empty()
                .push(("200"@, JsonView::Object(Seq::empty()
                    .push(("content"@, JsonView::Object(Seq::empty()
                        .push(("application/json"@, JsonView::Object(Seq::empty()
                            .push(("schema"@, JsonView::Object(Seq::empty()
                                .push(("$ref"@, JsonView::Str("#/components/schemas/ReadinessCheckResponse"@)))
                            )))
                        )))
                    )))
                    .push(("description"@, JsonView::Str("Service is ready"@)))
                )))
                .push(("503"@, JsonView::Object(Seq::empty()
                    .push(("description"@, JsonView::Str("Service not ready"@)))
                )))
            )))
            .push(("summary"@, JsonView::Str("Readiness check"@)))
        )))
    )
}

#[verifier::spinoff_prover]
fn path_ready() -> (r: JsonValue)
    ensures
        r@ == path_ready_view(),
{
    let s3 = JsonValue::String(owned("Returns whether the service is ready to accept requests"));
    let s9 = JsonValue::String(owned("#/components/schemas/ReadinessCheckResponse"));
    let mut m8: Vec<(String, JsonValue)> = Vec::new();
    push_member(&mut m8, "$ref", s9);
    let m8v = JsonValue::Object(m8);
    let mut m7: Vec<(String, JsonValue)> = Vec::new();
    push_member(&mut m7, "schema", m8v);
    let m7v = JsonValue::Object(m7);
    let mut m6: Vec<(String, JsonValue)> = Vec::new();
    push_member(&mut m6, "application/json", m7v);
    let m6v = JsonValue::Object(m6);
    let s10 = JsonValue::String(owned("Service is ready"));
    let mut m5: Vec<(String, JsonValue)> = Vec::new();
    push_member(&mut m5, "content", m6v);
    push_member(&mut m5, "description", s10);
    let m5v = JsonValue::Object(m5);
    let s12 = JsonValue::String(owned("Service not ready"));
    let mut m11: Vec<(String, JsonValue)> = Vec::new();
    push_member(&mut m11, "description", s12);
    let m11v = JsonValue::Object(m11);
    let mut m4: Vec<(String, JsonValue)> = Vec::new();
    push_member(&mut m4, "200", m5v);
    push_member(&mut m4, "503", m11v);
    let m4v = JsonValue::Object(m4);
    let s13 = JsonValue::String(owned("Readiness check"));
    let mut m2: Vec<(String, JsonValue)> = Vec::new();
    push_member(&mut m2, "description", s3);
    push_member(&mut m2, "responses", m4v);
    push_member(&mut m2, "summary", s13);
    let m2v = JsonValue::Object(m2);
    let mut m1: Vec<(String, JsonValue)> = Vec::new();
    push_member(&mut m1, "get", m2v);
    let m1v = JsonValue::Object(m1);
    m1v
}

/// The `/live` path item.
pub open spec fn path_live_view() -> JsonView {
    JsonView::Object(Seq::empty()
        .push(("get"@, JsonView::Object(Seq::empty()
            .push(("description"@, JsonView::Str("Returns whether the service is alive"@)))
            .push(("responses"@, JsonView::Object(Seq::empty()
                .push(("200"@, JsonView::Object(Seq::empty()
                    .push(("content"@, JsonView::Object(Seq::empty()
                        .push(("application/json"@, JsonView::Object(Seq::empty()
                            .push(("schema"@, JsonView::Object(Seq::empty()
                                .push(("$ref"@, JsonView::Str("#/components/schemas/LivenessCheckResponse"@)))
                            )))
                        )))
                    )))
                    .push(("description"@, JsonView::Str("Service is alive"@)))
                )))
            )))
            .push(("summary"@, JsonView::Str("Liveness check"@)))
        )))
    )
}

#[verifier::spinoff_prover]
fn path_live() -> (r: JsonValue)
    ensures
        r@ == path_live_view(),
{
    let s3 = JsonValue::String(owned("Returns whether the service is alive"));
    let s9 = JsonValue::String(owned("#/components/schemas/LivenessCheckResponse"));
    let mut m8: Vec<(String, JsonValue)> = Vec::new();
    push_member(&mut m8, "$ref", s9);
    let m8v = JsonValue::Object(m8);
    let mut m7: Vec<(String, JsonValue)> = Vec::new();
    push_member(&mut m7, "schema", m8v);
    let m7v = JsonValue::Object(m7);
    let mut m6: Vec<(String, JsonValue)> = Vec::new();
    push_member(&mut m6, "application/json", m7v);
    let m6v = JsonValue::Object(m6);
    let s10 = JsonValue::String(owned("Service is alive"));
    let mut m5: Vec<(String, JsonValue)> = Vec::new();
    push_member(&mut m5, "content", m6v);
    push_member(&mut m5, "description", s10);
    let m5v = JsonValue::Object(m5);
    let mut m4: Vec<(String, JsonValue)> = Vec::new();
    push_member(&mut m4, "200", m5v);
    let m4v = JsonValue::Object(m4);
    let s11 = JsonValue::String(owned("Liveness check"));
    let mut m2: Vec<(String, JsonValue)> = Vec::new();
    push_member(&mut m2, "description", s3);
    push_member(&mut m2, "responses", m4v);
    push_member(&mut m2, "summary", s11);
    let m2v = JsonValue::Object(m2);
    let mut m1: Vec<(String, JsonValue)> = Vec::new();
    push_member(&mut m1, "get", m2v);
    let m1v = JsonValue::Object(m1);
    m1v
}

/// The `/openapi.json` path item.
pub open spec fn path_spec_view() -> JsonView {
    JsonView::Object(Seq::empty()
        .push(("get"@, JsonView::Object(Seq::empty()
            .push(("description"@, JsonView::Str("Returns the OpenAPI 3.0 specification for this service"@)))
            .push(("responses"@, JsonView::Object(Seq::empty()
                .push(("200"@, JsonView::Object(Seq::empty()
                    .push(("content"@, JsonView::Object(Seq::empty()
                        .push(("application/json"@, JsonView::Object(Seq::empty()
                            .push(("schema"@, JsonView::Object(Seq::empty()
                                .push(("type"@, JsonView::Str("object"@)))
                            )))
                        )))
                    )))
                    .push(("description"@, JsonView::Str("OpenAPI specification"@)))
                )))
            )))
            .push(("summary"@, JsonView::Str("OpenAPI specification"@)))
        )))
    )
}

#[verifier::spinoff_prover]
fn path_spec() -> (r: JsonValue)
    ensures
        r@ == path_spec_view(),
{
    let s3 = JsonValue::String(owned("Returns the OpenAPI 3.0 specification for this service"));
    let s9 = JsonValue::String(owned("object"));
    let mut m8: Vec<(String, JsonValue)> = Vec::new();
    push_member(&mut m8, "type", s9);
    let m8v = JsonValue::Object(m8);
    let mut m7: Vec<(String, JsonValue)> = Vec::new();
    push_member(&mut m7, "schema", m8v);
    let m7v = JsonValue::Object(m7);
    let mut m6: Vec<(String, JsonValue)> = Vec::new();
    push_member(&mut m6, "application/json", m7v);
    let m6v = JsonValue::Object(m6);
    let s10 = JsonValue::String(owned("OpenAPI specification"));
    let mut m5: Vec<(String, JsonValue)> = Vec::new();
    push_member(&mut m5, "content", m6v);
    push_member(&mut m5, "description", s10);
    let m5v = JsonValue::Object(m5);
    let mut m4: Vec<(String, JsonValue)> = Vec::new();
    push_member(&mut m4, "200", m5v);
    let m4v = JsonValue::Object(m4);
    let s11 = JsonValue::String(owned("OpenAPI specification"));
    let mut m2: Vec<(String, JsonValue)> = Vec::new();
    push_member(&mut m2, "description", s3);
    push_member(&mut m2, "responses", m4v);
    push_member(&mut m2, "summary", s11);
    let m2v = JsonValue::Object(m2);
    let mut m1: Vec<(String, JsonValue)> = Vec::new();
    push_member(&mut m1, "get", m2v);
    let m1v = JsonValue::Object(m1);
    m1v
}

/// The `AgentCapabilities` schema.
pub open spec fn schema_agent_capabilities_view() -> JsonView {
    JsonView::Object(Seq::empty()
        .push(("properties"@, JsonView::Object(Seq::empty()
            .push(("pushNotifications"@, JsonView::Object(Seq::empty()
                .push(("type"@, JsonView::Str("boolean"@)))
            )))
            .push(("streaming"@, JsonView::Object(Seq::empty()
                .push(("type"@, JsonView::Str("boolean"@)))
            )))
        )))
        .push(("type"@, JsonView::Str("object"@)))
    )
}

#[verifier::spinoff_prover]
fn schema_agent_capabilities() -> (r: JsonValue)
    ensures
        r@ == schema_agent_capabilities_view(),
{
    let s4 = JsonValue::String(owned("boolean"));
    let mut m3: Vec<(String, JsonValue)> = Vec::new();
    push_member(&mut m3, "type", s4);
    let m3v = JsonValue::Object(m3);
    let s6 = JsonValue::String(owned("boolean"));
    let mut m5: Vec<(String, JsonValue)> = Vec::new();
    push_member(&mut m5, "type", s6);
    let m5v = JsonValue::Object(m5);
    let mut m2: Vec<(String, JsonValue)> = Vec::new();
    push_member(&mut m2, "pushNotifications", m3v);
    push_member(&mut m2, "streaming", m5v);
    let m2v = JsonValue::Object(m2);
    let s7 = JsonValue::String(owned("object"));
    let mut m1: Vec<(String, JsonValue)> = Vec::new();
    push_member(&mut m1, "properties", m2v);
    push_member(&mut m1, "type", s7);
    let m1v = JsonValue::Object(m1);
    m1v
}

/// The `AgentCard` schema.
pub open spec fn schema_agent_card_view() -> JsonView {
    JsonView::Object(Seq::empty()
        .push(("properties"@, JsonView::Object(Seq::empty()
            .push(("agentId"@, JsonView::Object(Seq::empty()
                .push(("type"@, JsonView::Str("string"@)))
            )))
            .push(("capabilities"@, JsonView::Object(Seq::empty()
                .push(("$ref"@, JsonView::Str("#/components/schemas/AgentCapabilities"@)))
            )))
            .push(("description"@, JsonView::Object(Seq::empty()
                .push(("type"@, JsonView::Str("string"@)))
            )))
            .push(("displayName"@, JsonView::Object(Seq::empty()
                .push(("type"@, JsonView::Str("string"@)))
            )))
            .push(("extensions"@, JsonView::Object(Seq::empty()
                .push(("items"@, JsonView::Object(Seq::empty()
                    .push(("$ref"@, JsonView::Str("#/components/schemas/AgentExtension"@)))
                )))
                .push(("type"@, JsonView::Str("array"@)))
            )))
            .push(("provider"@, JsonView::Object(Seq::empty()
                .push(("$ref"@, JsonView::Str("#/components/schemas/AgentProvider"@)))
            )))
            .push(("skills"@, JsonView::Object(Seq::empty()
                .push(("items"@, JsonView::Object(Seq::empty()
                    .push(("$ref"@, JsonView::Str("#/components/schemas/AgentSkill"@)))
                )))
                .push(("type"@, JsonView::Str("array"@)))
            )))
            .push(("version"@, JsonView::Object(Seq::empty()
                .push(("type"@, JsonView::Str("string"@)))
            )))
        )))
        .push(("required"@, JsonView::Array(Seq::empty()
            .push(JsonView::Str("agentId"@))
            .push(JsonView::Str("displayName"@))
        )))
        .push(("type"@, JsonView::Str("object"@)))
    )
}

#[verifier::spinoff_prover]
fn schema_agent_card() -> (r: JsonValue)
    ensures
        r@ == schema_agent_card_view(),
{
    let s4 = JsonValue::String(owned("string"));
    let mut m3: Vec<(String, JsonValue)> = Vec::new();
    push_member(&mut m3, "type", s4);
    let m3v = JsonValue::Object(m3);
    let s6 = JsonValue::String(owned("#/components/schemas/AgentCapabilities"));
    let mut m5: Vec<(String, JsonValue)> = Vec::new();
    push_member(&mut m5, "$ref", s6);
    let m5v = JsonValue::Object(m5);
    let s8 = JsonValue::String(owned("string"));
    let mut m7: Vec<(String, JsonValue)> = Vec::new();
    push_member(&mut m7, "type", s8);
    let m7v = JsonValue::Object(m7);
    let s10 = JsonValue::String(owned("string"));
    let mut m9: Vec<(String, JsonValue)> = Vec::new();
    push_member(&mut m9, "type", s10);
    let m9v = JsonValue::Object(m9);
    let s13 = JsonValue::String(owned("#/components/schemas/AgentExtension"));
    let mut m12: Vec<(String, JsonValue)> = Vec::new();
    push_member(&mut m12, "$ref", s13);
    let m12v = JsonValue::Object(m12);
    let s14 = JsonValue::String(owned("array"));
    let mut m11: Vec<(String, JsonValue)> = Vec::new();
    push_member(&mut m11, "items", m12v);
    push_member(&mut m11, "type", s14);
    let m11v = JsonValue::Object(m11);
    let s16 = JsonValue::String(owned("#/components/schemas/AgentProvider"));
    let mut m15: Vec<(String, JsonValue)> = Vec::new();
    push_member(&mut m15, "$ref", s16);
    let m15v = JsonValue::Object(m15);
    let s19 = JsonValue::String(owned("#/components/schemas/AgentSkill"));
    let mut m18: Vec<(String, JsonValue)> = Vec::new();
    push_member(&mut m18, "$ref", s19);
    let m18v = JsonValue::Object(m18);
    let s20 = JsonValue::String(owned("array"));
    let mut m17: Vec<(String, JsonValue)> = Vec::new();
    push_member(&mut m17, "items", m18v);
    push_member(&mut m17, "type", s20);
    let m17v = JsonValue::Object(m17);
    let s22 = JsonValue::String(owned("string"));
    let mut m21: Vec<(String, JsonValue)> = Vec::new();
    push_member(&mut m21, "type", s22);
    let m21v = JsonValue::Object(m21);
    let mut m2: Vec<(String, JsonValue)> = Vec::new();
    push_member(&mut m2, "agentId", m3v);
    push_member(&mut m2, "capabilities", m5v);
    push_member(&mut m2, "description", m7v);
    push_member(&mut m2, "displayName", m9v);
    push_member(&mut m2, "extensions", m11v);
    push_member(&mut m2, "provider", m15v);
    push_member(&mut m2, "skills", m17v);
    push_member(&mut m2, "version", m21v);
    let m2v = JsonValue::Object(m2);
    let s24 = JsonValue::String(owned("agentId"));
    let s25 = JsonValue::String(owned("displayName"));
    let mut a23: Vec<JsonValue> = Vec::new();
    push_item(&mut a23, s24);
    push_item(&mut a23, s25);
    let a23v = JsonValue::Array(a23);
    let s26 = JsonValue::String(owned("object"));
    let mut m1: Vec<(String, JsonValue)> = Vec::new();
    push_member(&mut m1, "properties", m2v);
    push_member(&mut m1, "required", a23v);
    push_member(&mut m1, "type", s26);
    let m1v = JsonValue::Object(m1);
    m1v
}

/// The `AgentExtension` schema.
pub open spec fn schema_agent_extension_view() -> JsonView {
    JsonView::Object(Seq::empty()
        .push(("properties"@, JsonView::Object(Seq::empty()
            .push(("description"@, JsonView::Object(Seq::empty()
                .push(("type"@, JsonView::Str("string"@)))
            )))
            .push(("displayName"@, JsonView::Object(Seq::empty()
                .push(("type"@, JsonView::Str("string"@)))
            )))
            .push(("endpoint"@, JsonView::Object(Seq::empty()
                .push(("type"@, JsonView::Str("string"@)))
            )))
            .push(("id"@, JsonView::Object(Seq::empty()
                .push(("type"@, JsonView::Str("string"@)))
            )))
        )))
        .push(("required"@, JsonView::Array(Seq::empty()
            .push(JsonView::Str("id"@))
            .push(JsonView::Str("displayName"@))
        )))
        .push(("type"@, JsonView::Str("object"@)))
    )
}

#[verifier::spinoff_prover]
fn schema_agent_extension() -> (r: JsonValue)
    ensures
        r@ == schema_agent_extension_view(),
{
    let s4 = JsonValue::String(owned("string"));
    let mut m3: Vec<(String, JsonValue)> = Vec::new();
    push_member(&mut m3, "type", s4);
    let m3v = JsonValue::Object(m3);
    let s6 = JsonValue::String(owned("string"));
    let mut m5: Vec<(String, JsonValue)> = Vec::new();
    push_member(&mut m5, "type", s6);
    let m5v = JsonValue::Object(m5);
    let s8 = JsonValue::String(owned("string"));
    let mut m7: Vec<(String, JsonValue)> = Vec::new();
    push_member(&mut m7, "type", s8);
    let m7v = JsonValue::Object(m7);
    let s10 = JsonValue::String(owned("string"));
    let mut m9: Vec<(String, JsonValue)> = Vec::new();
    push_member(&mut m9, "type", s10);
    let m9v = JsonValue::Object(m9);
    let mut m2: Vec<(String, JsonValue)> = Vec::new();
    push_member(&mut m2, "description", m3v);
    push_member(&mut m2, "displayName", m5v);
    push_member(&mut m2, "endpoint", m7v);
    push_member(&mut m2, "id", m9v);
    let m2v = JsonValue::Object(m2);
    let s12 = JsonValue::String(owned("id"));
    let s13 = JsonValue::String(owned("displayName"));
    let mut a11: Vec<JsonValue> = Vec::new();
    push_item(&mut a11, s12);
    push_item(&mut a11, s13);
    let a11v = JsonValue::Array(a11);
    let s14 = JsonValue::String(owned("object"));
    let mut m1: Vec<(String, JsonValue)> = Vec::new();
    push_member(&mut m1, "properties", m2v);
    push_member(&mut m1, "required", a11v);
    push_member(&mut m1, "type", s14);
    let m1v = JsonValue::Object(m1);
    m1v
}

/// The `AgentProvider` schema.
pub open spec fn schema_agent_provider_view() -> JsonView {
    JsonView::Object(Seq::empty()
        .push(("properties"@, JsonView::Object(Seq::empty()
            .push(("organization"@, JsonView::Object(Seq::empty()
                .push(("type"@, JsonView::Str("string"@)))
            )))
            .push(("url"@, JsonView::Object(Seq::empty()
                .push(("type"@, JsonView::Str("string"@)))
            )))
        )))
        .push(("type"@, JsonView::Str("object"@)))
    )
}

#[verifier::spinoff_prover]
fn schema_agent_provider() -> (r: JsonValue)
    ensures
        r@ == schema_agent_provider_view(),
{
    let s4 = JsonValue::String(owned("string"));
    let mut m3: Vec<(String, JsonValue)> = Vec::new();
    push_member(&mut m3, "type", s4);
    let m3v = JsonValue::Object(m3);
    let s6 = JsonValue::String(owned("string"));
    let mut m5: Vec<(String, JsonValue)> = Vec::new();
    push_member(&mut m5, "type", s6);
    let m5v = JsonValue::Object(m5);
    let mut m2: Vec<(String, JsonValue)> = Vec::new();
    push_member(&mut m2, "organization", m3v);
    push_member(&mut m2, "url", m5v);
    let m2v = JsonValue::Object(m2);
    let s7 = JsonValue::String(owned("object"));
    let mut m1: Vec<(String, JsonValue)> = Vec::new();
    push_member(&mut m1, "properties", m2v);
    push_member(&mut m1, "type", s7);
    let m1v = JsonValue::Object(m1);
    m1v
}

/// The `AgentSkill` schema.
pub open spec fn schema_agent_skill_view() -> JsonView {
    JsonView::Object(Seq::empty()
        .push(("properties"@, JsonView::Object(Seq::empty()
            .push(("description"@, JsonView::Object(Seq::empty()
                .push(("type"@, JsonView::Str("string"@)))
            )))
            .push(("displayName"@, JsonView::Object(Seq::empty()
                .push(("type"@, JsonView::Str("string"@)))
            )))
            .push(("id"@, JsonView::Object(Seq::empty()
                .push(("type"@, JsonView::Str("string"@)))
            )))
            .push(("inputModes"@, JsonView::Object(Seq::empty()
                .push(("items"@, JsonView::Object(Seq::empty()
                    .push(("type"@, JsonView::Str("string"@)))
                )))
                .push(("type"@, JsonView::Str("array"@)))
            )))
            .push(("outputModes"@, JsonView::Object(Seq::empty()
                .push(("items"@, JsonView::Object(Seq::empty()
                    .push(("type"@, JsonView::Str("string"@)))
                )))
                .push(("type"@, JsonView::Str("array"@)))
            )))
        )))
        .push(("required"@, JsonView::Array(Seq::empty()
            .push(JsonView::Str("id"@))
            .push(JsonView::Str("displayName"@))
        )))
        .push(("type"@, JsonView::Str("object"@)))
    )
}

#[verifier::spinoff_prover]
fn schema_agent_skill() -> (r: JsonValue)
    ensures
        r@ == schema_agent_skill_view(),
{
    let s4 = JsonValue::String(owned("string"));
    let mut m3: Vec<(String, JsonValue)> = Vec::new();
    push_member(&mut m3, "type", s4);
    let m3v = JsonValue::Object(m3);
    let s6 = JsonValue::String(owned("string"));
    let mut m5: Vec<(String, JsonValue)> = Vec::new();
    push_member(&mut m5, "type", s6);
    let m5v = JsonValue::Object(m5);
    let s8 = JsonValue::String(owned("string"));
    let mut m7: Vec<(String, JsonValue)> = Vec::new();
    push_member(&mut m7, "type", s8);
    let m7v = JsonValue::Object(m7);
    let s11 = JsonValue::String(owned("string"));
    let mut m10: Vec<(String, JsonValue)> = Vec::new();
    push_member(&mut m10, "type", s11);
    let m10v = JsonValue::Object(m10);
    let s12 = JsonValue::String(owned("array"));
    let mut m9: Vec<(String, JsonValue)> = Vec::new();
    push_member(&mut m9, "items", m10v);
    push_member(&mut m9, "type", s12);
    let m9v = JsonValue::Object(m9);
    let s15 = JsonValue::String(owned("string"));
    let mut m14: Vec<(String, JsonValue)> = Vec::new();
    push_member(&mut m14, "type", s15);
    let m14v = JsonValue::Object(m14);
    let s16 = JsonValue::String(owned("array"));
    let mut m13: Vec<(String, JsonValue)> = Vec::new();
    push_member(&mut m13, "items", m14v);
    push_member(&mut m13, "type", s16);
    let m13v = JsonValue::Object(m13);
    let mut m2: Vec<(String, JsonValue)> = Vec::new();
    push_member(&mut m2, "description", m3v);
    push_member(&mut m2, "displayName", m5v);
    push_member(&mut m2, "id", m7v);
    push_member(&mut m2, "inputModes", m9v);
    push_member(&mut m2, "outputModes", m13v);
    let m2v = JsonValue::Object(m2);
    let s18 = JsonValue::String(owned("id"));
    let s19 = JsonValue::String(owned("displayName"));
    let mut a17: Vec<JsonValue> = Vec::new();
    push_item(&mut a17, s18);
    push_item(&mut a17, s19);
    let a17v = JsonValue::Array(a17);
    let s20 = JsonValue::String(owned("object"));
    let mut m1: Vec<(String, JsonValue)> = Vec::new();
    push_member(&mut m1, "properties", m2v);
    push_member(&mut m1, "required", a17v);
    push_member(&mut m1, "type", s20);
    let m1v = JsonValue::Object(m1);
    m1v
}

/// The `ComponentHealth` schema.
pub open spec fn schema_component_health_view() -> JsonView {
    JsonView::Object(Seq::empty()
        .push(("properties"@, JsonView::Object(Seq::empty()
            .push(("message"@, JsonView::Object(Seq::empty()
                .push(("type"@, JsonView::Str("string"@)))
            )))
            .push(("name"@, JsonView::Object(Seq::empty()
                .push(("type"@, JsonView::Str("string"@)))
            )))
            .push(("status"@, JsonView::Object(Seq::empty()
                .push(("enum"@, JsonView::Array(Seq::empty()
                    .push(JsonView::Str("healthy"@))
                    .push(JsonView::Str("degraded"@))
                    .push(JsonView::Str("unhealthy"@))
                )))
                .push(("type"@, JsonView::Str("string"@)))
            )))
        )))
        .push(("type"@, JsonView::Str("object"@)))
    )
}

#[verifier::spinoff_prover]
fn schema_component_health() -> (r: JsonValue)
    ensures
        r@ == schema_component_health_view(),
{
    let s4 = JsonValue::String(owned("string"));
    let mut m3: Vec<(String, JsonValue)> = Vec::new();
    push_member(&mut m3, "type", s4);
    let m3v = JsonValue::Object(m3);
    let s6 = JsonValue::String(owned("string"));
    let mut m5: Vec<(String, JsonValue)> = Vec::new();
    push_member(&mut m5, "type", s6);
    let m5v = JsonValue::Object(m5);
    let s9 = JsonValue::String(owned("healthy"));
    let s10 = JsonValue::String(owned("degraded"));
    let s11 = JsonValue::String(owned("unhealthy"));
    let mut a8: Vec<JsonValue> = Vec::new();
    push_item(&mut a8, s9);
    push_item(&mut a8, s10);
    push_item(&mut a8, s11);
    let a8v = JsonValue::Array(a8);
    let s12 = JsonValue::String(owned("string"));
    let mut m7: Vec<(String, JsonValue)> = Vec::new();
    push_member(&mut m7, "enum", a8v);
    push_member(&mut m7, "type", s12);
    let m7v = JsonValue::Object(m7);
    let mut m2: Vec<(String, JsonValue)> = Vec::new();
    push_member(&mut m2, "message", m3v);
    push_member(&mut m2, "name", m5v);
    push_member(&mut m2, "status", m7v);
    let m2v = JsonValue::Object(m2);
    let s13 = JsonValue::String(owned("object"));
    let mut m1: Vec<(String, JsonValue)> = Vec::new();
    push_member(&mut m1, "properties", m2v);
    push_member(&mut m1, "type", s13);
    let m1v = JsonValue::Object(m1);
    m1v
}

/// The `HealthCheckResponse` schema.
pub open spec fn schema_health_check_response_view() -> JsonView {
    JsonView::Object(Seq::empty()
        .push(("properties"@, JsonView::Object(Seq::empty()
            .push(("components"@, JsonView::Object(Seq::empty()
                .push(("items"@, JsonView::Object(Seq::empty()
                    .push(("$ref"@, JsonView::Str("#/components/schemas/ComponentHealth"@)))
                )))
                .push(("type"@, JsonView::Str("array"@)))
            )))
            .push(("status"@, JsonView::Object(Seq::empty()
                .push(("enum"@, JsonView::Array(Seq::empty()
                    .push(JsonView::Str("healthy"@))
                    .push(JsonView::Str("degraded"@))
                    .push(JsonView::Str("unhealthy"@))
                )))
                .push(("type"@, JsonView::Str("string"@)))
            )))
            .push(("timestamp"@, JsonView::Object(Seq::empty()
                .push(("format"@, JsonView::Str("date-time"@)))
                .push(("type"@, JsonView::Str("string"@)))
            )))
            .push(("uptimeSeconds"@, JsonView::Object(Seq::empty()
                .push(("type"@, JsonView::Str("number"@)))
            )))
            .push(("version"@, JsonView::Object(Seq::empty()
                .push(("type"@, JsonView::Str("string"@)))
            )))
        )))
        .push(("type"@, JsonView::Str("object"@)))
    )
}

#[verifier::spinoff_prover]
fn schema_health_check_response() -> (r: JsonValue)
    ensures
        r@ == schema_health_check_response_view(),
{
    let s5 = JsonValue::String(owned("#/components/schemas/ComponentHealth"));
    let mut m4: Vec<(String, JsonValue)> = Vec::new();
    push_member(&mut m4, "$ref", s5);
    let m4v = JsonValue::Object(m4);
    let s6 = JsonValue::String(owned("array"));
    let mut m3: Vec<(String, JsonValue)> = Vec::new();
    push_member(&mut m3, "items", m4v);
    push_member(&mut m3, "type", s6);
    let m3v = JsonValue::Object(m3);
    let s9 = JsonValue::String(owned("healthy"));
    let s10 = JsonValue::String(owned("degraded"));
    let s11 = JsonValue::String(owned("unhealthy"));
    let mut a8: Vec<JsonValue> = Vec::new();
    push_item(&mut a8, s9);
    push_item(&mut a8, s10);
    push_item(&mut a8, s11);
    let a8v = JsonValue::Array(a8);
    let s12 = JsonValue::String(owned("string"));
    let mut m7: Vec<(String, JsonValue)> = Vec::new();
    push_member(&mut m7, "enum", a8v);
    push_member(&mut m7, "type", s12);
    let m7v = JsonValue::Object(m7);
    let s14 = JsonValue::String(owned("date-time"));
    let s15 = JsonValue::String(owned("string"));
    let mut m13: Vec<(String, JsonValue)> = Vec::new();
    push_member(&mut m13, "format", s14);
    push_member(&mut m13, "type", s15);
    let m13v = JsonValue::Object(m13);
    let s17 = JsonValue::String(owned("number"));
    let mut m16: Vec<(String, JsonValue)> = Vec::new();
    push_member(&mut m16, "type", s17);
    let m16v = JsonValue::Object(m16);
    let s19 = JsonValue::String(owned("string"));
    let mut m18: Vec<(String, JsonValue)> = Vec::new();
    push_member(&mut m18, "type", s19);
    let m18v = JsonValue::Object(m18);
    let mut m2: Vec<(String, JsonValue)> = Vec::new();
    push_member(&mut m2, "components", m3v);
    push_member(&mut m2, "status", m7v);
    push_member(&mut m2, "timestamp", m13v);
    push_member(&mut m2, "uptimeSeconds", m16v);
    push_member(&mut m2, "version", m18v);
    let m2v = JsonValue::Object(m2);
    let s20 = JsonValue::String(owned("object"));
    let mut m1: Vec<(String, JsonValue)> = Vec::new();
    push_member(&mut m1, "properties", m2v);
    push_member(&mut m1, "type", s20);
    let m1v = JsonValue::Object(m1);
    m1v
}

/// The `JSONRPCBatchRequest` schema.
pub open spec fn schema_jsonrpc_batch_request_view() -> JsonView {
    JsonView::Object(Seq::empty()
        .push(("items"@, JsonView::Object(Seq::empty()
            .push(("$ref"@, JsonView::Str("#/components/schemas/JSONRPCRequest"@)))
        )))
        .push(("type"@, JsonView::Str("array"@)))
    )
}

#[verifier::spinoff_prover]
fn schema_jsonrpc_batch_request() -> (r: JsonValue)
    ensures
        r@ == schema_jsonrpc_batch_request_view(),
{
    let s3 = JsonValue::String(owned("#/components/schemas/JSONRPCRequest"));
    let mut m2: Vec<(String, JsonValue)> = Vec::new();
    push_member(&mut m2, "$ref", s3);
    let m2v = JsonValue::Object(m2);
    let s4 = JsonValue::String(owned("array"));
    let mut m1: Vec<(String, JsonValue)> = Vec::new();
    push_member(&mut m1, "items", m2v);
    push_member(&mut m1, "type", s4);
    let m1v = JsonValue::Object(m1);
    m1v
}

/// The `JSONRPCBatchResponse` schema.
pub open spec fn schema_jsonrpc_batch_response_view() -> JsonView {
    JsonView::Object(Seq::empty()
        .push(("items"@, JsonView::Object(Seq::empty()
            .push(("$ref"@, JsonView::Str("#/components/schemas/JSONRPCResponse"@)))
        )))
        .push(("type"@, JsonView::Str("array"@)))
    )
}

#[verifier::spinoff_prover]
fn schema_jsonrpc_batch_response() -> (r: JsonValue)
    ensures
        r@ == schema_jsonrpc_batch_response_view(),
{
    let s3 = JsonValue::String(owned("#/components/schemas/JSONRPCResponse"));
    let mut m2: Vec<(String, JsonValue)> = Vec::new();
    push_member(&mut m2, "$ref", s3);
    let m2v = JsonValue::Object(m2);
    let s4 = JsonValue::String(owned("array"));
    let mut m1: Vec<(String, JsonValue)> = Vec::new();
    push_member(&mut m1, "items", m2v);
    push_member(&mut m1, "type", s4);
    let m1v = JsonValue::Object(m1);
    m1v
}

/// The `JSONRPCError` schema.
pub open spec fn schema_jsonrpc_error_view() -> JsonView {
    JsonView::Object(Seq::empty()
        .push(("properties"@, JsonView::Object(Seq::empty()
            .push(("code"@, JsonView::Object(Seq::empty()
                .push(("type"@, JsonView::Str("integer"@)))
            )))
            .push(("data"@, JsonView::Object(Seq::empty()
                .push(("type"@, JsonView::Str("object"@)))
            )))
            .push(("message"@, JsonView::Object(Seq::empty()
                .push(("type"@, JsonView::Str("string"@)))
            )))
        )))
        .push(("required"@, JsonView::Array(Seq::empty()
            .push(JsonView::Str("code"@))
            .push(JsonView::Str("message"@))
        )))
        .push(("type"@, JsonView::Str("object"@)))
    )
}

#[verifier::spinoff_prover]
fn schema_jsonrpc_error() -> (r: JsonValue)
    ensures
        r@ == schema_jsonrpc_error_view(),
{
    let s4 = JsonValue::String(owned("integer"));
    let mut m3: Vec<(String, JsonValue)> = Vec::new();
    push_member(&mut m3, "type", s4);
    let m3v = JsonValue::Object(m3);
    let s6 = JsonValue::String(owned("object"));
    let mut m5: Vec<(String, JsonValue)> = Vec::new();
    push_member(&mut m5, "type", s6);
    let m5v = JsonValue::Object(m5);
    let s8 = JsonValue::String(owned("string"));
    let mut m7: Vec<(String, JsonValue)> = Vec::new();
    push_member(&mut m7, "type", s8);
    let m7v = JsonValue::Object(m7);
    let mut m2: Vec<(String, JsonValue)> = Vec::new();
    push_member(&mut m2, "code", m3v);
    push_member(&mut m2, "data", m5v);
    push_member(&mut m2, "message", m7v);
    let m2v = JsonValue::Object(m2);
    let s10 = JsonValue::String(owned("code"));
    let s11 = JsonValue::String(owned("message"));
    let mut a9: Vec<JsonValue> = Vec::new();
    push_item(&mut a9, s10);
    push_item(&mut a9, s11);
    let a9v = JsonValue::Array(a9);
    let s12 = JsonValue::String(owned("object"));
    let mut m1: Vec<(String, JsonValue)> = Vec::new();
    push_member(&mut m1, "properties", m2v);
    push_member(&mut m1, "required", a9v);
    push_member(&mut m1, "type", s12);
    let m1v = JsonValue::Object(m1);
    m1v
}

/// The `JSONRPCRequest` schema.
pub open spec fn schema_jsonrpc_request_view() -> JsonView {
    JsonView::Object(Seq::empty()
        .push(("properties"@, JsonView::Object(Seq::empty()
            .push(("id"@, JsonView::Object(Seq::empty()
                .push(("oneOf"@, JsonView::Array(Seq::empty()
                    .push(JsonView::Object(Seq::empty()
                        .push(("type"@, JsonView::Str("string"@)))
                    ))
                    .push(JsonView::Object(Seq::empty()
                        .push(("type"@, JsonView::Str("number"@)))
                    ))
                    .push(JsonView::Object(Seq::empty()
                        .push(("type"@, JsonView::Str("null"@)))
                    ))
                )))
            )))
            .push(("jsonrpc"@, JsonView::Object(Seq::empty()
                .push(("enum"@, JsonView::Array(Seq::empty()
                    .push(JsonView::Str("2.0"@))
                )))
                .push(("type"@, JsonView::Str("string"@)))
            )))
            .push(("method"@, JsonView::Object(Seq::empty()
                .push(("type"@, JsonView::Str("string"@)))
            )))
            .push(("params"@, JsonView::Object(Seq::empty()
                .push(("oneOf"@, JsonView::Array(Seq::empty()
                    .push(JsonView::Object(Seq::empty()
                        .push(("type"@, JsonView::Str("object"@)))
                    ))
                    .push(JsonView::Object(Seq::empty()
                        .push(("type"@, JsonView::Str("array"@)))
                    ))
                )))
            )))
        )))
        .push(("required"@, JsonView::Array(Seq::empty()
            .push(JsonView::Str("jsonrpc"@))
            .push(JsonView::Str("method"@))
            .push(JsonView::Str("id"@))
        )))
        .push(("type"@, JsonView::Str("object"@)))
    )
}

#[verifier::spinoff_prover]
fn schema_jsonrpc_request() -> (r: JsonValue)
    ensures
        r@ == schema_jsonrpc_request_view(),
{
    let s6 = JsonValue::String(owned("string"));
    let mut m5: Vec<(String, JsonValue)> = Vec::new();
    push_member(&mut m5, "type", s6);
    let m5v = JsonValue::Object(m5);
    let s8 = JsonValue::String(owned("number"));
    let mut m7: Vec<(String, JsonValue)> = Vec::new();
    push_member(&mut m7, "type", s8);
    let m7v = JsonValue::Object(m7);
    let s10 = JsonValue::String(owned("null"));
    let mut m9: Vec<(String, JsonValue)> = Vec::new();
    push_member(&mut m9, "type", s10);
    let m9v = JsonValue::Object(m9);
    let mut a4: Vec<JsonValue> = Vec::new();
    push_item(&mut a4, m5v);
    push_item(&mut a4, m7v);
    push_item(&mut a4, m9v);
    let a4v = JsonValue::Array(a4);
    let mut m3: Vec<(String, JsonValue)> = Vec::new();
    push_member(&mut m3, "oneOf", a4v);
    let m3v = JsonValue::Object(m3);
    let s13 = JsonValue::String(owned("2.0"));
    let mut a12: Vec<JsonValue> = Vec::new();
    push_item(&mut a12, s13);
    let a12v = JsonValue::Array(a12);
    let s14 = JsonValue::String(owned("string"));
    let mut m11: Vec<(String, JsonValue)> = Vec::new();
    push_member(&mut m11, "enum", a12v);
    push_member(&mut m11, "type", s14);
    let m11v = JsonValue::Object(m11);
    let s16 = JsonValue::String(owned("string"));
    let mut m15: Vec<(String, JsonValue)> = Vec::new();
    push_member(&mut m15, "type", s16);
    let m15v = JsonValue::Object(m15);
    let s20 = JsonValue::String(owned("object"));
    let mut m19: Vec<(String, JsonValue)> = Vec::new();
    push_member(&mut m19, "type", s20);
    let m19v = JsonValue::Object(m19);
    let s22 = JsonValue::String(owned("array"));
    let mut m21: Vec<(String, JsonValue)> = Vec::new();
    push_member(&mut m21, "type", s22);
    let m21v = JsonValue::Object(m21);
    let mut a18: Vec<JsonValue> = Vec::new();
    push_item(&mut a18, m19v);
    push_item(&mut a18, m21v);
    let a18v = JsonValue::Array(a18);
    let mut m17: Vec<(String, JsonValue)> = Vec::new();
    push_member(&mut m17, "oneOf", a18v);
    let m17v = JsonValue::Object(m17);
    let mut m2: Vec<(String, JsonValue)> = Vec::new();
    push_member(&mut m2, "id", m3v);
    push_member(&mut m2, "jsonrpc", m11v);
    push_member(&mut m2, "method", m15v);
    push_member(&mut m2, "params", m17v);
    let m2v = JsonValue::Object(m2);
    let s24 = JsonValue::String(owned("jsonrpc"));
    let s25 = JsonValue::String(owned("method"));
    let s26 = JsonValue::String(owned("id"));
    let mut a23: Vec<JsonValue> = Vec::new();
    push_item(&mut a23, s24);
    push_item(&mut a23, s25);
    push_item(&mut a23, s26);
    let a23v = JsonValue::Array(a23);
    let s27 = JsonValue::String(owned("object"));
    let mut m1: Vec<(String, JsonValue)> = Vec::new();
    push_member(&mut m1, "properties", m2v);
    push_member(&mut m1, "required", a23v);
    push_member(&mut m1, "type", s27);
    let m1v = JsonValue::Object(m1);
    m1v
}

/// The `JSONRPCResponse` schema.
pub open spec fn schema_jsonrpc_response_view() -> JsonView {
    JsonView::Object(Seq::empty()
        .push(("properties"@, JsonView::Object(Seq::empty()
            .push(("error"@, JsonView::Object(Seq::empty()
                .push(("$ref"@, JsonView::Str("#/components/schemas/JSONRPCError"@)))
            )))
            .push(("id"@, JsonView::Object(Seq::empty()
                .push(("oneOf"@, JsonView::Array(Seq::empty()
                    .push(JsonView::Object(Seq::empty()
                        .push(("type"@, JsonView::Str("string"@)))
                    ))
                    .push(JsonView::Object(Seq::empty()
                        .push(("type"@, JsonView::Str("number"@)))
                    ))
                    .push(JsonView::Object(Seq::empty()
                        .push(("type"@, JsonView::Str("null"@)))
                    ))
                )))
            )))
            .push(("jsonrpc"@, JsonView::Object(Seq::empty()
                .push(("enum"@, JsonView::Array(Seq::empty()
                    .push(JsonView::Str("2.0"@))
                )))
                .push(("type"@, JsonView::Str("string"@)))
            )))
            .push(("result"@, JsonView::Object(Seq::empty()
                .push(("type"@, JsonView::Str("object"@)))
            )))
        )))
        .push(("required"@, JsonView::Array(Seq::empty()
            .push(JsonView::Str("jsonrpc"@))
            .push(JsonView::Str("id"@))
        )))
        .push(("type"@, JsonView::Str("object"@)))
    )
}

#[verifier::spinoff_prover]
fn schema_jsonrpc_response() -> (r: JsonValue)
    ensures
        r@ == schema_jsonrpc_response_view(),
{
    let s4 = JsonValue::String(owned("#/components/schemas/JSONRPCError"));
    let mut m3: Vec<(String, JsonValue)> = Vec::new();
    push_member(&mut m3, "$ref", s4);
    let m3v = JsonValue::Object(m3);
    let s8 = JsonValue::String(owned("string"));
    let mut m7: Vec<(String, JsonValue)> = Vec::new();
    push_member(&mut m7, "type", s8);
    let m7v = JsonValue::Object(m7);
    let s10 = JsonValue::String(owned("number"));
    let mut m9: Vec<(String, JsonValue)> = Vec::new();
    push_member(&mut m9, "type", s10);
    let m9v = JsonValue::Object(m9);
    let s12 = JsonValue::String(owned("null"));
    let mut m11: Vec<(String, JsonValue)> = Vec::new();
    push_member(&mut m11, "type", s12);
    let m11v = JsonValue::Object(m11);
    let mut a6: Vec<JsonValue> = Vec::new();
    push_item(&mut a6, m7v);
    push_item(&mut a6, m9v);
    push_item(&mut a6, m11v);
    let a6v = JsonValue::Array(a6);
    let mut m5: Vec<(String, JsonValue)> = Vec::new();
    push_member(&mut m5, "oneOf", a6v);
    let m5v = JsonValue::Object(m5);
    let s15 = JsonValue::String(owned("2.0"));
    let mut a14: Vec<JsonValue> = Vec::new();
    push_item(&mut a14, s15);
    let a14v = JsonValue::Array(a14);
    let s16 = JsonValue::String(owned("string"));
    let mut m13: Vec<(String, JsonValue)> = Vec::new();
    push_member(&mut m13, "enum", a14v);
    push_member(&mut m13, "type", s16);
    let m13v = JsonValue::Object(m13);
    let s18 = JsonValue::String(owned("object"));
    let mut m17: Vec<(String, JsonValue)> = Vec::new();
    push_member(&mut m17, "type", s18);
    let m17v = JsonValue::Object(m17);
    let mut m2: Vec<(String, JsonValue)> = Vec::new();
    push_member(&mut m2, "error", m3v);
    push_member(&mut m2, "id", m5v);
    push_member(&mut m2, "jsonrpc", m13v);
    push_member(&mut m2, "result", m17v);
    let m2v = JsonValue::Object(m2);
    let s20 = JsonValue::String(owned("jsonrpc"));
    let s21 = JsonValue::String(owned("id"));
    let mut a19: Vec<JsonValue> = Vec::new();
    push_item(&mut a19, s20);
    push_item(&mut a19, s21);
    let a19v = JsonValue::Array(a19);
    let s22 = JsonValue::String(owned("object"));
    let mut m1: Vec<(String, JsonValue)> = Vec::new();
    push_member(&mut m1, "properties", m2v);
    push_member(&mut m1, "required", a19v);
    push_member(&mut m1, "type", s22);
    let m1v = JsonValue::Object(m1);
    m1v
}

/// The `LivenessCheckResponse` schema.
pub open spec fn schema_liveness_check_response_view() -> JsonView {
    JsonView::Object(Seq::empty()
        .push(("properties"@, JsonView::Object(Seq::empty()
            .push(("alive"@, JsonView::Object(Seq::empty()
                .push(("type"@, JsonView::Str("boolean"@)))
            )))
            .push(("timestamp"@, JsonView::Object(Seq::empty()
                .push(("format"@, JsonView::Str("date-time"@)))
                .push(("type"@, JsonView::Str("string"@)))
            )))
        )))
        .push(("type"@, JsonView::Str("object"@)))
    )
}

#[verifier::spinoff_prover]
fn schema_liveness_check_response() -> (r: JsonValue)
    ensures
        r@ == schema_liveness_check_response_view(),
{
    let s4 = JsonValue::String(owned("boolean"));
    let mut m3: Vec<(String, JsonValue)> = Vec::new();
    push_member(&mut m3, "type", s4);
    let m3v = JsonValue::Object(m3);
    let s6 = JsonValue::String(owned("date-time"));
    let s7 = JsonValue::String(owned("string"));
    let mut m5: Vec<(String, JsonValue)> = Vec::new();
    push_member(&mut m5, "format", s6);
    push_member(&mut m5, "type", s7);
    let m5v = JsonValue::Object(m5);
    let mut m2: Vec<(String, JsonValue)> = Vec::new();
    push_member(&mut m2, "alive", m3v);
    push_member(&mut m2, "timestamp", m5v);
    let m2v = JsonValue::Object(m2);
    let s8 = JsonValue::String(owned("object"));
    let mut m1: Vec<(String, JsonValue)> = Vec::new();
    push_member(&mut m1, "properties", m2v);
    push_member(&mut m1, "type", s8);
    let m1v = JsonValue::Object(m1);
    m1v
}

/// The `ReadinessCheckResponse` schema.
pub open spec fn schema_readiness_check_response_view() -> JsonView {
    JsonView::Object(Seq::empty()
        .push(("properties"@, JsonView::Object(Seq::empty()
            .push(("message"@, JsonView::Object(Seq::empty()
                .push(("type"@, JsonView::Str("string"@)))
            )))
            .push(("ready"@, JsonView::Object(Seq::empty()
                .push(("type"@, JsonView::Str("boolean"@)))
            )))
        )))
        .push(("type"@, JsonView::Str("object"@)))
    )
}

#[verifier::spinoff_prover]
fn schema_readiness_check_response() -> (r: JsonValue)
    ensures
        r@ == schema_readiness_check_response_view(),
{
    let s4 = JsonValue::String(owned("string"));
    let mut m3: Vec<(String, JsonValue)> = Vec::new();
    push_member(&mut m3, "type", s4);
    let m3v = JsonValue::Object(m3);
    let s6 = JsonValue::String(owned("boolean"));
    let mut m5: Vec<(String, JsonValue)> = Vec::new();
    push_member(&mut m5, "type", s6);
    let m5v = JsonValue::Object(m5);
    let mut m2: Vec<(String, JsonValue)> = Vec::new();
    push_member(&mut m2, "message", m3v);
    push_member(&mut m2, "ready", m5v);
    let m2v = JsonValue::Object(m2);
    let s7 = JsonValue::String(owned("object"));
    let mut m1: Vec<(String, JsonValue)> = Vec::new();
    push_member(&mut m1, "properties", m2v);
    push_member(&mut m1, "type", s7);
    let m1v = JsonValue::Object(m1);
    m1v
}

/// The component schemas of the document, by name.
pub open spec fn schemas_view() -> JsonView {
    JsonView::Object(Seq::empty()
        .push(("AgentCapabilities"@, schema_agent_capabilities_view()))
        .push(("AgentCard"@, schema_agent_card_view()))
        .push(("AgentExtension"@, schema_agent_extension_view()))
        .push(("AgentProvider"@, schema_agent_provider_view()))
        .push(("AgentSkill"@, schema_agent_skill_view()))
        .push(("ComponentHealth"@, schema_component_health_view()))
        .push(("HealthCheckResponse"@, schema_health_check_response_view()))
        .push(("JSONRPCBatchRequest"@, schema_jsonrpc_batch_request_view()))
        .push(("JSONRPCBatchResponse"@, schema_jsonrpc_batch_response_view()))
        .push(("JSONRPCError"@, schema_jsonrpc_error_view()))
        .push(("JSONRPCRequest"@, schema_jsonrpc_request_view()))
        .push(("JSONRPCResponse"@, schema_jsonrpc_response_view()))
        .push(("LivenessCheckResponse"@, schema_liveness_check_response_view()))
        .push(("ReadinessCheckResponse"@, schema_readiness_check_response_view()))
    )
}

/// The component schemas of the document.
pub fn openapi_schemas() -> (r: JsonValue)
    ensures
        r@ == schemas_view(),
{
    let mut m: Vec<(String, JsonValue)> = Vec::new();
    push_member(&mut m, "AgentCapabilities", schema_agent_capabilities());
    push_member(&mut m, "AgentCard", schema_agent_card());
    push_member(&mut m, "AgentExtension", schema_agent_extension());
    push_member(&mut m, "AgentProvider", schema_agent_provider());
    push_member(&mut m, "AgentSkill", schema_agent_skill());
    push_member(&mut m, "ComponentHealth", schema_component_health());
    push_member(&mut m, "HealthCheckResponse", schema_health_check_response());
    push_member(&mut m, "JSONRPCBatchRequest", schema_jsonrpc_batch_request());
    push_member(&mut m, "JSONRPCBatchResponse", schema_jsonrpc_batch_response());
    push_member(&mut m, "JSONRPCError", schema_jsonrpc_error());
    push_member(&mut m, "JSONRPCRequest", schema_jsonrpc_request());
    push_member(&mut m, "JSONRPCResponse", schema_jsonrpc_response());
    push_member(&mut m, "LivenessCheckResponse", schema_liveness_check_response());
    push_member(&mut m, "ReadinessCheckResponse", schema_readiness_check_response());
    JsonValue::Object(m)
}

fn str_val(s: &String) -> (r: JsonValue)
    ensures
        r@ == JsonView::Str(s@),
{
    JsonValue::String(s.clone())
}

fn new_members() -> (r: Vec<(String, JsonValue)>)
    ensures
        members_view(r@) == Seq::<(Seq<char>, JsonView)>::empty(),
        r@.len() == 0,
{
    let r: Vec<(String, JsonValue)> = Vec::new();
    assert(members_view(r@) =~= Seq::<(Seq<char>, JsonView)>::empty());
    r
}

fn push_opt_str(m: &mut Vec<(String, JsonValue)>, key: &str, o: &Option<String>)
    ensures
        members_view(final(m)@) == members_view(old(m)@) + opt_member(o is Some, key@, JsonView::Str(opt_text(*o))),
{
    let ghost m0 = members_view(m@);
    match o {
        Some(s) => push_member(m, key, str_val(s)),
        None => {},
    }
    assert(members_view(m@) =~= m0 + opt_member(o is Some, key@, JsonView::Str(opt_text(*o))));
}

fn contact_to_json(c: &OpenApiContact) -> (r: JsonValue)
    ensures
        r@ == contact_json(*c),
{
    let mut m = new_members();
    push_opt_str(&mut m, "email", &c.email);
    let ghost a = members_view(m@);
    push_member(&mut m, "name", str_val(&c.name));
    assert(members_view(m@) =~= a + seq![("name"@, JsonView::Str(c.name@))]);
    push_opt_str(&mut m, "url", &c.url);
    let r = JsonValue::Object(m);
    assert(r@ == contact_json(*c)) by {
        assert(members_view(m@) =~= opt_member(c.email is Some, "email"@, JsonView::Str(opt_text(c.email)))
            + seq![("name"@, JsonView::Str(c.name@))]
            + opt_member(c.url is Some, "url"@, JsonView::Str(opt_text(c.url))));
    }
    r
}

fn license_to_json(l: &OpenApiLicense) -> (r: JsonValue)
    ensures
        r@ == license_json(*l),
{
    let mut m = new_members();
    push_member(&mut m, "name", str_val(&l.name));
    push_opt_str(&mut m, "url", &l.url);
    let r = JsonValue::Object(m);
    assert(r@ == license_json(*l)) by {
        assert(members_view(m@) =~= seq![("name"@, JsonView::Str(l.name@))]
            + opt_member(l.url is Some, "url"@, JsonView::Str(opt_text(l.url))));
    }
    r
}

fn info_to_json(i: &OpenApiInfo) -> (r: JsonValue)
    ensures
        r@ == info_json(*i),
{
    let mut m = new_members();
    match &i.contact {
        Some(c) => push_member(&mut m, "contact", contact_to_json(c)),
        None => {},
    }
    let ghost a = members_view(m@);
    assert(a =~= opt_member(i.contact is Some, "contact"@, contact_json(i.contact->0)));
    push_opt_str(&mut m, "description", &i.description);
    let ghost b = members_view(m@);
    match &i.license {
        Some(l) => push_member(&mut m, "license", license_to_json(l)),
        None => {},
    }
    let ghost c = members_view(m@);
    assert(c =~= b + opt_member(i.license is Some, "license"@, license_json(i.license->0)));
    push_opt_str(&mut m, "termsOfService", &i.terms_of_service);
    let ghost d = members_view(m@);
    push_member(&mut m, "title", str_val(&i.title));
    push_member(&mut m, "version", str_val(&i.version));
    assert(members_view(m@) =~= d + seq![("title"@, JsonView::Str(i.title@)), ("version"@, JsonView::Str(i.version@))]);
    let r = JsonValue::Object(m);
    assert(r@ == info_json(*i)) by {
        assert(members_view(m@) =~= opt_member(i.contact is Some, "contact"@, contact_json(i.contact->0))
            + opt_member(i.description is Some, "description"@, JsonView::Str(opt_text(i.description)))
            + opt_member(i.license is Some, "license"@, license_json(i.license->0))
            + opt_member(i.terms_of_service is Some, "termsOfService"@, JsonView::Str(opt_text(i.terms_of_service)))
            + seq![("title"@, JsonView::Str(i.title@)), ("version"@, JsonView::Str(i.version@))]);
    }
    r
}

fn server_to_json(s: &OpenApiServer) -> (r: JsonValue)
    ensures
        r@ == server_json(*s),
{
    let mut m = new_members();
    push_opt_str(&mut m, "description", &s.description);
    let ghost a = members_view(m@);
    push_member(&mut m, "url", str_val(&s.url));
    let ghost b = members_view(m@);
    assert(b =~= a + seq![("url"@, JsonView::Str(s.url@))]);
    match &s.variables {
        Some(v) => push_member(&mut m, "variables", clone_json(v)),
        None => {},
    }
    assert(members_view(m@) =~= b + opt_member(s.variables is Some, "variables"@, jview(s.variables->0)));
    let r = JsonValue::Object(m);
    assert(r@ == server_json(*s)) by {
        assert(members_view(m@) =~= opt_member(s.description is Some, "description"@, JsonView::Str(opt_text(s.description)))
            + seq![("url"@, JsonView::Str(s.url@))]
            + opt_member(s.variables is Some, "variables"@, jview(s.variables->0)));
    }
    r
}

fn scheme_to_json(s: &OpenApiSecurityScheme) -> (r: JsonValue)
    ensures
        r@ == scheme_json(*s),
{
    let mut m = new_members();
    match s {
        OpenApiSecurityScheme::Http { scheme, bearer_format, description } => {
            push_opt_str(&mut m, "bearer_format", bearer_format);
            push_opt_str(&mut m, "description", description);
            push_member(&mut m, "scheme", str_val(scheme));
            push_member(&mut m, "type", JsonValue::String(owned("http")));
            assert(members_view(m@) =~= opt_member(bearer_format is Some, "bearer_format"@, JsonView::Str(opt_text(*bearer_format)))
                + opt_member(description is Some, "description"@, JsonView::Str(opt_text(*description)))
                + seq![("scheme"@, JsonView::Str(scheme@)), ("type"@, JsonView::Str("http"@))]);
        },
        OpenApiSecurityScheme::ApiKey { name, in_, description } => {
            push_opt_str(&mut m, "description", description);
            push_member(&mut m, "in_", str_val(in_));
            push_member(&mut m, "name", str_val(name));
            push_member(&mut m, "type", JsonValue::String(owned("apiKey")));
            assert(members_view(m@) =~= opt_member(description is Some, "description"@, JsonView::Str(opt_text(*description)))
                + seq![("in_"@, JsonView::Str(in_@)), ("name"@, JsonView::Str(name@)), ("type"@, JsonView::Str("apiKey"@))]);
        },
        OpenApiSecurityScheme::OAuth2 { flows, description } => {
            push_opt_str(&mut m, "description", description);
            push_member(&mut m, "flows", clone_json(flows));
            push_member(&mut m, "type", JsonValue::String(owned("oauth2")));
            assert(members_view(m@) =~= opt_member(description is Some, "description"@, JsonView::Str(opt_text(*description)))
                + seq![("flows"@, jview(*flows)), ("type"@, JsonView::Str("oauth2"@))]);
        },
        OpenApiSecurityScheme::OpenIdConnect { open_id_connect_url, description } => {
            push_opt_str(&mut m, "description", description);
            push_member(&mut m, "open_id_connect_url", str_val(open_id_connect_url));
            push_member(&mut m, "type", JsonValue::String(owned("openIdConnect")));
            assert(members_view(m@) =~= opt_member(description is Some, "description"@, JsonView::Str(opt_text(*description)))
                + seq![("open_id_connect_url"@, JsonView::Str(open_id_connect_url@)), ("type"@, JsonView::Str("openIdConnect"@))]);
        },
    }
    JsonValue::Object(m)
}

/// The name of the scheme at `i`.
fn scheme_name_of(i: usize) -> (r: String)
    ensures
        r@ == scheme_name(i as nat),
{
    let mut r = owned("scheme_");
    push_decimal(i as u64, &mut r);
    r
}

fn push_opt_path(m: &mut Vec<(String, JsonValue)>, present: bool, key: &str, item: JsonValue)
    ensures
        members_view(final(m)@) == members_view(old(m)@) + opt_member(present, key@, jview(item)),
{
    let ghost m0 = members_view(m@);
    if present {
        push_member(m, key, item);
    }
    assert(members_view(m@) =~= m0 + opt_member(present, key@, jview(item)));
}

impl OpenApiBuilder {
    /// The document's info.
    pub closed spec fn info_spec(&self) -> OpenApiInfo {
        self.info
    }

    /// The servers, in the order they were added.
    pub closed spec fn servers_spec(&self) -> Seq<OpenApiServer> {
        self.servers@
    }

    /// The security schemes, in the order they were added.
    pub closed spec fn schemes_spec(&self) -> Seq<OpenApiSecurityScheme> {
        self.security_schemes@
    }

    /// Whether the health paths are documented.
    pub closed spec fn health_spec(&self) -> bool {
        self.include_health
    }

    /// Whether the document's own path is documented.
    pub closed spec fn spec_endpoint_spec(&self) -> bool {
        self.include_spec_endpoint
    }

    /// A builder for the A2A protocol server: title "A2A Protocol Server",
    /// version 0.3.0, the MIT license, no server, no security scheme, health
    /// and document paths included.
    pub fn new() -> (r: Self)
        ensures
            r.info_spec().title@ == "A2A Protocol Server"@,
            r.info_spec().version@ == "0.3.0"@,
            r.info_spec().description is Some,
            opt_text(r.info_spec().description) == "Agent-to-Agent (A2A) Protocol v0.3.0 Server Implementation"@,
            r.info_spec().terms_of_service is None,
            r.info_spec().contact is None,
            r.info_spec().license is Some,
            r.info_spec().license->0.name@ == "MIT"@,
            r.info_spec().license->0.url is Some,
            opt_text(r.info_spec().license->0.url) == "https://opensource.org/licenses/MIT"@,
            r.servers_spec().len() == 0,
            r.schemes_spec().len() == 0,
            r.health_spec(),
            r.spec_endpoint_spec(),
    {
        OpenApiBuilder {
            info: OpenApiInfo {
                title: owned("A2A Protocol Server"),
                version: owned("0.3.0"),
                description: Some(owned("Agent-to-Agent (A2A) Protocol v0.3.0 Server Implementation")),
                terms_of_service: None,
                contact: None,
                license: Some(OpenApiLicense {
                    name: owned("MIT"),
                    url: Some(owned("https://opensource.org/licenses/MIT")),
                }),
            },
            servers: Vec::new(),
            security_schemes: Vec::new(),
            include_health: true,
            include_spec_endpoint: true,
        }
    }

    /// Sets the title.
    pub fn with_title(self, title: String) -> (r: Self)
        ensures
            r.info_spec() == (OpenApiInfo { title, ..self.info_spec() }),
            r.servers_spec() == self.servers_spec(),
            r.schemes_spec() == self.schemes_spec(),
            r.health_spec() == self.health_spec(),
            r.spec_endpoint_spec() == self.spec_endpoint_spec(),
    {
        let mut b = self;
        b.info.title = title;
        b
    }

    /// Sets the version.
    pub fn with_version(self, version: String) -> (r: Self)
        ensures
            r.info_spec() == (OpenApiInfo { version, ..self.info_spec() }),
            r.servers_spec() == self.servers_spec(),
            r.schemes_spec() == self.schemes_spec(),
            r.health_spec() == self.health_spec(),
            r.spec_endpoint_spec() == self.spec_endpoint_spec(),
    {
        let mut b = self;
        b.info.version = version;
        b
    }

    /// Sets the description.
    pub fn with_description(self, description: String) -> (r: Self)
        ensures
            r.info_spec() == (OpenApiInfo { description: Some(description), ..self.info_spec() }),
            r.servers_spec() == self.servers_spec(),
            r.schemes_spec() == self.schemes_spec(),
            r.health_spec() == self.health_spec(),
            r.spec_endpoint_spec() == self.spec_endpoint_spec(),
    {
        let mut b = self;
        b.info.description = Some(description);
        b
    }

    /// Sets the contact.
    pub fn with_contact(self, contact: OpenApiContact) -> (r: Self)
        ensures
            r.info_spec() == (OpenApiInfo { contact: Some(contact), ..self.info_spec() }),
            r.servers_spec() == self.servers_spec(),
            r.schemes_spec() == self.schemes_spec(),
            r.health_spec() == self.health_spec(),
            r.spec_endpoint_spec() == self.spec_endpoint_spec(),
    {
        let mut b = self;
        b.info.contact = Some(contact);
        b
    }

    /// Adds a server, without variables.
    pub fn add_server(self, url: String, description: Option<String>) -> (r: Self)
        ensures
            r.info_spec() == self.info_spec(),
            r.servers_spec() == self.servers_spec().push(OpenApiServer { url, description, variables: None }),
            r.schemes_spec() == self.schemes_spec(),
            r.health_spec() == self.health_spec(),
            r.spec_endpoint_spec() == self.spec_endpoint_spec(),
    {
        let mut b = self;
        b.servers.push(OpenApiServer { url, description, variables: None });
        b
    }

    /// Adds an HTTP security scheme; a `bearer` scheme carries the JWT format.
    pub fn add_http_security(self, scheme: String, description: Option<String>) -> (r: Self)
        ensures
            r.info_spec() == self.info_spec(),
            r.schemes_spec().len() == self.schemes_spec().len() + 1,
            r.schemes_spec().drop_last() == self.schemes_spec(),
            r.schemes_spec().last() matches OpenApiSecurityScheme::Http { scheme: s, bearer_format: f, description: d }
                && s == scheme && d == description
                && (if scheme@ == "bearer"@ { f matches Some(x) && x@ == "JWT"@ } else { f is None }),
            r.servers_spec() == self.servers_spec(),
            r.health_spec() == self.health_spec(),
            r.spec_endpoint_spec() == self.spec_endpoint_spec(),
    {
        let mut b = self;
        let bearer_format = if str_eq(scheme.as_str(), "bearer") { Some(owned("JWT")) } else { None };
        let ghost before = b.security_schemes@;
        b.security_schemes.push(OpenApiSecurityScheme::Http { scheme, bearer_format, description });
        assert(b.security_schemes@.drop_last() =~= before);
        b
    }

    /// Adds an API key security scheme, read from `location` (header, query or cookie).
    pub fn add_api_key_security(self, name: String, location: String, description: Option<String>) -> (r: Self)
        ensures
            r.info_spec() == self.info_spec(),
            r.schemes_spec() == self.schemes_spec().push(OpenApiSecurityScheme::ApiKey { name, in_: location, description }),
            r.servers_spec() == self.servers_spec(),
            r.health_spec() == self.health_spec(),
            r.spec_endpoint_spec() == self.spec_endpoint_spec(),
    {
        let mut b = self;
        b.security_schemes.push(OpenApiSecurityScheme::ApiKey { name, in_: location, description });
        b
    }

    /// Sets whether the health paths are documented.
    pub fn include_health(self, on: bool) -> (r: Self)
        ensures
            r.info_spec() == self.info_spec(),
            r.servers_spec() == self.servers_spec(),
            r.schemes_spec() == self.schemes_spec(),
            r.health_spec() == on,
            r.spec_endpoint_spec() == self.spec_endpoint_spec(),
    {
        let mut b = self;
        b.include_health = on;
        b
    }

    /// Sets whether the document's own path is documented.
    pub fn include_spec_endpoint(self, on: bool) -> (r: Self)
        ensures
            r.info_spec() == self.info_spec(),
            r.servers_spec() == self.servers_spec(),
            r.schemes_spec() == self.schemes_spec(),
            r.health_spec() == self.health_spec(),
            r.spec_endpoint_spec() == on,
    {
        let mut b = self;
        b.include_spec_endpoint = on;
        b
    }

    /// The component schemas of the document.
    pub fn build_schemas(&self) -> (r: JsonValue)
        ensures
            r@ == schemas_view(),
    {
        openapi_schemas()
    }

    /// The OpenAPI document: its security schemes are named `scheme_<i>`
    /// for the scheme added `i`-th, and listed in key order.
    #[verifier::rlimit(50)]
    pub fn build(&self) -> (r: JsonValue)
        ensures
            exists|sec: Seq<(Seq<char>, JsonView)>| sorted_members(sec, scheme_map(self.schemes_spec()))
                && r@ == openapi_view(self.info_spec(), self.servers_spec(), sec, self.schemes_spec().len(),
                    self.health_spec(), self.spec_endpoint_spec()),
    {
        // paths
        let mut p = new_members();
        push_member(&mut p, "/", path_root());
        push_member(&mut p, "/.well-known/agent-card.json", path_agent_card());
        let ghost p0 = members_view(p@);
        assert(p0 =~= seq![("/"@, path_root_view()), ("/.well-known/agent-card.json"@, path_agent_card_view())]);
        let h = self.include_health;
        let sp = self.include_spec_endpoint;
        let hv = if h { path_health() } else { JsonValue::Null };
        push_opt_path(&mut p, h, "/health", hv);
        let lv = if h { path_live() } else { JsonValue::Null };
        push_opt_path(&mut p, h, "/live", lv);
        let ov = if sp { path_spec() } else { JsonValue::Null };
        push_opt_path(&mut p, sp, "/openapi.json", ov);
        let rv = if h { path_ready() } else { JsonValue::Null };
        push_opt_path(&mut p, h, "/ready", rv);
        let ghost p1 = members_view(p@);
        push_member(&mut p, "/skills", path_skills());
        push_member(&mut p, "/skills/{id}", path_skill_by_id());
        assert(members_view(p@) =~= p1 + seq![("/skills"@, path_skills_view()), ("/skills/{id}"@, path_skill_by_id_view())]);
        proof {
            assert(opt_member(h, "/health"@, jview(hv)) == opt_member(h, "/health"@, path_health_view()));
            assert(opt_member(h, "/live"@, jview(lv)) == opt_member(h, "/live"@, path_live_view()));
            assert(opt_member(sp, "/openapi.json"@, jview(ov)) == opt_member(sp, "/openapi.json"@, path_spec_view()));
            assert(opt_member(h, "/ready"@, jview(rv)) == opt_member(h, "/ready"@, path_ready_view()));
        }
        let paths = JsonValue::Object(p);
        assert(paths@ == paths_json(h, sp)) by {
            assert(members_view(p@) =~= seq![("/"@, path_root_view()), ("/.well-known/agent-card.json"@, path_agent_card_view())]
                + opt_member(h, "/health"@, path_health_view())
                + opt_member(h, "/live"@, path_live_view())
                + opt_member(sp, "/openapi.json"@, path_spec_view())
                + opt_member(h, "/ready"@, path_ready_view())
                + seq![("/skills"@, path_skills_view()), ("/skills/{id}"@, path_skill_by_id_view())]);
        }
        // security schemes and requirements
        let mut sm: StrMap<JsonValue> = StrMap::new();
        let mut reqs: Vec<JsonValue> = Vec::new();
        assert(items_view(reqs@) =~= Seq::<JsonView>::empty());
        assert(sm.map().map_values(|v: JsonValue| jview(v)) =~= scheme_map(self.security_schemes@.take(0)));
        let mut i: usize = 0;
        while i < self.security_schemes.len()
            invariant
                i <= self.security_schemes@.len(),
                sm.wf(),
                sm.map().map_values(|v: JsonValue| jview(v)) == scheme_map(self.security_schemes@.take(i as int)),
                items_view(reqs@) == requirements(i as nat),
            decreases self.security_schemes@.len() - i,
        {
            let ghost t = self.security_schemes@.take(i + 1);
            assert(t.drop_last() =~= self.security_schemes@.take(i as int));
            assert(t.last() == self.security_schemes@[i as int]);
            let name = scheme_name_of(i);
            let mut req = new_members();
            let mut none: Vec<JsonValue> = Vec::new();
            assert(items_view(none@) =~= Seq::<JsonView>::empty());
            push_member(&mut req, name.as_str(), JsonValue::Array(none));
            push_item(&mut reqs, JsonValue::Object(req));
            let ghost before = sm.map();
            let sj = scheme_to_json(&self.security_schemes[i]);
            let ghost nv = name@;
            let ghost jv = jview(sj);
            sm.insert(name, sj);
            assert(sm.map().map_values(|v: JsonValue| jview(v)) =~= before.map_values(|v: JsonValue| jview(v)).insert(nv, jv));
            i = i + 1;
        }
        assert(self.security_schemes@.take(i as int) =~= self.security_schemes@);
        if self.security_schemes.len() == 0 {
            push_item(&mut reqs, JsonValue::Object(new_members()));
        }
        let ghost sec_items = items_view(reqs@);
        assert(sec_items =~= security_json(self.security_schemes@.len()));
        let pairs = sm.iter_pairs();
        let mut schemes = new_members();
        let ghost ks = sm.keys();
        let ghost vs = sm.vals();
        let mut j: usize = 0;
        while j < pairs.len()
            invariant
                j <= pairs@.len(),
                pairs@.len() == ks.len(),
                ks == sm.keys(),
                vs == sm.vals(),
                forall|q: int| 0 <= q < pairs@.len() ==> (#[trigger] pairs@[q]).0@ == ks[q] && *pairs@[q].1 == vs[q],
                members_view(schemes@) == Seq::new(j as nat, |q: int| (ks[q], jview(vs[q]))),
            decreases pairs@.len() - j,
        {
            let (k, v) = pairs[j];
            assert(pairs@[j as int].0@ == ks[j as int]);
            push_member(&mut schemes, k.as_str(), clone_json(v));
            assert(members_view(schemes@) =~= Seq::new((j + 1) as nat, |q: int| (ks[q], jview(vs[q]))));
            j = j + 1;
        }
        let ghost sec = members_view(schemes@);
        proof {
            sm.lemma_entries();
            let mv = sm.map().map_values(|v: JsonValue| jview(v));
            assert(member_keys(sec) =~= ks);
            let vj = member_vals(sec);
            assert(vj =~= Seq::new(ks.len(), |q: int| jview(vs[q])));
            assert forall|q: int| 0 <= q < ks.len() implies #[trigger] mv.contains_key(ks[q]) && mv[ks[q]] == vj[q] by {
                assert(sm.map().contains_key(ks[q]));
            }
            assert forall|k: Seq<char>| #[trigger] mv.contains_key(k) implies has_key(ks, k) by {
                assert(sm.map().contains_key(k));
            }
            lemma_pairs_ext(ks, vj, mv);
            assert(sorted_members(sec, scheme_map(self.security_schemes@)));
        }
        // servers
        let mut servers: Vec<JsonValue> = Vec::new();
        assert(items_view(servers@) =~= Seq::<JsonView>::empty());
        let mut j: usize = 0;
        while j < self.servers.len()
            invariant
                j <= self.servers@.len(),
                items_view(servers@) == servers_json(self.servers@.take(j as int)),
            decreases self.servers@.len() - j,
        {
            let ghost t = self.servers@.take(j + 1);
            assert(t.drop_last() =~= self.servers@.take(j as int));
            assert(t.last() == self.servers@[j as int]);
            push_item(&mut servers, server_to_json(&self.servers[j]));
            j = j + 1;
        }
        assert(self.servers@.take(j as int) =~= self.servers@);
        // the document
        let mut comp = new_members();
        push_member(&mut comp, "schemas", openapi_schemas());
        push_member(&mut comp, "securitySchemes", JsonValue::Object(schemes));
        let mut top = new_members();
        push_member(&mut top, "components", JsonValue::Object(comp));
        push_member(&mut top, "info", info_to_json(&self.info));
        push_member(&mut top, "openapi", JsonValue::String(owned("3.0.0")));
        push_member(&mut top, "paths", paths);
        push_member(&mut top, "security", JsonValue::Array(reqs));
        push_member(&mut top, "servers", JsonValue::Array(servers));
        let r = JsonValue::Object(top);
        assert(jview(JsonValue::Array(servers)) == JsonView::Array(servers_json(self.servers@)));
        assert(jview(JsonValue::Array(reqs)) == JsonView::Array(security_json(self.security_schemes@.len())));
        assert(jview(JsonValue::Object(schemes)) == JsonView::Object(sec));
        assert(r@ == openapi_view(self.info_spec(), self.servers_spec(), sec, self.schemes_spec().len(),
            self.health_spec(), self.spec_endpoint_spec()));
        r
    }
}

impl Default for OpenApiBuilder {
    fn default() -> (r: Self)
        ensures
            r.servers_spec().len() == 0,
            r.schemes_spec().len() == 0,
            r.health_spec(),
            r.spec_endpoint_spec(),
    {
        Self::new()
    }
}

} // verus!
