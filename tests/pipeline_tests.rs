use centaur_waf::body::{BodyInspector, BodyTooLarge, DEFAULT_MAX_BODY_SIZE};
use centaur_waf::engine::{Engine, Headers};
use centaur_waf::pipeline::{
    body_chunk, body_phase_end, headers_phase, inspect_body, inspect_headers, request_line, Decision,
    HttpVersion, RequestContext,
};
use centaur_waf::rule::ParsedRule;
use centaur_waf::shared::{EngineRegistry, SharedWaf};

fn rule(id: u32, phase: u8, variable: &str, operator: &str, pattern: &str) -> ParsedRule {
    ParsedRule {
        id,
        phase,
        variable: variable.to_string(),
        operator: operator.to_string(),
        pattern: pattern.to_string(),
        actions: vec![("action".to_string(), "deny".to_string())],
        msg: None,
        status: None,
    }
}

fn table(entries: &[(&str, &str)]) -> Vec<(String, String)> {
    entries.iter().map(|(n, s)| (n.to_string(), s.to_string())).collect()
}

#[test]
fn body_exactly_at_bound_is_accepted() {
    let mut b = BodyInspector::new(1024, true);
    assert!(b.append_chunk(&[7u8; 1000]).is_ok());
    assert!(b.append_chunk(&[7u8; 24]).is_ok());
    assert_eq!(b.get_body().len(), 1024);
}

#[test]
fn body_one_past_bound_is_refused_unchanged() {
    let mut b = BodyInspector::new(1024, true);
    assert!(b.append_chunk(&[1u8; 1000]).is_ok());
    assert_eq!(b.append_chunk(&[2u8; 25]), Err(BodyTooLarge { max_body_size: 1024 }));
    assert_eq!(b.get_body(), vec![1u8; 1000]);
    b.clear();
    assert!(b.get_body().is_empty());
}

#[test]
fn disabled_inspector_ignores_chunks() {
    let mut b = BodyInspector::new(1, false);
    assert!(b.append_chunk(&[0u8; 10]).is_ok());
    assert!(b.get_body().is_empty());
    assert!(!b.enabled());
    assert_eq!(b.max_body_size(), 1);
}

#[test]
fn body_too_large_answers_413() {
    let mut ctx = RequestContext::with_body_limit("10.0.0.1", 1024);
    let body = vec![b'a'; 1025];
    assert_eq!(body_chunk(&mut ctx, &body, 7), Decision::Respond(413));
    assert_eq!(ctx.violations.len(), 1);
    assert_eq!(ctx.violations[0].rule_id, 413);
    assert_eq!(ctx.violations[0].source, "body");
    assert!(ctx.violations[0].blocked);
    assert_eq!(ctx.violations[0].timestamp, 7);
    assert_eq!(ctx.violations[0].reason, "Body size limit exceeded: Request body exceeds maximum size of 1024 bytes");
}

#[test]
fn default_context_bound() {
    let ctx = RequestContext::new("1.2.3.4");
    assert_eq!(ctx.body_inspector.max_body_size(), DEFAULT_MAX_BODY_SIZE);
    assert_eq!(DEFAULT_MAX_BODY_SIZE, 10 * 1024 * 1024);
    assert_eq!(ctx.client_ip, "1.2.3.4");
}

#[test]
fn request_line_rendering() {
    assert_eq!(request_line("GET", "/a?b=c", HttpVersion::Http11), "GET /a?b=c HTTP/1.1");
    assert_eq!(request_line("POST", "/", HttpVersion::Http10), "POST / HTTP/1.0");
    assert_eq!(request_line("GET", "/", HttpVersion::Http2), "GET / HTTP/2.0");
    assert_eq!(request_line("GET", "/", HttpVersion::Other), "GET / HTTP/1.1");
}

#[test]
fn header_phase_blocks_and_records() {
    let engine = Engine::new(vec![rule(1001, 1, "REQUEST_HEADERS:User-Agent", "contains", "sqlmap")]);
    let mut ctx = RequestContext::new("c");
    let mut h = Headers::new();
    h.insert("User-Agent", "sqlmap/1.8");
    let d = inspect_headers(&mut ctx, &engine, "GET / HTTP/1.1", &h, "/", 7);
    assert_eq!(d, Decision::Respond(403));
    assert_eq!(ctx.violations.len(), 1);
    assert_eq!(ctx.violations[0].rule_id, 1001);
    assert_eq!(ctx.violations[0].source, "header");
}

#[test]
fn body_phase_blocks_after_header_phase_allows() {
    let engine = Engine::new(vec![rule(3001, 2, "REQUEST_BODY", "rx", "(?i)select\\s+.*\\s+from")]);
    let mut ctx = RequestContext::new("c");
    let h = Headers::new();
    assert_eq!(inspect_headers(&mut ctx, &engine, "POST /q HTTP/1.1", &h, "/q", 7), Decision::Continue);
    assert_eq!(body_chunk(&mut ctx, b"select id ", 7), Decision::Continue);
    assert_eq!(body_chunk(&mut ctx, b"from users", 7), Decision::Continue);
    assert_eq!(inspect_body(&mut ctx, &engine, "POST /q HTTP/1.1", &h, "/q", 7), Decision::Respond(403));
    assert_eq!(ctx.violations.len(), 1);
    assert_eq!(ctx.violations[0].source, "body");
    assert!(ctx.body_inspector.get_body().is_empty());
}

#[test]
fn empty_body_skips_body_phase() {
    let engine = Engine::new(vec![rule(1, 2, "REQUEST_BODY", "!beginswith", "x")]);
    let mut ctx = RequestContext::new("c");
    assert_eq!(inspect_body(&mut ctx, &engine, "POST / HTTP/1.1", &Headers::new(), "/", 7), Decision::Continue);
    assert!(ctx.violations.is_empty());
}

#[test]
fn invalid_utf8_body_is_still_inspected() {
    let engine = Engine::new(vec![rule(9, 2, "REQUEST_BODY", "contains", "evil")]);
    let mut ctx = RequestContext::new("c");
    assert_eq!(body_chunk(&mut ctx, &[0xff, b'e', b'v', b'i', b'l'], 7), Decision::Continue);
    assert_eq!(inspect_body(&mut ctx, &engine, "POST / HTTP/1.1", &Headers::new(), "/", 7), Decision::Respond(403));
}

#[test]
fn full_phases_through_registry() {
    let mut registry = EngineRegistry::new();
    registry.insert("api", SharedWaf::new(Engine::new(vec![rule(2001, 1, "REQUEST_URI", "streq", "/admin"), rule(3001, 2, "REQUEST_BODY", "contains", "drop table")]), "rules/api"));
    let t = table(&[("api", "*.api.example.com"), ("web", "default")]);
    let h = Headers::new();

    let mut ctx = RequestContext::new("c");
    let d = headers_phase(&mut ctx, &t, &registry, Some("Foo.Api.Example.com "), "GET", "/admin", HttpVersion::Http11, &h, 7);
    assert_eq!(d, Decision::Respond(403));
    assert_eq!(ctx.upstream_name.as_deref(), Some("api"));

    let mut ctx = RequestContext::new("c");
    let d = headers_phase(&mut ctx, &t, &registry, Some("foo.api.example.com"), "POST", "/q", HttpVersion::Http11, &h, 7);
    assert_eq!(d, Decision::Continue);
    assert_eq!(body_chunk(&mut ctx, b"please DROP TABLE users", 7), Decision::Continue);
    assert_eq!(body_phase_end(&mut ctx, &registry, "POST", "/q", HttpVersion::Http11, &h, 7), Decision::Respond(403));

    let mut ctx = RequestContext::new("c");
    let d = headers_phase(&mut ctx, &t, &registry, None, "GET", "/", HttpVersion::Http11, &h, 7);
    assert_eq!(d, Decision::Respond(500));
    assert_eq!(ctx.upstream_name.as_deref(), Some("web"));

    let mut ctx = RequestContext::new("c");
    let d = headers_phase(&mut ctx, &Vec::new(), &registry, Some("x"), "GET", "/", HttpVersion::Http11, &h, 7);
    assert_eq!(d, Decision::Respond(404));
    assert!(ctx.upstream_name.is_none());
}

#[test]
fn body_phase_without_upstream_goes_on() {
    let registry = EngineRegistry::new();
    let mut ctx = RequestContext::new("c");
    assert_eq!(body_chunk(&mut ctx, b"data", 7), Decision::Continue);
    assert_eq!(body_phase_end(&mut ctx, &registry, "POST", "/", HttpVersion::Http11, &Headers::new(), 7), Decision::Continue);
}
