use centaur_waf::engine::{Engine, Headers};
use centaur_waf::rule::ParsedRule;
use centaur_waf::secrule::parse_secrules;

fn rule(id: u32, phase: u8, variable: &str, operator: &str, pattern: &str, action: &str) -> ParsedRule {
    ParsedRule {
        id,
        phase,
        variable: variable.to_string(),
        operator: operator.to_string(),
        pattern: pattern.to_string(),
        actions: vec![("action".to_string(), action.to_string())],
        msg: None,
        status: None,
    }
}

fn headers(pairs: &[(&str, &str)]) -> Headers {
    let mut h = Headers::new();
    for (n, v) in pairs {
        h.insert(n, v);
    }
    h
}

#[test]
fn user_agent_block() {
    let engine = Engine::new(vec![rule(1001, 1, "REQUEST_HEADERS:User-Agent", "contains", "sqlmap", "deny")]);
    let h = headers(&[("User-Agent", "sqlmap/1.8")]);
    let v = engine.check_detailed("GET / HTTP/1.1", &h, "/", None);
    assert!(!v.allowed);
    assert_eq!(v.rule_id, 1001);
    assert_eq!(v.status, 403);
    assert_eq!(v.header_name.as_deref(), Some("User-Agent"));
    assert_eq!(v.header_value.as_deref(), Some("sqlmap/1.8"));
    assert_eq!(v.reason, "header 'User-Agent' содержит 'sqlmap'");
}

#[test]
fn allowed_user_agent() {
    let engine = Engine::new(vec![rule(1001, 1, "REQUEST_HEADERS:User-Agent", "contains", "sqlmap", "deny")]);
    let h = headers(&[("User-Agent", "Mozilla/5.0")]);
    let v = engine.check_detailed("GET / HTTP/1.1", &h, "/", None);
    assert!(v.allowed);
    assert_eq!(v.rule_id, 0);
    assert!(engine.check("GET / HTTP/1.1", &h, "/"));
}

#[test]
fn header_lookup_ignores_case() {
    let engine = Engine::new(vec![rule(1001, 1, "REQUEST_HEADERS:user-agent", "contains", "SQLMAP", "deny")]);
    let h = headers(&[("USER-AGENT", "SqlMap/1.8")]);
    assert!(!engine.check("GET / HTTP/1.1", &h, "/"));
}

#[test]
fn absent_header_does_not_match() {
    let engine = Engine::new(vec![rule(7, 1, "REQUEST_HEADERS:X-Missing", "!beginswith", "a", "deny")]);
    assert!(engine.check("GET / HTTP/1.1", &Headers::new(), "/"));
}

#[test]
fn uri_exact_match() {
    let engine = Engine::new(vec![rule(2001, 1, "REQUEST_URI", "streq", "/admin", "deny")]);
    let h = Headers::new();
    let v = engine.check_detailed("GET /admin HTTP/1.1", &h, "/admin", None);
    assert!(!v.allowed);
    assert_eq!(v.rule_id, 2001);
    assert_eq!(v.reason, "URI равно '/admin'");
    assert!(engine.check("GET /admin/ HTTP/1.1", &h, "/admin/"));
}

#[test]
fn body_phase_regex() {
    let engine = Engine::new(vec![rule(3001, 2, "REQUEST_BODY", "rx", "(?i)select\\s+.*\\s+from", "deny")]);
    let h = Headers::new();
    let head = engine.check_detailed("POST /q HTTP/1.1", &h, "/q", None);
    assert!(head.allowed);
    let body = engine.check_detailed("POST /q HTTP/1.1", &h, "/q", Some("select id from users"));
    assert!(!body.allowed);
    assert_eq!(body.rule_id, 3001);
    assert_eq!(body.status, 403);
    let clean = engine.check_detailed("POST /q HTTP/1.1", &h, "/q", Some("hello"));
    assert!(clean.allowed);
}

#[test]
fn regex_is_case_insensitive_without_flag() {
    let engine = Engine::new(vec![rule(5, 1, "REQUEST_URI", "rx", "^/ADMIN", "deny")]);
    assert!(!engine.check("GET /admin HTTP/1.1", &Headers::new(), "/admin"));
}

#[test]
fn empty_engine_allows_everything() {
    let engine = Engine::empty();
    let h = headers(&[("User-Agent", "sqlmap")]);
    let v = engine.check_detailed("GET / HTTP/1.1", &h, "/", None);
    assert!(v.allowed);
    assert_eq!(v.rule_id, 0);
    assert_eq!(v.reason, "Ни одно правило не сработало");
    assert_eq!(v.msg.as_deref(), Some(""));
    let b = engine.check_detailed("GET / HTTP/1.1", &h, "/", Some("anything"));
    assert!(b.allowed);
}

#[test]
fn earliest_matching_rule_wins() {
    let engine = Engine::new(vec![
        rule(10, 1, "REQUEST_URI", "contains", "zzz", "deny"),
        rule(11, 1, "REQUEST_URI", "beginswith", "/a", "allow"),
        rule(12, 1, "REQUEST_URI", "contains", "admin", "deny"),
    ]);
    let v = engine.check_detailed("GET /admin HTTP/1.1", &Headers::new(), "/admin", None);
    assert_eq!(v.rule_id, 11);
    assert!(v.allowed);
    assert_eq!(v.matched_rule.as_ref().map(|r| r.id), Some(11));
}

#[test]
fn non_deny_rule_never_blocks() {
    let engine = Engine::new(vec![rule(20, 1, "REQUEST_LINE", "contains", "get", "log")]);
    let v = engine.check_detailed("GET / HTTP/1.1", &Headers::new(), "/", None);
    assert!(v.allowed);
    assert_eq!(v.rule_id, 20);
    assert_eq!(v.header_name.as_deref(), Some("REQUEST_LINE"));
}

#[test]
fn case_changes_do_not_change_the_verdict() {
    let a = Engine::new(vec![rule(30, 1, "REQUEST_URI", "contains", "Admin", "deny")]);
    let b = Engine::new(vec![rule(30, 1, "REQUEST_URI", "contains", "aDMIN", "deny")]);
    for uri in ["/ADMIN", "/admin", "/AdMiN"] {
        let va = a.check_detailed("GET", &Headers::new(), uri, None);
        let vb = b.check_detailed("GET", &Headers::new(), uri, None);
        assert!(!va.allowed);
        assert_eq!(va.allowed, vb.allowed);
        assert_eq!(va.rule_id, vb.rule_id);
    }
}

#[test]
fn header_rules_never_run_in_body_phase() {
    let engine = Engine::new(vec![rule(40, 1, "REQUEST_URI", "contains", "x", "deny")]);
    let v = engine.check_detailed("GET /x HTTP/1.1", &Headers::new(), "/x", Some("x"));
    assert!(v.allowed);
    let body_rule = Engine::new(vec![rule(41, 1, "REQUEST_BODY", "contains", "x", "deny")]);
    assert!(body_rule.check("GET /x HTTP/1.1", &Headers::new(), "/x"));
}

#[test]
fn invalid_regex_never_matches() {
    let engine = Engine::new(vec![rule(50, 1, "REQUEST_URI", "rx", "([", "deny")]);
    assert_eq!(engine.rules().len(), 1);
    assert!(engine.check("GET /([ HTTP/1.1", &Headers::new(), "/(["));
}

#[test]
fn configured_status_and_message() {
    let mut r = rule(60, 1, "REQUEST_URI", "beginswith", "/secret", "deny");
    r.status = Some(451);
    r.msg = Some("no".to_string());
    let engine = Engine::new(vec![r]);
    let v = engine.check_detailed("GET /secret HTTP/1.1", &Headers::new(), "/secret/x", None);
    assert_eq!(v.status, 451);
    assert_eq!(v.msg.as_deref(), Some("no"));
}

#[test]
fn unknown_operator_and_variable_never_match() {
    let engine = Engine::new(vec![
        rule(70, 1, "REQUEST_URI", "gt", "/", "deny"),
        rule(71, 1, "ARGS", "contains", "/", "deny"),
    ]);
    assert!(engine.check("GET / HTTP/1.1", &Headers::new(), "/"));
}

#[test]
fn rules_summary_counts() {
    let engine = Engine::new(vec![
        rule(1, 1, "REQUEST_URI", "contains", "a", "deny"),
        rule(2, 1, "REQUEST_HEADERS:Host", "contains", "a", "log"),
        rule(3, 2, "REQUEST_BODY", "contains", "a", "deny"),
    ]);
    let s = engine.summary();
    assert_eq!((s.total, s.blocking, s.logging, s.uri_rules, s.header_rules), (3, 2, 1, 1, 1));
    assert_eq!(
        engine.get_rules_info(),
        "Всего правил: 3 (блокирующих: 2, логгируемых: 1)\nПравил URI: 1, Правил заголовков: 1"
    );
}

#[test]
fn textual_rules_block_like_tabular_ones() {
    let text = "# comment\n\nSecRule REQUEST_HEADERS:User-Agent \"@contains sqlmap\" \"id:1001,phase:1,deny,status:403,msg:'Block sqlmap user agent'\"\n";
    let engine = Engine::new(parse_secrules(text));
    let v = engine.check_detailed("GET / HTTP/1.1", &headers(&[("User-Agent", "sqlmap/1.8")]), "/", None);
    assert!(!v.allowed);
    assert_eq!(v.rule_id, 1001);
    assert_eq!(v.msg.as_deref(), Some("Block sqlmap user agent"));
    assert!(engine.check("GET / HTTP/1.1", &headers(&[("User-Agent", "curl/8.0")]), "/"));
}
