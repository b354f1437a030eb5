use centaur_waf::admin::{
    admin_request, admin_route, AdminAction, health_response, info_response, join, not_found_response, reload_response,
    server_response, stats_response, AdminRoute,
};
use centaur_waf::engine::Engine;
use centaur_waf::rule::ParsedRule;
use centaur_waf::shared::{build_registry, load_with_fallback, EngineRegistry, RulesSource, SharedWaf};

fn deny_uri(id: u32, pattern: &str) -> ParsedRule {
    ParsedRule {
        id,
        phase: 1,
        variable: "REQUEST_URI".to_string(),
        operator: "streq".to_string(),
        pattern: pattern.to_string(),
        actions: vec![("action".to_string(), "deny".to_string())],
        msg: None,
        status: None,
    }
}

#[test]
fn admin_paths() {
    assert!(matches!(admin_route("/reload"), AdminRoute::Reload));
    assert!(matches!(admin_route("/stats"), AdminRoute::Stats));
    assert!(matches!(admin_route("/health"), AdminRoute::Health));
    assert!(matches!(admin_route("/info"), AdminRoute::Info));
    assert!(matches!(admin_route("/server/"), AdminRoute::NotFound));
    match admin_route("/server/api") {
        AdminRoute::Server(n) => assert_eq!(n, "api"),
        other => panic!("unexpected {:?}", other),
    }
    assert!(matches!(admin_route("/reload/"), AdminRoute::NotFound));
    assert!(matches!(admin_route("/"), AdminRoute::NotFound));
}

#[test]
fn fixed_responses() {
    let h = health_response();
    assert_eq!((h.status, h.body.as_str()), (200, "healthy"));
    let n = not_found_response();
    assert_eq!(n.status, 404);
    assert!(n.body.contains("/reload"));
}

#[test]
fn reload_responses() {
    let ok = reload_response(&Ok(()));
    assert_eq!(ok.status, 200);
    let err = reload_response(&Err(vec!["a: missing".to_string(), "b: bad".to_string()]));
    assert_eq!(err.status, 500);
    assert_eq!(err.body, "❌ Reload failed: a: missing; b: bad");
    assert_eq!(join(&vec![], ", "), "");
}

#[test]
fn registry_reload_keeps_engine_on_failure() {
    let mut registry = EngineRegistry::new();
    registry.insert("api", SharedWaf::new(Engine::new(vec![deny_uri(1, "/a")]), "rules/api"));
    registry.insert("web", SharedWaf::new(Engine::empty(), "rules/web"));
    assert_eq!(registry.get_server_list(), vec!["api".to_string(), "web".to_string()]);
    let result = registry.reload_all_rules(vec![
        ("api".to_string(), Err("no such file".to_string())),
        ("web".to_string(), Ok(Engine::new(vec![deny_uri(2, "/b"), deny_uri(3, "/c")]))),
    ]);
    assert_eq!(result, Err(vec!["Failed to reload rules for api: no such file".to_string()]));
    assert_eq!(registry.get("api").unwrap().summary().total, 1);
    assert_eq!(registry.get("web").unwrap().summary().total, 2);
    assert!(registry.get("none").is_none());
    assert_eq!(registry.reload_all_rules(vec![("api".to_string(), Ok(Engine::empty()))]), Ok(()));
    assert_eq!(registry.get("api").unwrap().summary().total, 0);
    let later = registry.reload_all_rules(vec![
        ("api".to_string(), Ok(Engine::new(vec![deny_uri(4, "/d")]))),
        ("api".to_string(), Err("second read failed".to_string())),
        ("ghost".to_string(), Ok(Engine::empty())),
    ]);
    assert_eq!(later, Err(vec!["Failed to reload rules for api: second read failed".to_string()]));
    assert_eq!(registry.get("api").unwrap().summary().total, 1);
    assert_eq!(registry.get_server_list(), vec!["api".to_string(), "web".to_string()]);
}

#[test]
fn cell_reload_now() {
    let mut cell = SharedWaf::new(Engine::new(vec![deny_uri(1, "/a")]), "rules/x");
    assert_eq!(cell.path(), "rules/x");
    assert_eq!(cell.reload_now(Err("broken".to_string())), Err("broken".to_string()));
    assert_eq!(cell.summary().total, 1);
    assert_eq!(cell.reload_now(Ok(Engine::empty())), Ok(()));
    assert_eq!(cell.summary().total, 0);
    let v = cell.check_detailed("GET /a HTTP/1.1", &centaur_waf::engine::Headers::new(), "/a", None);
    assert!(v.allowed);
}

#[test]
fn fallback_ladder() {
    let load = |p: &str| if p == "good" { Some(Engine::new(vec![deny_uri(1, "/")])) } else { None };
    let (cell, source) = load_with_fallback(&load, "good", "good");
    assert_eq!((source, cell.path()), (RulesSource::Primary, "good"));
    let (cell, source) = load_with_fallback(&load, "bad", "good");
    assert_eq!((source, cell.path()), (RulesSource::Default, "good"));
    let (cell, source) = load_with_fallback(&load, "bad", "worse");
    assert_eq!((source, cell.path()), (RulesSource::Empty, "empty"));
    assert_eq!(cell.summary().total, 0);
}

#[test]
fn registry_texts() {
    let mut registry = EngineRegistry::new();
    registry.insert("api", SharedWaf::new(Engine::new(vec![deny_uri(1, "/a")]), "p"));
    let stats = stats_response(&registry);
    assert_eq!(stats.status, 200);
    assert_eq!(stats.body, "=== api ===\nВсего правил: 1 (блокирующих: 1, логгируемых: 0)\nПравил URI: 1, Правил заголовков: 0\n");
    let info = info_response(&registry);
    assert_eq!(info.body, "api: Всего правил: 1 (блокирующих: 1, логгируемых: 0)");
    let one = server_response(&registry, "api");
    assert_eq!(one.status, 200);
    let missing = server_response(&registry, "nope");
    assert_eq!((missing.status, missing.body.as_str()), (404, "Server 'nope' not found"));
    registry.insert("web", SharedWaf::new(Engine::empty(), "q"));
    assert_eq!(registry.get_server_list(), vec!["api".to_string(), "web".to_string()]);
    match admin_request("/server/", &registry) {
        AdminAction::Reply(r) => assert_eq!(r.status, 404),
        _ => panic!("expected a reply"),
    }
}

fn require_send_sync<T: Send + Sync>() {}

#[test]
fn registry_and_context_are_shareable() {
    require_send_sync::<EngineRegistry>();
    require_send_sync::<centaur_waf::pipeline::RequestContext>();
}

#[test]
fn admin_requests_dispatch() {
    let mut registry = EngineRegistry::new();
    registry.insert("api", SharedWaf::new(Engine::new(vec![deny_uri(1, "/a")]), "p"));
    assert!(matches!(admin_request("/reload", &registry), AdminAction::ReloadAll));
    match admin_request("/health", &registry) {
        AdminAction::Reply(r) => assert_eq!((r.status, r.body.as_str()), (200, "healthy")),
        _ => panic!("expected a reply"),
    }
    match admin_request("/server/api", &registry) {
        AdminAction::Reply(r) => {
            assert_eq!(r.status, 200);
            assert!(r.body.starts_with("Всего правил: 1"));
        }
        _ => panic!("expected a reply"),
    }
    match admin_request("/server/nope", &registry) {
        AdminAction::Reply(r) => assert_eq!(r.status, 404),
        _ => panic!("expected a reply"),
    }
    match admin_request("/elsewhere", &registry) {
        AdminAction::Reply(r) => {
            assert_eq!(r.status, 404);
            assert!(r.body.starts_with("❌ Endpoint not found"));
        }
        _ => panic!("expected a reply"),
    }
}

#[test]
fn startup_registry_uses_the_fallback_order() {
    let load = |p: &str| match p {
        "rules/api" => Some(Engine::new(vec![deny_uri(1, "/a"), deny_uri(2, "/b")])),
        "rules/default" => Some(Engine::new(vec![deny_uri(9, "/z")])),
        _ => None,
    };
    let ups = vec![
        ("api".to_string(), "rules/api".to_string()),
        ("web".to_string(), "rules/web".to_string()),
    ];
    let registry = build_registry(&load, &ups, "rules/default");
    assert_eq!(registry.get_server_list(), vec!["api".to_string(), "web".to_string()]);
    assert_eq!(registry.get("api").unwrap().path(), "rules/api");
    assert_eq!(registry.get("api").unwrap().summary().total, 2);
    assert_eq!(registry.get("web").unwrap().path(), "rules/default");
    assert_eq!(registry.get("web").unwrap().summary().total, 1);
    let none = |_: &str| None;
    let bare = build_registry(&none, &ups, "rules/default");
    assert_eq!(bare.get("web").unwrap().path(), "empty");
    assert_eq!(bare.get("web").unwrap().summary().total, 0);
}
