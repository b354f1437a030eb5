use centaur_waf::config::{Config, ServerConfig, UpstreamConfig};
use centaur_waf::operator::{check_operator, operator_desc, operator_kind, OperatorKind};

fn config() -> Config {
    Config {
        admin_port: 9000,
        servers: vec![(
            "main".to_string(),
            ServerConfig {
                listen_addr: Some("0.0.0.0:8080".to_string()),
                max_body_size: Some(2048),
                addr: "0.0.0.0:8080".to_string(),
                upstreams: vec!["api".to_string(), "missing".to_string(), "web".to_string()],
            },
        ), (
            "other".to_string(),
            ServerConfig { listen_addr: None, max_body_size: None, addr: "0.0.0.0:8081".to_string(), upstreams: vec![] },
        )],
        upstreams: vec![
            ("web".to_string(), UpstreamConfig { addrs: vec!["127.0.0.1:3000".to_string()], use_tls: false, sni: "default".to_string(), waf_rules: "web".to_string() }),
            ("api".to_string(), UpstreamConfig { addrs: vec!["127.0.0.1:4000".to_string()], use_tls: true, sni: "*.api.example.com".to_string(), waf_rules: "api".to_string() }),
        ],
        tracing: None,
    }
}

#[test]
fn config_getters() {
    let c = config();
    assert_eq!(c.get_admin_port(), 9000);
    assert!(c.has_unique_names());
    let mut dup = config();
    dup.upstreams.push(("web".to_string(), UpstreamConfig { addrs: vec![], use_tls: false, sni: "x".to_string(), waf_rules: "x".to_string() }));
    assert!(!dup.has_unique_names());
    assert_eq!(c.get_servers().len(), 2);
    assert_eq!(c.get_server_listen_addr("main").as_deref(), Some("0.0.0.0:8080"));
    assert_eq!(c.get_server_listen_addr("other"), None);
    assert_eq!(c.get_server_listen_addr("nope"), None);
    assert_eq!(c.get_server_max_body_size("main"), 2048);
    assert_eq!(c.get_server_max_body_size("other"), 10 * 1024 * 1024);
    assert_eq!(c.get_server_max_body_size("nope"), 10 * 1024 * 1024);
    assert_eq!(c.get_server("other").unwrap().addr, "0.0.0.0:8081");
    assert!(c.get_server("nope").is_none());
    assert_eq!(c.get_upstream("api").unwrap().get_identifier(), "*.api.example.com");
    assert!(c.get_upstream("missing").is_none());
    let ups: Vec<&str> = c.get_server_upstreams("main").iter().map(|u| u.waf_rules.as_str()).collect();
    assert_eq!(ups, vec!["api", "web"]);
    assert!(c.get_server_upstreams("nope").is_empty());
    assert_eq!(
        c.route_table("main"),
        vec![("api".to_string(), "*.api.example.com".to_string()), ("web".to_string(), "default".to_string())]
    );
}

#[test]
fn operators() {
    assert!(check_operator("contains", "abcdef", "cde"));
    assert!(check_operator("PM", "abcdef", "abc"));
    assert!(!check_operator("contains", "abc", "abcd"));
    assert!(check_operator("streq", "abc", "abc"));
    assert!(!check_operator("streq", "abc", "ABC"));
    assert!(check_operator("beginsWith", "abc", "ab"));
    assert!(!check_operator("beginswith", "abc", "bc"));
    assert!(check_operator("!beginswith", "abc", "bc"));
    assert!(!check_operator("!beginswith", "abc", "a"));
    assert!(check_operator("rx", "Hello World", "w.r"));
    assert!(!check_operator("rx", "hello", "^world"));
    assert!(!check_operator("rx", "((", "(("));
    assert!(!check_operator("nope", "a", "a"));
    assert_eq!(operator_kind("RX"), OperatorKind::Rx);
    assert_eq!(operator_desc("contains"), "содержит");
    assert_eq!(operator_desc("PM"), "содержит");
    assert_eq!(operator_desc("streq"), "равно");
    assert_eq!(operator_desc("beginswith"), "начинается с");
    assert_eq!(operator_desc("!BeginsWith"), "не начинается с");
    assert_eq!(operator_desc("rx"), "совпадает с regex");
    assert_eq!(operator_desc("other"), "проверяется по");
}
