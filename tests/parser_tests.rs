use centaur_waf::rule::{load_toml_rules, record_from_rule, records_from_rules, rule_from_record, TomlRule, TomlRulesFile};
use centaur_waf::secrule::{malformed_lines, parse_decimal, parse_secrule, parse_secrules, rules_format, RulesFormat};

fn record(id: u32, phase: u32, variables: &str, operators: &str, pattern: &str, actions: &str) -> TomlRule {
    TomlRule {
        id,
        phase,
        variables: variables.to_string(),
        operators: operators.to_string(),
        pattern: pattern.to_string(),
        actions: actions.to_string(),
        status: None,
        msg: None,
    }
}

#[test]
fn secrule_line_parts() {
    let r = parse_secrule("SecRule REQUEST_HEADERS:User-Agent \"@contains sqlmap\" \"id:1001,phase:1,deny,status:403,msg:'Block sqlmap'\"").unwrap();
    assert_eq!(r.id, 1001);
    assert_eq!(r.phase, 1);
    assert_eq!(r.variable, "REQUEST_HEADERS:User-Agent");
    assert_eq!(r.operator, "contains");
    assert_eq!(r.pattern, "sqlmap");
    assert_eq!(r.status, Some(403));
    assert_eq!(r.msg.as_deref(), Some("Block sqlmap"));
    assert!(r.actions.contains(&("deny".to_string(), String::new())));
    assert!(r.actions.contains(&("action".to_string(), "deny".to_string())));
    assert!(r.actions.contains(&("id".to_string(), "1001".to_string())));
    assert!(r.actions.contains(&("phase".to_string(), "1".to_string())));
    assert!(r.actions.contains(&("status".to_string(), "403".to_string())));
    assert!(r.actions.contains(&("msg".to_string(), "Block sqlmap".to_string())));
}

#[test]
fn secrule_negated_operator_and_spaced_argument() {
    let r = parse_secrule("  secrule REQUEST_URI   \"!@beginsWith /api v1\"   \"id:7\"  ").unwrap();
    assert_eq!(r.operator, "!beginsWith");
    assert_eq!(r.pattern, "/api v1");
    assert_eq!(r.phase, 1);
    assert_eq!(r.status, None);
}

#[test]
fn secrule_rejects_malformed_lines() {
    assert!(parse_secrule("").is_none());
    assert!(parse_secrule("# SecRule REQUEST_URI \"@streq /\" \"id:1\"").is_none());
    assert!(parse_secrule("SecRule REQUEST_URI \"@streq /\" \"phase:1,deny\"").is_none());
    assert!(parse_secrule("SecRule REQUEST_URI \"@streq /\" \"id:0\"").is_none());
    assert!(parse_secrule("SecRule REQUEST_URI \"@streq /\" \"id:abc\"").is_none());
    assert!(parse_secrule("SecRule REQUEST_URI \"@streq /\" \"id:4294967296\"").is_none());
    assert!(parse_secrule("SecRule REQUEST_URI \"@streq /\" \"id:1,phase:300\"").is_none());
    assert!(parse_secrule("SecRule REQUEST_URI \"streq /\" \"id:1\"").is_none());
    assert!(parse_secrule("SecRule REQUEST_URI \"@streq\" \"id:1\"").is_none());
    assert!(parse_secrule("SecRuleREQUEST_URI \"@streq /\" \"id:1\"").is_none());
    assert!(parse_secrule("SecRule REQUEST_URI \"@streq /\" id:1").is_none());
}

#[test]
fn secrule_file_skips_comments_and_bad_lines() {
    let text = "# header\nSecRule REQUEST_URI \"@streq /a\" \"id:1,deny\"\r\n\ngarbage line\nSecRule REQUEST_BODY \"@rx select\" \"id:2,phase:2,pass\"\n";
    let rules = parse_secrules(text);
    assert_eq!(rules.len(), 2);
    assert_eq!(rules[0].id, 1);
    assert_eq!(rules[1].id, 2);
    assert_eq!(rules[1].phase, 2);
    assert!(rules[1].actions.contains(&("action".to_string(), "pass".to_string())));
    assert!(rules[1].actions.contains(&("pass".to_string(), String::new())));
    assert!(parse_secrules("").is_empty());
}

#[test]
fn decimal_parsing() {
    let c = |s: &str| s.chars().collect::<Vec<char>>();
    assert_eq!(parse_decimal(&c("0"), 10), Some(0));
    assert_eq!(parse_decimal(&c("255"), 255), Some(255));
    assert_eq!(parse_decimal(&c("256"), 255), None);
    assert_eq!(parse_decimal(&c(""), 255), None);
    assert_eq!(parse_decimal(&c("1a"), 255), None);
    assert_eq!(parse_decimal(&c("18446744073709551615"), u64::MAX), Some(u64::MAX));
    assert_eq!(parse_decimal(&c("18446744073709551616"), u64::MAX), None);
}

#[test]
fn format_detection() {
    assert_eq!(rules_format("# rules\n\n[[rule]]\nid = 1\n"), RulesFormat::Tabular);
    assert_eq!(rules_format("SecRule REQUEST_URI \"@streq /\" \"id:1\"\n[x]"), RulesFormat::Textual);
    assert_eq!(rules_format(""), RulesFormat::Textual);
    assert_eq!(rules_format("[broken SecRule line\nSecRule REQUEST_URI \"@streq /\" \"id:1\""), RulesFormat::Textual);
}

#[test]
fn tabular_records_become_rules() {
    let mut rec = record(1001, 1, "REQUEST_HEADERS:User-Agent", "contains", "sqlmap", "deny");
    rec.status = Some(418);
    rec.msg = Some("m".to_string());
    let rules = load_toml_rules(&TomlRulesFile { rule: vec![rec, record(2, 258, "REQUEST_URI", "streq", "/", "allow")] });
    assert_eq!(rules.len(), 2);
    assert_eq!(rules[0].actions, vec![("action".to_string(), "deny".to_string())]);
    assert_eq!(rules[0].status, Some(418));
    assert_eq!(rules[0].msg.as_deref(), Some("m"));
    assert_eq!(rules[1].phase, 2);
}

#[test]
fn tabular_round_trip() {
    let recs = vec![
        record(1, 1, "REQUEST_URI", "streq", "/admin", "deny"),
        record(2, 2, "REQUEST_BODY", "rx", "select", "allow"),
    ];
    let rules = load_toml_rules(&TomlRulesFile { rule: recs });
    let back = load_toml_rules(&records_from_rules(&rules));
    assert_eq!(back.len(), rules.len());
    for (a, b) in rules.iter().zip(back.iter()) {
        assert_eq!(a.id, b.id);
        assert_eq!(a.phase, b.phase);
        assert_eq!(a.variable, b.variable);
        assert_eq!(a.operator, b.operator);
        assert_eq!(a.pattern, b.pattern);
        assert_eq!(a.actions, b.actions);
        assert_eq!(a.msg, b.msg);
        assert_eq!(a.status, b.status);
    }
    let one = rule_from_record(&record_from_rule(&rules[0]));
    assert_eq!(one.pattern, "/admin");
}

#[test]
fn malformed_lines_are_reported() {
    let text = "# header\nSecRule REQUEST_URI \"@streq /a\" \"id:1,deny\"\n\ngarbage line\nSecRule REQUEST_URI \"@streq /\" \"deny\"\n";
    assert_eq!(malformed_lines(text), vec![3, 4]);
    assert!(malformed_lines("").is_empty());
}
