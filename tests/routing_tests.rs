use centaur_waf::router::route;

fn table(entries: &[(&str, &str)]) -> Vec<(String, String)> {
    entries.iter().map(|(n, s)| (n.to_string(), s.to_string())).collect()
}

#[test]
fn wildcard_then_default() {
    let t = table(&[("api", "*.api.example.com"), ("fallback", "default")]);
    assert_eq!(route(&t, "foo.api.example.com"), Some(0));
    assert_eq!(route(&t, "api.example.com"), Some(0));
    assert_eq!(route(&t, "other.test"), Some(1));
}

#[test]
fn exact_match_beats_earlier_suffix_match() {
    let t = table(&[("root", "example.com"), ("www", "www.example.com")]);
    assert_eq!(route(&t, "WWW.Example.COM"), Some(1));
    assert_eq!(route(&t, "shop.example.com"), Some(0));
}

#[test]
fn name_matches_exactly_too() {
    let t = table(&[("a", "a.test"), ("billing", "b.test")]);
    assert_eq!(route(&t, "  Billing "), Some(1));
}

#[test]
fn suffix_needs_a_dot_boundary() {
    let t = table(&[("a", "example.com"), ("b", "other.org")]);
    assert_eq!(route(&t, "badexample.com"), Some(0));
    let t2 = table(&[("b", "other.org"), ("a", "example.com")]);
    assert_eq!(route(&t2, "badexample.com"), Some(0));
    assert_eq!(route(&t2, "x.example.com"), Some(1));
}

#[test]
fn first_entry_when_nothing_else_fits() {
    let t = table(&[("a", "a.test"), ("b", "b.test")]);
    assert_eq!(route(&t, "unknown"), Some(0));
}

#[test]
fn empty_table_routes_nowhere() {
    assert_eq!(route(&Vec::new(), "example.com"), None);
}
