use gpapi::AuthCookieCredential;
use gpapi::Credential;
use gpapi::Gateway;
use gpapi::PortalConfig;
use gpapi::PriorityRule;

fn gw(name: &str, address: &str, priority: u32, rules: &[(&str, u32)]) -> Gateway {
    Gateway {
        name: name.to_string(),
        address: address.to_string(),
        priority,
        priority_rules: rules
            .iter()
            .map(|(n, p)| PriorityRule { name: n.to_string(), priority: *p })
            .collect(),
    }
}

fn config_with(gateways: Vec<Gateway>) -> PortalConfig {
    PortalConfig {
        portal: "portal.example".to_string(),
        auth_cookie: AuthCookieCredential::new("alice", "uac", "pluac"),
        config_cred: Credential::new("alice"),
        gateways,
        config_digest: None,
    }
}

#[test]
fn preferred_gateway_by_region_rule() {
    let cfg = config_with(vec![
        gw("east", "east.example", 3, &[("US", 7)]),
        gw("west", "west.example", 1, &[("EU", 2), ("US", 4)]),
    ]);
    assert_eq!(cfg.find_preferred_gateway("US").name, "west");
    assert_eq!(cfg.find_preferred_gateway("EU").name, "west");
}

#[test]
fn lower_any_rule_beats_region_rule_in_both_orders() {
    let g = gw("g", "g.example", 0, &[("US", 5)]);
    let h = gw("h", "h.example", 9, &[("Any", 3)]);
    let cfg = config_with(vec![g.clone(), h.clone()]);
    assert_eq!(cfg.find_preferred_gateway("US").name, "h");
    let cfg = config_with(vec![h, g]);
    assert_eq!(cfg.find_preferred_gateway("US").name, "h");
}

#[test]
fn equal_rule_priorities_keep_first_in_scan_order() {
    let cfg = config_with(vec![
        gw("first", "a.example", 5, &[("US", 4)]),
        gw("second", "b.example", 1, &[("US", 4)]),
    ]);
    assert_eq!(cfg.find_preferred_gateway("US").name, "first");
}

#[test]
fn no_applying_rule_falls_back_to_lowest_baseline() {
    let cfg = config_with(vec![
        gw("a", "a.example", 5, &[("EU", 1)]),
        gw("b", "b.example", 2, &[]),
        gw("c", "c.example", 2, &[]),
    ]);
    // No rule names "US" or "Any": the first gateway with the minimal
    // baseline priority wins.
    assert_eq!(cfg.find_preferred_gateway("US").name, "b");
}

#[test]
fn rule_at_largest_priority_never_wins_the_scan() {
    let cfg = config_with(vec![
        gw("a", "a.example", 9, &[("US", u32::MAX)]),
        gw("b", "b.example", 2, &[]),
    ]);
    // The scan starts from the largest u32 and only strictly lower
    // priorities displace the best, so this rule cannot qualify and the
    // baseline fallback applies.
    assert_eq!(cfg.find_preferred_gateway("US").name, "b");
}

#[test]
fn find_gateway_matches_name_or_address() {
    let cfg = config_with(vec![
        gw("east", "east.example", 3, &[]),
        gw("west", "west.example", 1, &[]),
    ]);
    assert_eq!(cfg.find_gateway("west").unwrap().address, "west.example");
    assert_eq!(cfg.find_gateway("east.example").unwrap().name, "east");
    assert!(cfg.find_gateway("north").is_none());
}

#[test]
fn find_gateway_first_match_wins() {
    let cfg = config_with(vec![
        gw("east", "shared.example", 3, &[]),
        gw("shared.example", "west.example", 1, &[]),
    ]);
    // The first gateway matches by address before the second matches by
    // name.
    assert_eq!(cfg.find_gateway("shared.example").unwrap().name, "east");
}

#[test]
fn sort_gateways_swaps_preferred_to_front() {
    let mut cfg = config_with(vec![
        gw("a", "a.example", 5, &[]),
        gw("b", "b.example", 4, &[]),
        gw("c", "c.example", 0, &[("US", 1)]),
        gw("d", "d.example", 3, &[]),
    ]);
    cfg.sort_gateways("US");
    let names: Vec<&str> = cfg.gateways().iter().map(|g| g.name.as_str()).collect();
    // A single two-element exchange of positions 0 and 2; b and d keep
    // their places.
    assert_eq!(names, vec!["c", "b", "a", "d"]);
}

#[test]
fn sort_gateways_with_preferred_already_in_front_keeps_order() {
    let mut cfg = config_with(vec![
        gw("a", "a.example", 1, &[]),
        gw("b", "b.example", 4, &[]),
    ]);
    cfg.sort_gateways("US");
    let names: Vec<&str> = cfg.gateways().iter().map(|g| g.name.as_str()).collect();
    assert_eq!(names, vec!["a", "b"]);
}

#[test]
fn sort_gateways_locates_by_name_first_occurrence() {
    let mut cfg = config_with(vec![
        gw("dup", "first.example", 9, &[]),
        gw("b", "b.example", 9, &[]),
        gw("dup", "preferred.example", 9, &[("US", 1)]),
    ]);
    cfg.sort_gateways("US");
    let addrs: Vec<&str> = cfg.gateways().iter().map(|g| g.address.as_str()).collect();
    // The preferred gateway is located by name, and the first gateway
    // carrying that name is the one swapped: here it already sits at the
    // front, so nothing moves.
    assert_eq!(addrs, vec!["first.example", "b.example", "preferred.example"]);
}

#[test]
fn preferred_gateway_is_from_the_list_and_deterministic() {
    let cfg = config_with(vec![
        gw("a", "a.example", 5, &[("US", 2)]),
        gw("b", "b.example", 2, &[("Any", 2)]),
    ]);
    let first = cfg.find_preferred_gateway("US").name.clone();
    let second = cfg.find_preferred_gateway("US").name.clone();
    assert_eq!(first, second);
    assert!(cfg.gateways().iter().any(|g| g.name == first));
}

#[test]
fn accessors_return_the_stored_values() {
    let cfg = config_with(vec![gw("a", "a.example", 1, &[])]);
    assert_eq!(cfg.portal(), "portal.example");
    assert_eq!(cfg.auth_cookie().username(), "alice");
    assert_eq!(cfg.auth_cookie().user_auth_cookie(), "uac");
    assert_eq!(cfg.auth_cookie().prelogon_user_auth_cookie(), "pluac");
    assert_eq!(cfg.config_cred().username(), "alice");
    let views = cfg.gateways();
    assert_eq!(views.len(), 1);
    assert_eq!(views[0].name, "a");
}
