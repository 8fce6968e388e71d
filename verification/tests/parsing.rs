use gpapi::Credential;
use gpapi::Gateway;
use gpapi::PortalConfig;
use gpapi::PortalError;
use gpapi::{classify_error_response, validate_response_body};

#[test]
fn empty_body_is_a_config_error() {
    let r = validate_response_body("");
    assert_eq!(
        r,
        Err(PortalError::ConfigError("Empty portal config response".to_string()))
    );
}

#[test]
fn malformed_body_is_a_config_error() {
    let r = validate_response_body("<policy><gateways></policy>");
    match r {
        Err(PortalError::ConfigError(_)) => {}
        other => panic!("expected a config error, got {:?}", other),
    }
}

#[test]
fn well_formed_body_passes_validation() {
    assert_eq!(validate_response_body("<policy><gateways/></policy>"), Ok(()));
}

#[test]
fn status_404_is_the_endpoint_not_found_error() {
    let e = classify_error_response(404, "Not Found".to_string());
    assert_eq!(e, PortalError::EndpointNotFound);
    assert_ne!(e, PortalError::ConfigError("Not Found".to_string()));
}

#[test]
fn other_error_statuses_carry_the_reason() {
    assert_eq!(
        classify_error_response(512, "server broke".to_string()),
        PortalError::PortalStatusError("server broke".to_string())
    );
    assert_eq!(
        classify_error_response(400, "bad request".to_string()),
        PortalError::PortalStatusError("bad request".to_string())
    );
}

#[test]
fn non_error_failures_are_config_errors_with_the_reason() {
    assert_eq!(
        classify_error_response(301, "moved".to_string()),
        PortalError::ConfigError("moved".to_string())
    );
}

#[test]
fn empty_gateway_list_synthesizes_the_portal_host() {
    let body = "<policy></policy>";
    let cfg = PortalConfig::build_portal_config(
        "portal.example",
        Credential::new("alice"),
        body,
        None,
    );
    assert_eq!(cfg.gateways.len(), 1);
    assert_eq!(cfg.gateways[0].name, "portal.example");
    assert_eq!(cfg.gateways[0].address, "portal.example");

    let cfg = PortalConfig::build_portal_config(
        "portal.example",
        Credential::new("alice"),
        body,
        Some(Vec::new()),
    );
    assert_eq!(cfg.gateways.len(), 1);
    assert_eq!(cfg.gateways[0].name, "portal.example");
    assert_eq!(cfg.gateways[0].address, "portal.example");
}

#[test]
fn extracted_gateways_are_kept_as_handed_in() {
    let gws = vec![Gateway::new("g1".to_string(), "g1.example".to_string())];
    let cfg = PortalConfig::build_portal_config(
        "portal.example",
        Credential::new("alice"),
        "<policy/>",
        Some(gws),
    );
    assert_eq!(cfg.gateways.len(), 1);
    assert_eq!(cfg.gateways[0].name, "g1");
    assert_eq!(cfg.gateways[0].address, "g1.example");
}

#[test]
fn cookies_and_digest_are_extracted_from_the_body() {
    let body = "<policy>\
        <portal-userauthcookie>uac-1</portal-userauthcookie>\
        <portal-prelogonuserauthcookie>pluac-2</portal-prelogonuserauthcookie>\
        <config-digest>digest-3</config-digest>\
        </policy>";
    let cfg = PortalConfig::build_portal_config(
        "portal.example",
        Credential::new("alice"),
        body,
        None,
    );
    assert_eq!(cfg.auth_cookie().username(), "alice");
    assert_eq!(cfg.auth_cookie().user_auth_cookie(), "uac-1");
    assert_eq!(cfg.auth_cookie().prelogon_user_auth_cookie(), "pluac-2");
    assert_eq!(cfg.config_digest, Some("digest-3".to_string()));
    assert_eq!(cfg.portal(), "portal.example");
    assert_eq!(cfg.config_cred().username(), "alice");
}

#[test]
fn absent_cookies_default_to_empty_and_absent_digest_stays_none() {
    let cfg = PortalConfig::build_portal_config(
        "portal.example",
        Credential::new("alice"),
        "<policy/>",
        None,
    );
    assert_eq!(cfg.auth_cookie().user_auth_cookie(), "");
    assert_eq!(cfg.auth_cookie().prelogon_user_auth_cookie(), "");
    assert_eq!(cfg.config_digest, None);
}
