use layer7waf::config::{GeoIpConfig, GeoIpDefaultAction, GeoIpMode};
use layer7waf::geoip::{decide, GeoIpAction};

fn make_config(
    blocked: Vec<&str>,
    allowed: Vec<&str>,
    mode: GeoIpMode,
    default_action: GeoIpDefaultAction,
) -> GeoIpConfig {
    GeoIpConfig {
        enabled: true,
        database_path: None,
        blocked_countries: blocked.into_iter().map(String::from).collect(),
        allowed_countries: allowed.into_iter().map(String::from).collect(),
        mode,
        default_action,
    }
}

/// With no database loaded, all lookups should return Unknown.
#[test]
fn test_no_database_returns_unknown() {
    let config = make_config(vec!["CN"], vec![], GeoIpMode::Block, GeoIpDefaultAction::Allow);
    // Without a database the country of 8.8.8.8 is not known.
    assert_eq!(decide(&config, None), GeoIpAction::Unknown);
}

/// When default_action is Block and country is unknown, should block
/// (except in detect mode).
#[test]
fn test_default_action_block() {
    let config = make_config(vec!["CN"], vec![], GeoIpMode::Block, GeoIpDefaultAction::Block);
    assert_eq!(decide(&config, None), GeoIpAction::Block { country: "unknown".to_string() });
}

/// When default_action is Block but mode is Detect, unknown should
/// still be Unknown (not blocked).
#[test]
fn test_default_action_block_detect_mode() {
    let config = make_config(vec!["CN"], vec![], GeoIpMode::Detect, GeoIpDefaultAction::Block);
    assert_eq!(decide(&config, None), GeoIpAction::Unknown);
}

#[test]
fn test_blocklist_matching_logic() {
    let config = make_config(vec!["CN", "RU"], vec![], GeoIpMode::Block, GeoIpDefaultAction::Allow);

    // Verify case-insensitive matching
    assert!(config.blocked_countries.iter().any(|c| c.to_uppercase() == "CN"));
    assert!(config.blocked_countries.iter().any(|c| c.to_uppercase() == "RU"));
    assert!(!config.blocked_countries.iter().any(|c| c.to_uppercase() == "US"));
    assert_eq!(
        decide(&config, Some("cn".to_string())),
        GeoIpAction::Block { country: "cn".to_string() }
    );
    assert_eq!(
        decide(&config, Some("RU".to_string())),
        GeoIpAction::Block { country: "RU".to_string() }
    );
    assert_eq!(decide(&config, Some("US".to_string())), GeoIpAction::Allow);
}

#[test]
fn test_allowlist_matching_logic() {
    let config = make_config(vec![], vec!["US", "GB"], GeoIpMode::Block, GeoIpDefaultAction::Allow);

    // Verify allowlist matching
    assert!(config.allowed_countries.iter().any(|c| c.to_uppercase() == "US"));
    assert!(config.allowed_countries.iter().any(|c| c.to_uppercase() == "GB"));
    assert!(!config.allowed_countries.iter().any(|c| c.to_uppercase() == "CN"));
    assert_eq!(decide(&config, Some("us".to_string())), GeoIpAction::Allow);
    assert_eq!(decide(&config, Some("GB".to_string())), GeoIpAction::Allow);
    assert_eq!(
        decide(&config, Some("CN".to_string())),
        GeoIpAction::Block { country: "CN".to_string() }
    );
}

/// When both blocklist and allowlist are empty, everything should be allowed.
#[test]
fn test_empty_lists_allow_all() {
    let config = make_config(vec![], vec![], GeoIpMode::Block, GeoIpDefaultAction::Allow);
    // No DB means Unknown due to default_action Allow
    assert_eq!(decide(&config, None), GeoIpAction::Unknown);
    assert_eq!(decide(&config, Some("FR".to_string())), GeoIpAction::Allow);
}

#[test]
fn allowlist_goes_before_blocklist_and_detect_mode_notes() {
    let config =
        make_config(vec!["US"], vec!["us", "de"], GeoIpMode::Detect, GeoIpDefaultAction::Allow);
    // On both lists: the allowlist decides.
    assert_eq!(decide(&config, Some("US".to_string())), GeoIpAction::Allow);
    assert_eq!(
        decide(&config, Some("FR".to_string())),
        GeoIpAction::Detect { country: "FR".to_string() }
    );
    let config = make_config(vec!["fr"], vec![], GeoIpMode::Detect, GeoIpDefaultAction::Allow);
    assert_eq!(
        decide(&config, Some("Fr".to_string())),
        GeoIpAction::Detect { country: "Fr".to_string() }
    );
    assert_eq!(decide(&config, None), GeoIpAction::Unknown);
}
