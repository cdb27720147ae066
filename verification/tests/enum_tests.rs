use cosmic_randr::AdaptiveSync;
use cosmic_randr::AdaptiveSyncAvailability;
use cosmic_randr::AdaptiveSyncState;
use cosmic_randr::ConfigValue;
use cosmic_randr::ConfigurationError;
use cosmic_randr::Transform;
use cosmic_randr::is_landscape;

#[test]
fn transform_text_round_trip() {
    let all = [
        Transform::Normal,
        Transform::Rotate90,
        Transform::Rotate180,
        Transform::Rotate270,
        Transform::Flipped,
        Transform::Flipped90,
        Transform::Flipped180,
        Transform::Flipped270,
    ];
    for t in all {
        let text = t.to_text();
        assert_eq!(Transform::try_from_text(&text), Some(t));
    }
    assert_eq!(Transform::Rotate90.to_text(), "rotate90");
    assert_eq!(Transform::Flipped180.to_text(), "flipped180");
}

#[test]
fn transform_rejects_unknown_text() {
    assert_eq!(Transform::try_from_text(&"sideways".to_string()), None);
    assert_eq!(Transform::try_from_text(&"".to_string()), None);
}

#[test]
fn is_landscape_variants() {
    assert!(is_landscape(Transform::Normal));
    assert!(is_landscape(Transform::Rotate180));
    assert!(is_landscape(Transform::Flipped));
    assert!(is_landscape(Transform::Flipped180));
    assert!(!is_landscape(Transform::Rotate90));
    assert!(!is_landscape(Transform::Rotate270));
    assert!(!is_landscape(Transform::Flipped90));
    assert!(!is_landscape(Transform::Flipped270));
}

#[test]
fn adaptive_sync_state_from_kdl_value() {
    assert_eq!(
        AdaptiveSyncState::try_from_kdl_value(&ConfigValue::Bool(true)),
        Some(AdaptiveSyncState::Always)
    );
    assert_eq!(
        AdaptiveSyncState::try_from_kdl_value(&ConfigValue::Bool(false)),
        Some(AdaptiveSyncState::Disabled)
    );
    assert_eq!(
        AdaptiveSyncState::try_from_kdl_value(&ConfigValue::Text("automatic".to_string())),
        Some(AdaptiveSyncState::Auto)
    );
    assert_eq!(
        AdaptiveSyncState::try_from_kdl_value(&ConfigValue::Text("sometimes".to_string())),
        None
    );
    assert_eq!(AdaptiveSyncState::try_from_kdl_value(&ConfigValue::Int(1)), None);
    assert_eq!(AdaptiveSyncState::try_from_kdl_value(&ConfigValue::Null), None);
}

#[test]
fn adaptive_sync_state_kdl_round_trip() {
    for s in [AdaptiveSyncState::Always, AdaptiveSyncState::Auto, AdaptiveSyncState::Disabled] {
        let value = s.to_kdl_value();
        assert_eq!(AdaptiveSyncState::try_from_kdl_value(&value), Some(s));
    }
}

#[test]
fn adaptive_sync_availability_from_kdl_value() {
    assert_eq!(
        AdaptiveSyncAvailability::try_from_kdl_value(&ConfigValue::Bool(true)),
        Some(AdaptiveSyncAvailability::Supported)
    );
    assert_eq!(
        AdaptiveSyncAvailability::try_from_kdl_value(&ConfigValue::Bool(false)),
        Some(AdaptiveSyncAvailability::Unsupported)
    );
    assert_eq!(
        AdaptiveSyncAvailability::try_from_kdl_value(&ConfigValue::Text(
            "requires_modeset".to_string()
        )),
        Some(AdaptiveSyncAvailability::RequiresModeset)
    );
    assert_eq!(
        AdaptiveSyncAvailability::try_from_kdl_value(&ConfigValue::Text("maybe".to_string())),
        None
    );
    assert_eq!(
        AdaptiveSyncAvailability::try_from_kdl_value(&ConfigValue::Decimal1000(1000)),
        None
    );
}

#[test]
fn adaptive_sync_availability_round_trip() {
    for a in [
        AdaptiveSyncAvailability::Supported,
        AdaptiveSyncAvailability::RequiresModeset,
        AdaptiveSyncAvailability::Unsupported,
    ] {
        let value = a.to_kdl_value();
        assert_eq!(AdaptiveSyncAvailability::try_from_kdl_value(&value), Some(a));
    }
}

#[test]
fn adaptive_sync_texts() {
    assert_eq!(AdaptiveSyncState::Always.to_text(), "true");
    assert_eq!(AdaptiveSyncState::Auto.to_text(), "automatic");
    assert_eq!(AdaptiveSyncState::Disabled.to_text(), "false");
    assert_eq!(AdaptiveSyncAvailability::Supported.to_text(), "true");
    assert_eq!(AdaptiveSyncAvailability::RequiresModeset.to_text(), "requires_modeset");
    assert_eq!(AdaptiveSyncAvailability::Unsupported.to_text(), "false");
    assert_eq!(AdaptiveSync::Automatic.to_state(), AdaptiveSyncState::Auto);
    assert_eq!(AdaptiveSync::Always.to_state(), AdaptiveSyncState::Always);
    assert_eq!(AdaptiveSync::Disabled.to_state(), AdaptiveSyncState::Disabled);
}

#[test]
fn configuration_error_descriptions() {
    assert_eq!(
        ConfigurationError::OutputAlreadyConfigured.describe(),
        "Output configured twice"
    );
    assert_eq!(ConfigurationError::UnknownOutput.describe(), "Unknown output");
    assert_eq!(ConfigurationError::ModeNotFound.describe(), "Unknown or unsupported mode");
    assert_eq!(
        ConfigurationError::NoCosmicExtension.describe(),
        "Feature isn't available outside COSMIC"
    );
    assert_eq!(
        ConfigurationError::PositionForMirroredOutput.describe(),
        "You cannot position a mirrored output"
    );
    assert_eq!(ConfigurationError::MirroringItself.describe(), "Output mirroring itself");
    assert_eq!(
        ConfigurationError::UnsupportedVrrState.describe(),
        "Automatic VRR state management isn't available outside COSMIC"
    );
    assert_eq!(
        ConfigurationError::UnsupportedXwaylandPrimary.describe(),
        "Xwayland compatibility options not available outside or on this version of COSMIC"
    );
}
