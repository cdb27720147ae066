use cosmic_randr::AdaptiveSync;
use cosmic_randr::ConfigRequest;
use cosmic_randr::Configuration;
use cosmic_randr::ConfigurationError;
use cosmic_randr::HeadConfiguration;
use cosmic_randr::Model;
use cosmic_randr::OutputHead;
use cosmic_randr::OutputMode;
use cosmic_randr::Transform;

fn mode(id: u64, width: i32, height: i32, refresh: i32) -> OutputMode {
    OutputMode { id, width, height, refresh, preferred: false }
}

fn head(id: u64, name: &str, enabled: bool, modes: Vec<OutputMode>) -> OutputHead {
    OutputHead {
        id,
        adaptive_sync: None,
        adaptive_sync_support: None,
        current_mode: None,
        description: String::new(),
        enabled,
        make: String::new(),
        model: String::new(),
        modes,
        name: name.to_string(),
        physical_height: 0,
        physical_width: 0,
        position_x: 0,
        position_y: 0,
        scale_1000: 1000,
        serial_number: String::new(),
        transform: None,
        mirroring: None,
        xwayland_primary: None,
        has_extension_head: false,
    }
}

fn config(heads: Vec<OutputHead>, has_extension: bool) -> Configuration {
    Configuration {
        serial: 1,
        has_extension,
        extension_version: if has_extension { 3 } else { 0 },
        known_heads: heads,
        configured_heads: Vec::new(),
        requests: Vec::new(),
    }
}

fn three_refresh_modes() -> Vec<OutputMode> {
    vec![
        mode(1, 1920, 1080, 59940),
        mode(2, 1920, 1080, 60000),
        mode(3, 1920, 1080, 60024),
    ]
}

#[test]
fn staging_twice_returns_already_configured() {
    let mut cfg = config(vec![head(7, "DP-1", true, vec![])], false);
    assert!(cfg.disable_head(&"DP-1".to_string()).is_ok());
    let requests_before = cfg.requests.clone();
    let staged_before = cfg.configured_heads.clone();
    // The second attempt is refused and the first staging is unchanged.
    assert_eq!(
        cfg.enable_head(&"DP-1".to_string(), None),
        Err(ConfigurationError::OutputAlreadyConfigured)
    );
    assert_eq!(cfg.requests, requests_before);
    assert_eq!(cfg.configured_heads, staged_before);
    assert_eq!(
        cfg.disable_head(&"DP-1".to_string()),
        Err(ConfigurationError::OutputAlreadyConfigured)
    );
    assert_eq!(cfg.requests, requests_before);
}

#[test]
fn unknown_output_leaves_transaction_unchanged() {
    let mut cfg = config(vec![head(7, "DP-1", true, vec![])], false);
    assert_eq!(
        cfg.disable_head(&"HDMI-A-1".to_string()),
        Err(ConfigurationError::UnknownOutput)
    );
    // Validation failures are never partially applied: nothing was staged
    // or sent, so the refusal repeats rather than turning into a
    // double-staging complaint, and the valid head can still be staged.
    assert!(cfg.requests.is_empty());
    assert!(cfg.configured_heads.is_empty());
    assert_eq!(
        cfg.disable_head(&"HDMI-A-1".to_string()),
        Err(ConfigurationError::UnknownOutput)
    );
    assert!(cfg.disable_head(&"DP-1".to_string()).is_ok());
}

#[test]
fn mirror_itself_always_fails() {
    let mut cfg = config(vec![head(7, "DP-1", true, vec![])], true);
    assert_eq!(
        cfg.mirror_head(&"DP-1".to_string(), &"DP-1".to_string(), None),
        Err(ConfigurationError::MirroringItself)
    );
    assert!(cfg.requests.is_empty());
    assert!(cfg.configured_heads.is_empty());
}

#[test]
fn mirror_with_position_always_fails() {
    let mut cfg = config(
        vec![head(7, "DP-1", true, vec![]), head(8, "HDMI-A-1", true, vec![])],
        true,
    );
    let args = HeadConfiguration { pos: Some((10, 20)), ..Default::default() };
    assert_eq!(
        cfg.mirror_head(&"DP-1".to_string(), &"HDMI-A-1".to_string(), Some(args)),
        Err(ConfigurationError::PositionForMirroredOutput)
    );
    assert!(cfg.requests.is_empty());
}

#[test]
fn mirror_needs_the_extension() {
    let mut cfg = config(
        vec![head(7, "DP-1", true, vec![]), head(8, "HDMI-A-1", true, vec![])],
        false,
    );
    assert_eq!(
        cfg.mirror_head(&"DP-1".to_string(), &"HDMI-A-1".to_string(), None),
        Err(ConfigurationError::NoCosmicExtension)
    );
}

#[test]
fn mirror_emits_head_and_source() {
    let mut cfg = config(
        vec![head(7, "DP-1", true, vec![]), head(8, "HDMI-A-1", true, vec![])],
        true,
    );
    assert!(cfg.mirror_head(&"DP-1".to_string(), &"HDMI-A-1".to_string(), None).is_ok());
    assert_eq!(cfg.requests, vec![ConfigRequest::MirrorHead { head: 7, source: 8 }]);
}

#[test]
fn refresh_exact_match_wins() {
    let mut cfg = config(vec![head(7, "DP-1", true, three_refresh_modes())], false);
    let args = HeadConfiguration {
        size: Some((1920, 1080)),
        refresh_mhz: Some(60000),
        ..Default::default()
    };
    assert!(cfg.enable_head(&"DP-1".to_string(), Some(args)).is_ok());
    assert_eq!(
        cfg.requests,
        vec![ConfigRequest::EnableHead { head: 7 }, ConfigRequest::SetMode { mode: 2 }]
    );
}

#[test]
fn refresh_nearest_within_tolerance_wins() {
    let mut cfg = config(vec![head(7, "DP-1", true, three_refresh_modes())], false);
    let args = HeadConfiguration {
        size: Some((1920, 1080)),
        refresh_mhz: Some(59950),
        ..Default::default()
    };
    assert!(cfg.enable_head(&"DP-1".to_string(), Some(args)).is_ok());
    assert_eq!(
        cfg.requests,
        vec![ConfigRequest::EnableHead { head: 7 }, ConfigRequest::SetMode { mode: 1 }]
    );
}

#[test]
fn refresh_outside_tolerance_is_mode_not_found() {
    let mut cfg = config(vec![head(7, "DP-1", true, three_refresh_modes())], false);
    let args = HeadConfiguration {
        size: Some((1920, 1080)),
        refresh_mhz: Some(75000),
        ..Default::default()
    };
    assert_eq!(
        cfg.enable_head(&"DP-1".to_string(), Some(args)),
        Err(ConfigurationError::ModeNotFound)
    );
    // The failed configuration was never partially applied.
    assert!(cfg.requests.is_empty());
    assert!(cfg.configured_heads.is_empty());
}

#[test]
fn automatic_vrr_needs_new_extension() {
    let mut cfg = config(vec![head(7, "DP-1", true, three_refresh_modes())], false);
    let args = HeadConfiguration {
        size: Some((1920, 1080)),
        adaptive_sync: Some(AdaptiveSync::Automatic),
        scale_1000: Some(2000),
        ..Default::default()
    };
    assert_eq!(
        cfg.enable_head(&"DP-1".to_string(), Some(args)),
        Err(ConfigurationError::UnsupportedVrrState)
    );
    // The failed configuration was never partially applied: a retry with
    // supported settings starts from a clean slate.
    assert!(cfg.requests.is_empty());
    assert!(cfg.configured_heads.is_empty());
}

#[test]
fn staging_emits_requests_in_protocol_order() {
    let mut heads = vec![head(7, "DP-1", true, three_refresh_modes())];
    heads[0].current_mode = Some(2);
    let mut cfg = config(heads, true);
    let args = HeadConfiguration {
        size: None,
        refresh_mhz: None,
        adaptive_sync: Some(AdaptiveSync::Always),
        pos: Some((100, 200)),
        scale_1000: Some(1500),
        transform: Some(Transform::Rotate90),
    };
    assert!(cfg.enable_head(&"DP-1".to_string(), Some(args)).is_ok());
    assert_eq!(
        cfg.requests,
        vec![
            ConfigRequest::EnableHead { head: 7 },
            ConfigRequest::SetScaleExt { scale_1000: 1500 },
            ConfigRequest::SetTransform { transform: Transform::Rotate90 },
            ConfigRequest::SetPosition { x: 100, y: 200 },
            ConfigRequest::SetAdaptiveSyncExt { state: AdaptiveSync::Always },
            ConfigRequest::SetMode { mode: 2 },
        ]
    );
}

#[test]
fn adaptive_sync_degrades_without_extension() {
    let mut heads = vec![head(7, "DP-1", true, three_refresh_modes())];
    heads[0].current_mode = Some(1);
    let mut cfg = config(heads, false);
    let args = HeadConfiguration {
        adaptive_sync: Some(AdaptiveSync::Disabled),
        ..Default::default()
    };
    assert!(cfg.enable_head(&"DP-1".to_string(), Some(args)).is_ok());
    assert_eq!(
        cfg.requests,
        vec![
            ConfigRequest::EnableHead { head: 7 },
            ConfigRequest::SetAdaptiveSync { enabled: false },
            ConfigRequest::SetMode { mode: 1 },
        ]
    );
}

#[test]
fn enable_without_current_mode_is_mode_not_found() {
    let mut cfg = config(vec![head(7, "DP-1", true, three_refresh_modes())], false);
    let args = HeadConfiguration::default();
    assert_eq!(
        cfg.enable_head(&"DP-1".to_string(), Some(args)),
        Err(ConfigurationError::ModeNotFound)
    );
}

#[test]
fn finalize_restages_every_unstaged_head() {
    let mut source = head(9, "eDP-1", true, vec![]);
    source.current_mode = None;
    let mut mirroring = head(8, "HDMI-A-1", true, vec![]);
    mirroring.mirroring = Some("eDP-1".to_string());
    let disabled = head(10, "DVI-1", false, vec![]);
    let staged = head(7, "DP-1", true, vec![]);
    let mut cfg = config(vec![staged, mirroring, source, disabled], true);

    assert!(cfg.disable_head(&"DP-1".to_string()).is_ok());
    let requests = cfg.apply();
    // Only DP-1 was explicitly staged; every other head is re-staged to
    // its last known state, none silently dropped.
    assert_eq!(
        requests,
        vec![
            ConfigRequest::DisableHead { head: 7 },
            ConfigRequest::MirrorHead { head: 8, source: 9 },
            ConfigRequest::EnableHead { head: 9 },
            ConfigRequest::DisableHead { head: 10 },
            ConfigRequest::Apply,
        ]
    );
}

#[test]
fn test_finalizes_without_committing() {
    let mut cfg = config(vec![head(7, "DP-1", false, vec![])], false);
    assert!(cfg.disable_head(&"DP-1".to_string()).is_ok());
    let requests = cfg.test();
    assert_eq!(
        requests,
        vec![ConfigRequest::DisableHead { head: 7 }, ConfigRequest::Test]
    );
}

#[test]
fn cancel_only_destroys() {
    let mut cfg = config(vec![head(7, "DP-1", true, vec![])], false);
    assert!(cfg.disable_head(&"DP-1".to_string()).is_ok());
    let requests = cfg.cancel();
    assert_eq!(
        requests,
        vec![ConfigRequest::DisableHead { head: 7 }, ConfigRequest::Destroy]
    );
}

fn extension_model() -> Model {
    let mut model = Model::new();
    model.handle_global(&"zwlr_output_manager_v1".to_string(), 4);
    model.handle_global(&"zcosmic_output_manager_v1".to_string(), 3);
    model
}

#[test]
fn create_output_config_snapshots_heads() {
    let mut model = extension_model();
    model.handle_manager_done(42);
    model.heads.push(head(7, "DP-1", true, three_refresh_modes()));
    let cfg = model.create_output_config();
    assert_eq!(cfg.serial, 42);
    assert!(cfg.has_extension);
    assert_eq!(cfg.extension_version, 3);
    assert_eq!(cfg.known_heads.len(), 1);
    assert_eq!(cfg.known_heads[0].name, "DP-1");
    assert_eq!(cfg.known_heads[0].modes.len(), 3);
    assert!(cfg.configured_heads.is_empty());
    assert!(cfg.requests.is_empty());
}

#[test]
fn xwayland_primary_needs_extension_and_version() {
    let mut model = Model::new();
    model.handle_global(&"zwlr_output_manager_v1".to_string(), 4);
    assert_eq!(
        model.set_xwayland_primary(None),
        Err(ConfigurationError::NoCosmicExtension)
    );
    model.handle_global(&"zcosmic_output_manager_v1".to_string(), 2);
    assert_eq!(
        model.set_xwayland_primary(None),
        Err(ConfigurationError::UnsupportedXwaylandPrimary)
    );
}

#[test]
fn xwayland_primary_resolves_extension_heads() {
    let mut model = extension_model();
    let mut h = head(7, "DP-1", true, vec![]);
    h.has_extension_head = true;
    model.heads.push(h);
    model.heads.push(head(8, "HDMI-A-1", true, vec![]));

    assert_eq!(model.set_xwayland_primary(None), Ok(None));
    assert_eq!(model.set_xwayland_primary(Some(&"DP-1".to_string())), Ok(Some(7)));
    // A head without the paired extension object does not resolve.
    assert_eq!(
        model.set_xwayland_primary(Some(&"HDMI-A-1".to_string())),
        Err(ConfigurationError::UnknownOutput)
    );
    assert_eq!(
        model.set_xwayland_primary(Some(&"DVI-1".to_string())),
        Err(ConfigurationError::UnknownOutput)
    );
}

#[test]
fn apply_current_config_restages_wholesale() {
    let mut model = extension_model();
    let mut h = head(7, "DP-1", true, three_refresh_modes());
    h.current_mode = Some(2);
    h.position_x = 100;
    h.position_y = 200;
    h.scale_1000 = 1500;
    h.transform = Some(Transform::Normal);
    h.adaptive_sync = Some(AdaptiveSync::Always);
    model.heads.push(h);
    model.heads.push(head(8, "HDMI-A-1", false, vec![]));

    let requests = model.apply_current_config().expect("wholesale apply");
    assert_eq!(
        requests,
        vec![
            ConfigRequest::EnableHead { head: 7 },
            ConfigRequest::SetScaleExt { scale_1000: 1500 },
            ConfigRequest::SetTransform { transform: Transform::Normal },
            ConfigRequest::SetPosition { x: 100, y: 200 },
            ConfigRequest::SetAdaptiveSyncExt { state: AdaptiveSync::Always },
            ConfigRequest::SetMode { mode: 2 },
            ConfigRequest::DisableHead { head: 8 },
            ConfigRequest::Apply,
        ]
    );
}

#[test]
fn apply_current_config_needs_extension() {
    let mut model = Model::new();
    model.handle_global(&"zwlr_output_manager_v1".to_string(), 4);
    assert_eq!(
        model.apply_current_config(),
        Err(ConfigurationError::NoCosmicExtension)
    );
    model.handle_global(&"zcosmic_output_manager_v1".to_string(), 1);
    assert_eq!(
        model.apply_current_config(),
        Err(ConfigurationError::UnsupportedXwaylandPrimary)
    );
}

#[test]
fn refresh_tie_prefers_first_candidate() {
    let modes = vec![mode(1, 1920, 1080, 59940), mode(2, 1920, 1080, 59960)];
    let mut cfg = config(vec![head(7, "DP-1", true, modes)], false);
    let args = HeadConfiguration {
        size: Some((1920, 1080)),
        refresh_mhz: Some(59950),
        ..Default::default()
    };
    assert!(cfg.enable_head(&"DP-1".to_string(), Some(args)).is_ok());
    // Both candidates deviate by ten millihertz; the first advertised wins.
    assert_eq!(
        cfg.requests,
        vec![ConfigRequest::EnableHead { head: 7 }, ConfigRequest::SetMode { mode: 1 }]
    );
}

#[test]
fn duplicate_names_resolve_to_first_match() {
    let mut cfg = config(
        vec![head(7, "DP-1", true, vec![]), head(8, "DP-1", false, vec![])],
        false,
    );
    assert!(cfg.disable_head(&"DP-1".to_string()).is_ok());
    let requests = cfg.apply();
    // The second head of the same name counts as staged too: it is
    // neither addressed twice nor re-staged on its own.
    assert_eq!(
        requests,
        vec![ConfigRequest::DisableHead { head: 7 }, ConfigRequest::Apply]
    );
}

#[test]
fn configure_remaining_heads_covers_every_name() {
    let mut source = head(9, "eDP-1", true, vec![]);
    source.current_mode = None;
    let mut mirroring = head(8, "HDMI-A-1", true, vec![]);
    mirroring.mirroring = Some("eDP-1".to_string());
    let disabled = head(10, "DVI-1", false, vec![]);
    let staged = head(7, "DP-1", true, vec![]);
    let mut cfg = config(vec![staged, mirroring, source, disabled], true);

    assert!(cfg.disable_head(&"DP-1".to_string()).is_ok());
    cfg.configure_remaining_heads();
    // Every known head's name is now staged, each unstaged one re-staged
    // from its snapshot state, and the explicit staging is untouched.
    for name in ["DP-1", "HDMI-A-1", "eDP-1", "DVI-1"] {
        assert!(cfg.configured_heads.contains(&name.to_string()));
    }
    assert_eq!(
        cfg.requests,
        vec![
            ConfigRequest::DisableHead { head: 7 },
            ConfigRequest::MirrorHead { head: 8, source: 9 },
            ConfigRequest::EnableHead { head: 9 },
            ConfigRequest::DisableHead { head: 10 },
        ]
    );
}
