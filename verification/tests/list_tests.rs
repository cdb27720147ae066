use cosmic_randr::AdaptiveSync;
use cosmic_randr::AdaptiveSyncState;
use cosmic_randr::Model;
use cosmic_randr::OutputHead;
use cosmic_randr::OutputMode;
use cosmic_randr::Transform;
use cosmic_randr::list::List;
use cosmic_randr::list::Mode;
use cosmic_randr::list::Output;

fn model_with(heads: Vec<OutputHead>) -> Model {
    let mut model = Model::new();
    model.handle_global(&"zwlr_output_manager_v1".to_string(), 4);
    for head in heads {
        model.heads.push(head);
    }
    model
}

fn head(id: u64, name: &str, make: &str, model: &str) -> OutputHead {
    OutputHead {
        id,
        adaptive_sync: None,
        adaptive_sync_support: None,
        current_mode: None,
        description: String::new(),
        enabled: false,
        make: make.to_string(),
        model: model.to_string(),
        modes: vec![
            OutputMode { id: id * 10, width: 1920, height: 1080, refresh: 60000, preferred: false },
        ],
        name: name.to_string(),
        physical_height: 0,
        physical_width: 0,
        position_x: 0,
        position_y: 0,
        scale_1000: 1000,
        serial_number: String::new(),
        transform: None,
        mirroring: None,
        xwayland_primary: None,
        has_extension_head: false,
    }
}

#[test]
fn list_mode_and_output_start_empty() {
    let m = Mode::new();
    assert_eq!((m.size, m.refresh_rate, m.preferred), ((0, 0), 0, false));
    let o = Output::new();
    assert_eq!(o.name, "");
    assert!(!o.enabled);
    assert_eq!(o.scale_1000, 1000);
    assert!(o.modes.is_empty());
    assert!(o.current.is_none());
    let l = List::default();
    assert!(l.outputs.is_empty() && l.modes.is_empty());
}

#[test]
fn apply_list_overwrites_first_addressed_head() {
    let mut model = model_with(vec![head(7, "DP-1", "ACME", "S")]);
    let mut output = Output::new();
    output.name = "DP-1".to_string();
    output.make = Some("ACME".to_string());
    output.model = "S".to_string();
    output.enabled = true;
    output.position_x = 10;
    output.position_y = 20;
    output.scale_1000 = 1500;
    output.transform = Some(Transform::Rotate90);
    output.mirroring = Some("HDMI-A-1".to_string());
    output.adaptive_sync = Some(AdaptiveSyncState::Auto);
    output.xwayland_primary = Some(false);
    output.modes = vec![0];
    output.current = Some(0);
    let list = List {
        outputs: vec![output],
        modes: vec![Mode { size: (1920, 1080), refresh_rate: 75000, preferred: true }],
    };

    model.apply_list(&list);
    let merged = &model.heads[0];
    assert!(merged.enabled);
    assert_eq!((merged.position_x, merged.position_y), (10, 20));
    assert_eq!(merged.scale_1000, 1500);
    assert_eq!(merged.transform, Some(Transform::Rotate90));
    assert_eq!(merged.mirroring, Some("HDMI-A-1".to_string()));
    assert_eq!(merged.adaptive_sync, Some(AdaptiveSync::Automatic));
    assert_eq!(merged.xwayland_primary, Some(false));
    // The imported current mode refreshed the size-matched entry.
    assert_eq!(merged.current_mode, Some(70));
    assert_eq!(merged.modes[0].refresh, 75000);
    assert!(merged.modes[0].preferred);
    // Identity fields stay.
    assert_eq!(merged.name, "DP-1");
    assert_eq!(merged.make, "ACME");
}

#[test]
fn apply_list_skips_unaddressed_heads() {
    let mut model = model_with(vec![head(7, "DP-1", "ACME", "S")]);
    let mut output = Output::new();
    output.name = "DP-1".to_string();
    output.make = Some("OTHER".to_string());
    output.model = "S".to_string();
    output.enabled = true;
    let list = List { outputs: vec![output], modes: vec![] };

    model.apply_list(&list);
    // The make differs: nothing is touched.
    assert!(!model.heads[0].enabled);
}

#[test]
fn apply_list_without_size_match_keeps_modes() {
    let mut model = model_with(vec![head(7, "DP-1", "", "S")]);
    let mut output = Output::new();
    output.name = "DP-1".to_string();
    output.make = None;
    output.model = "S".to_string();
    output.enabled = true;
    output.modes = vec![0];
    output.current = Some(0);
    let list = List {
        outputs: vec![output],
        modes: vec![Mode { size: (2560, 1440), refresh_rate: 60000, preferred: false }],
    };

    model.apply_list(&list);
    let merged = &model.heads[0];
    assert!(merged.enabled);
    assert_eq!(merged.current_mode, None);
    assert_eq!(merged.modes[0].refresh, 60000);
    assert!(!merged.modes[0].preferred);
}
