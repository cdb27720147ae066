use cosmic_randr::OutputHead;
use cosmic_randr::OutputMode;
use cosmic_randr::Rectangle;
use cosmic_randr::auto_correct_offsets;
use cosmic_randr::display;
use cosmic_randr::sort_modes;

fn rect(x: i32, y: i32, width: i32, height: i32) -> Rectangle {
    Rectangle { x, y, width, height }
}

#[test]
fn display_flush_east_stays_put() {
    // Already flush east-adjacent, offsets within the margin: unchanged.
    let mut moved = rect(0, 0, 1920, 1080);
    display(&mut moved, &vec![rect(1920, 0, 1920, 1080)]);
    assert_eq!(moved, rect(0, 0, 1920, 1080));
}

#[test]
fn display_clamps_sliver_overlap() {
    // Vertical overlap under the margin: y is clamped into
    // [other.y - height + 4, other.y + other.height - 4].
    let mut moved = rect(0, -1080, 1920, 1080);
    display(&mut moved, &vec![rect(1920, 0, 1920, 1080)]);
    assert_eq!(moved, rect(0, -1076, 1920, 1080));

    let mut low = rect(0, 1079, 1920, 1080);
    display(&mut low, &vec![rect(1920, 0, 1920, 1080)]);
    assert_eq!(low, rect(0, 1076, 1920, 1080));
}

#[test]
fn display_snaps_near_alignment() {
    // Attached below, a few pixels off on x: both x edges snap into
    // exact alignment with the neighbour.
    let mut moved = rect(3, -1080, 1920, 1080);
    display(&mut moved, &vec![rect(0, 0, 1920, 1080)]);
    assert_eq!(moved, rect(0, -1080, 1920, 1080));
}

#[test]
fn display_without_neighbours_uses_origin() {
    let mut moved = rect(5, 5, 100, 50);
    display(&mut moved, &vec![]);
    assert_eq!(moved, rect(-100, 0, 100, 50));
}

fn laid_out_head(id: u64, name: &str, x: i32, y: i32) -> OutputHead {
    OutputHead {
        id,
        adaptive_sync: None,
        adaptive_sync_support: None,
        current_mode: Some(id * 10),
        description: String::new(),
        enabled: true,
        make: String::new(),
        model: String::new(),
        modes: vec![OutputMode { id: id * 10, width: 1920, height: 1080, refresh: 60000, preferred: false }],
        name: name.to_string(),
        physical_height: 0,
        physical_width: 0,
        position_x: x,
        position_y: y,
        scale_1000: 1000,
        serial_number: String::new(),
        transform: None,
        mirroring: None,
        xwayland_primary: None,
        has_extension_head: false,
    }
}

#[test]
fn auto_correct_renormalizes_to_origin() {
    let heads = vec![
        laid_out_head(1, "DP-1", 0, 0),
        laid_out_head(2, "HDMI-A-1", -1920, 0),
    ];
    let updates = auto_correct_offsets(&heads, &"HDMI-A-1".to_string());
    assert_eq!(updates.len(), 2);
    assert_eq!((updates[0].name.as_str(), updates[0].x, updates[0].y), ("DP-1", 1920, 0));
    assert_eq!((updates[1].name.as_str(), updates[1].x, updates[1].y), ("HDMI-A-1", 0, 0));
}

#[test]
fn auto_correct_unknown_output_yields_nothing() {
    let heads = vec![laid_out_head(1, "DP-1", 0, 0)];
    let updates = auto_correct_offsets(&heads, &"DVI-1".to_string());
    assert!(updates.is_empty());
}

#[test]
fn auto_correct_skips_head_without_current_mode() {
    let mut heads = vec![laid_out_head(1, "DP-1", 0, 0)];
    heads[0].current_mode = None;
    let updates = auto_correct_offsets(&heads, &"DP-1".to_string());
    assert!(updates.is_empty());
}

#[test]
fn sort_modes_orders_largest_and_fastest_first() {
    let mut modes = vec![
        OutputMode { id: 1, width: 1280, height: 720, refresh: 60000, preferred: false },
        OutputMode { id: 2, width: 1920, height: 1080, refresh: 59940, preferred: false },
        OutputMode { id: 3, width: 1920, height: 1080, refresh: 144000, preferred: true },
        OutputMode { id: 4, width: 1920, height: 1200, refresh: 60000, preferred: false },
    ];
    sort_modes(&mut modes);
    let ids: Vec<u64> = modes.iter().map(|m| m.id).collect();
    assert_eq!(ids, vec![4, 3, 2, 1]);
}

#[test]
fn rectangle_default_is_origin() {
    assert_eq!(Rectangle::default(), rect(0, 0, 0, 0));
}
