use cosmic_randr::Action;
use cosmic_randr::AdaptiveSync;
use cosmic_randr::AdaptiveSyncAvailability;
use cosmic_randr::ConfigOutcome;
use cosmic_randr::ExtensionHeadEvent;
use cosmic_randr::HeadEvent;
use cosmic_randr::Message;
use cosmic_randr::Model;
use cosmic_randr::ModeEvent;
use cosmic_randr::Transform;
use cosmic_randr::outcome_message;

fn bound_model(version: u32) -> Model {
    let mut model = Model::new();
    let actions = model.handle_global(&"zwlr_output_manager_v1".to_string(), version);
    assert_eq!(actions.len(), 1);
    model
}

#[test]
fn registry_rejects_old_manager() {
    let mut model = Model::new();
    let actions = model.handle_global(&"zwlr_output_manager_v1".to_string(), 1);
    assert_eq!(actions, vec![Action::Send(Message::Unsupported)]);
    assert!(!model.manager_bound);
}

#[test]
fn registry_binds_manager_clamped() {
    let mut model = Model::new();
    let actions = model.handle_global(&"zwlr_output_manager_v1".to_string(), 9);
    assert_eq!(actions, vec![Action::BindManager(4)]);
    assert!(model.manager_bound);
    assert_eq!(model.version, 9);

    let mut low = Model::new();
    let actions = low.handle_global(&"zwlr_output_manager_v1".to_string(), 2);
    assert_eq!(actions, vec![Action::BindManager(2)]);
}

#[test]
fn registry_binds_extension_clamped() {
    let mut model = Model::new();
    let actions = model.handle_global(&"zcosmic_output_manager_v1".to_string(), 7);
    assert_eq!(actions, vec![Action::BindExtension(3)]);
    assert!(model.extension_bound);
    assert_eq!(model.extension_version, 3);
}

#[test]
fn registry_ignores_other_interfaces() {
    let mut model = Model::new();
    let actions = model.handle_global(&"wl_compositor".to_string(), 5);
    assert!(actions.is_empty());
    assert!(!model.manager_bound);
    assert!(!model.extension_bound);
}

#[test]
fn head_announcement_creates_empty_mirror() {
    let mut model = bound_model(4);
    let actions = model.handle_manager_head(7);
    assert!(actions.is_empty());
    assert_eq!(model.heads.len(), 1);
    assert_eq!(model.heads[0].id, 7);
    assert_eq!(model.heads[0].name, "");
    assert!(!model.heads[0].enabled);
    assert!(model.heads[0].modes.is_empty());
    assert!(!model.heads[0].has_extension_head);
}

#[test]
fn head_events_update_fields() {
    let mut model = bound_model(4);
    model.handle_manager_head(7);
    model.handle_head_event(7, HeadEvent::Name("DP-1".to_string()));
    model.handle_head_event(7, HeadEvent::Make("ACME".to_string()));
    model.handle_head_event(7, HeadEvent::Model("Screen".to_string()));
    model.handle_head_event(7, HeadEvent::SerialNumber("123".to_string()));
    model.handle_head_event(7, HeadEvent::Description("ACME Screen".to_string()));
    model.handle_head_event(7, HeadEvent::PhysicalSize(344, 194));
    model.handle_head_event(7, HeadEvent::Position(1920, 0));
    model.handle_head_event(7, HeadEvent::Enabled(1));
    model.handle_head_event(7, HeadEvent::Transform(Some(Transform::Rotate90)));
    model.handle_head_event(7, HeadEvent::Scale1000(1500));
    model.handle_head_event(7, HeadEvent::AdaptiveSync(Some(true)));
    let head = &model.heads[0];
    assert_eq!(head.name, "DP-1");
    assert_eq!(head.make, "ACME");
    assert_eq!(head.model, "Screen");
    assert_eq!(head.serial_number, "123");
    assert_eq!(head.description, "ACME Screen");
    assert_eq!((head.physical_width, head.physical_height), (344, 194));
    assert_eq!((head.position_x, head.position_y), (1920, 0));
    assert!(head.enabled);
    assert_eq!(head.transform, Some(Transform::Rotate90));
    assert_eq!(head.scale_1000, 1500);
    assert_eq!(head.adaptive_sync, Some(AdaptiveSync::Always));
}

#[test]
fn current_mode_always_indexes_live_entry() {
    let mut model = bound_model(4);
    model.handle_manager_head(7);
    model.handle_head_event(7, HeadEvent::Mode(40));
    model.handle_mode_event(7, 40, ModeEvent::Size(1920, 1080));
    model.handle_mode_event(7, 40, ModeEvent::Refresh(60000));
    model.handle_head_event(7, HeadEvent::CurrentMode(40));
    assert_eq!(model.heads[0].current_mode, Some(40));

    // A Finished for the current mode prunes the entry and the reference.
    let actions = model.handle_mode_event(7, 40, ModeEvent::Finished);
    assert_eq!(actions, vec![Action::ReleaseMode(40)]);
    assert!(model.heads[0].modes.is_empty());
    assert_eq!(model.heads[0].current_mode, None);
}

#[test]
fn current_mode_ignores_unknown_identifier() {
    let mut model = bound_model(4);
    model.handle_manager_head(7);
    model.handle_head_event(7, HeadEvent::CurrentMode(99));
    assert_eq!(model.heads[0].current_mode, None);
}

#[test]
fn mode_events_create_and_update() {
    let mut model = bound_model(4);
    model.handle_manager_head(7);
    model.handle_head_event(7, HeadEvent::Mode(40));
    model.handle_mode_event(7, 40, ModeEvent::Size(2560, 1440));
    model.handle_mode_event(7, 40, ModeEvent::Refresh(144000));
    model.handle_mode_event(7, 40, ModeEvent::Preferred);
    let mode = model.heads[0].modes[0];
    assert_eq!((mode.id, mode.width, mode.height, mode.refresh, mode.preferred),
               (40, 2560, 1440, 144000, true));

    // An event for a mode never announced creates the entry first.
    model.handle_mode_event(7, 41, ModeEvent::Size(1920, 1080));
    assert_eq!(model.heads[0].modes.len(), 2);
    assert_eq!(model.heads[0].modes[1].id, 41);

    // An event for a head no longer mirrored is dropped.
    let actions = model.handle_mode_event(99, 40, ModeEvent::Refresh(1));
    assert!(actions.is_empty());
}

#[test]
fn head_finished_release_is_version_gated() {
    let mut model = bound_model(4);
    model.handle_manager_head(7);
    let actions = model.handle_head_event(7, HeadEvent::Finished);
    assert_eq!(actions, vec![Action::ReleaseHead(7)]);
    assert!(model.heads.is_empty());

    let mut old = bound_model(2);
    old.handle_manager_head(7);
    let actions = old.handle_head_event(7, HeadEvent::Finished);
    assert!(actions.is_empty());
    assert!(old.heads.is_empty());
}

#[test]
fn done_defers_until_extension_round_trip() {
    let mut model = bound_model(4);
    model.handle_global(&"zcosmic_output_manager_v1".to_string(), 3);
    let actions = model.handle_manager_head(7);
    assert_eq!(actions, vec![Action::CreateExtensionHead(7), Action::CreateSyncCallback]);
    assert!(model.heads[0].has_extension_head);

    // Done waits for the round-trip marker.
    let actions = model.handle_manager_done(55);
    assert!(actions.is_empty());
    assert_eq!(model.serial, 55);
    // The marker lands: the deferred Done is surfaced.
    let actions = model.handle_sync_done();
    assert_eq!(actions, vec![Action::Send(Message::ManagerDone)]);
    // A later Done without pending marker is immediate.
    let actions = model.handle_manager_done(56);
    assert_eq!(actions, vec![Action::Send(Message::ManagerDone)]);
    assert_eq!(model.serial, 56);
}

#[test]
fn manager_finished_clears_serial() {
    let mut model = bound_model(4);
    model.handle_manager_done(55);
    let actions = model.handle_manager_finished();
    assert_eq!(actions, vec![Action::Send(Message::ManagerFinished)]);
    assert!(!model.manager_bound);
    assert_eq!(model.serial, 0);
}

#[test]
fn extension_head_events_refine_fields() {
    let mut model = bound_model(4);
    model.handle_global(&"zcosmic_output_manager_v1".to_string(), 3);
    model.handle_manager_head(7);
    model.handle_extension_head_event(7, ExtensionHeadEvent::Scale1000(1250));
    model.handle_extension_head_event(7, ExtensionHeadEvent::Mirroring(Some("DP-1".to_string())));
    model.handle_extension_head_event(
        7,
        ExtensionHeadEvent::AdaptiveSyncAvailable(AdaptiveSyncAvailability::RequiresModeset),
    );
    model.handle_extension_head_event(
        7,
        ExtensionHeadEvent::AdaptiveSyncExt(Some(AdaptiveSync::Automatic)),
    );
    model.handle_extension_head_event(7, ExtensionHeadEvent::XwaylandPrimary(1));
    let head = &model.heads[0];
    assert_eq!(head.scale_1000, 1250);
    assert_eq!(head.mirroring, Some("DP-1".to_string()));
    assert_eq!(head.adaptive_sync_support, Some(AdaptiveSyncAvailability::RequiresModeset));
    assert_eq!(head.adaptive_sync, Some(AdaptiveSync::Automatic));
    assert_eq!(head.xwayland_primary, Some(true));
}

#[test]
fn clear_releases_every_head_and_stops() {
    let mut model = bound_model(4);
    model.handle_manager_head(7);
    model.handle_manager_head(8);
    let actions = model.clear();
    assert_eq!(
        actions,
        vec![Action::ReleaseHead(7), Action::ReleaseHead(8), Action::StopManager]
    );
    assert!(model.heads.is_empty());
}

#[test]
fn outcome_messages_map_exactly() {
    assert_eq!(outcome_message(ConfigOutcome::Succeeded), Message::ConfigurationSucceeded);
    assert_eq!(outcome_message(ConfigOutcome::Failed), Message::ConfigurationFailed);
    assert_eq!(outcome_message(ConfigOutcome::Cancelled), Message::ConfigurationCancelled);
}
