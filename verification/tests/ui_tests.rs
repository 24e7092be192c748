//! Presentation decisions: layout, render availability, scopes, and
//! friendly error wording.

use testypf_core::registry::FontScope;
use testypf_core::ui::derive_render_targets;
use testypf_core::ui::friendly_font_op_error;
use testypf_core::ui::friendly_render_error;
use testypf_core::ui::layout_row_count;
use testypf_core::ui::AppConfig;
use testypf_core::ui::InstallScope;
use testypf_core::ui::LayoutMode;
use testypf_core::ui::RenderAvailability;
use testypf_core::render::RendererBackend;

#[test]
fn layout_row_count_matches_layout_mode() {
    assert_eq!(layout_row_count(0, LayoutMode::Single), 0);
    assert_eq!(layout_row_count(3, LayoutMode::Single), 3);
    assert_eq!(layout_row_count(0, LayoutMode::SideBySide), 0);
    assert_eq!(layout_row_count(1, LayoutMode::SideBySide), 1);
    assert_eq!(layout_row_count(2, LayoutMode::SideBySide), 1);
    assert_eq!(layout_row_count(3, LayoutMode::SideBySide), 2);
    assert_eq!(layout_row_count(4, LayoutMode::SideBySide), 2);
}

#[test]
fn render_targets_respect_selection_toggle() {
    let visible = vec![0, 1, 2];

    assert_eq!(derive_render_targets(Some(2), &visible, true), vec![2]);
    assert!(
        derive_render_targets(None, &visible, true).is_empty(),
        "selection required when rendering selected only"
    );
    assert_eq!(derive_render_targets(None, &visible, false), visible);
}

#[test]
fn install_scopes_map_to_registry_scopes() {
    assert_eq!(InstallScope::User.to_font_scope(), FontScope::User);
    assert_eq!(InstallScope::System.to_font_scope(), FontScope::System);
    assert!(InstallScope::User.description().contains("User"));
    assert!(InstallScope::System.description().contains("admin"));
}

#[test]
fn layout_modes_offer_both_options() {
    assert_eq!(
        LayoutMode::options(),
        vec![LayoutMode::Single, LayoutMode::SideBySide]
    );
    assert_eq!(LayoutMode::Single.label(), "Single column");
    assert_eq!(LayoutMode::SideBySide.label(), "Side-by-side");
}

#[test]
fn render_availability_is_derived_in_priority_order() {
    assert_eq!(
        RenderAvailability::derive(0, 0, false, None),
        RenderAvailability::NoFonts
    );
    assert_eq!(
        RenderAvailability::derive(3, 2, true, None),
        RenderAvailability::NeedsSelection
    );
    assert_eq!(
        RenderAvailability::derive(3, 0, false, None),
        RenderAvailability::NoFilterMatches
    );
    assert_eq!(
        RenderAvailability::derive(3, 2, false, None),
        RenderAvailability::Ready
    );
    assert!(RenderAvailability::Ready.can_render());
    assert!(!RenderAvailability::NoFonts.can_render());
    assert_eq!(RenderAvailability::NoFonts.cta_label(), "Add fonts to render");
    assert!(RenderAvailability::NeedsSelection.hint().contains("selected only"));
}

#[test]
fn app_config_round_trips_through_equality() {
    let config = AppConfig {
        backend: RendererBackend::Orge,
    };
    let copy = config;
    assert_eq!(config, copy);
}

#[test]
fn friendly_font_op_errors_add_scope_guidance() {
    let msg = friendly_font_op_error("Install", InstallScope::System, "Permission denied");
    assert!(msg.starts_with("Install failed: Permission denied. "));
    assert!(msg.contains("admin rights"));

    let msg = friendly_font_op_error("Install", InstallScope::User, "ACCESS DENIED by policy");
    assert!(msg.contains("Switch to System scope"));

    let msg = friendly_font_op_error("Uninstall", InstallScope::User, "disk exploded");
    assert_eq!(msg, "Uninstall failed: disk exploded");

    let msg = friendly_font_op_error(
        "Install",
        InstallScope::User,
        "platform support not enabled here",
    );
    assert!(msg.contains("Enable platform features"));
}

#[test]
fn friendly_render_errors_point_at_the_likely_cause() {
    let msg = friendly_render_error("Demo", "could not import typfpy today");
    assert!(msg.contains("typfpy Python module missing"));

    let msg = friendly_render_error("Demo", "Backend 'zeno' is unknown");
    assert!(msg.contains("backend unavailable"));

    let msg = friendly_render_error("Demo", "glyph cache poisoned");
    assert_eq!(msg, "Failed to render font Demo: glyph cache poisoned");
}
