//! Cache gating: reuse only on full structural equality of settings
//! and an identical target path list.

use testypf_core::cache::should_use_cache;
use testypf_core::render::RenderSettings;
use testypf_core::render::RendererBackend;

fn paths(names: &[&str]) -> Vec<String> {
    names.iter().map(|n| n.to_string()).collect()
}

#[test]
fn cache_hit_only_when_settings_and_fonts_match() {
    let settings = RenderSettings::default();
    let mut other_settings = RenderSettings::default();
    other_settings.font_size = settings.font_size + 1;
    let fonts = paths(&["a.ttf", "b.otf"]);
    let other_fonts = paths(&["a.ttf"]);

    assert!(
        !should_use_cache(&None, &paths(&[]), &settings, &fonts, true),
        "No previous settings means no cache hit"
    );
    assert!(
        !should_use_cache(&Some(settings.clone()), &fonts, &settings, &fonts, false),
        "No previews means no cache hit"
    );
    assert!(
        should_use_cache(&Some(settings.clone()), &fonts, &settings, &fonts, true),
        "Matching settings and fonts with previews should hit cache"
    );
    assert!(
        !should_use_cache(&Some(other_settings), &fonts, &settings, &fonts, true),
        "Changed settings invalidates cache"
    );
    assert!(
        !should_use_cache(
            &Some(settings.clone()),
            &other_fonts,
            &settings,
            &fonts,
            true
        ),
        "Changed fonts invalidate cache"
    );
}

#[test]
fn every_settings_field_invalidates_on_its_own() {
    let base = RenderSettings::default();
    let fonts = paths(&["a.ttf"]);

    let mut changed = base.clone();
    changed.sample_text = "Other".to_string();
    assert!(!should_use_cache(&Some(changed), &fonts, &base, &fonts, true));

    let mut changed = base.clone();
    changed.font_size = 17;
    assert!(!should_use_cache(&Some(changed), &fonts, &base, &fonts, true));

    let mut changed = base.clone();
    changed.foreground_color = (1, 0, 0, 255);
    assert!(!should_use_cache(&Some(changed), &fonts, &base, &fonts, true));

    let mut changed = base.clone();
    changed.background_color = Some((255, 255, 255, 255));
    assert!(!should_use_cache(&Some(changed), &fonts, &base, &fonts, true));

    let mut changed = base.clone();
    changed.backend = RendererBackend::Json;
    assert!(!should_use_cache(&Some(changed), &fonts, &base, &fonts, true));

    let mut changed = base.clone();
    changed.padding = 11;
    assert!(!should_use_cache(&Some(changed), &fonts, &base, &fonts, true));

    let mut changed = base.clone();
    changed.variation_coords.push(("wght".to_string(), 700));
    assert!(
        !should_use_cache(&Some(changed), &fonts, &base, &fonts, true),
        "adding one variation coordinate invalidates"
    );

    let mut with_coord = base.clone();
    with_coord.variation_coords.push(("wght".to_string(), 700));
    let mut altered = with_coord.clone();
    altered.variation_coords[0].1 = 701;
    assert!(
        !should_use_cache(&Some(altered), &fonts, &with_coord, &fonts, true),
        "altering one variation coordinate invalidates"
    );
}

#[test]
fn coordinate_order_does_not_matter() {
    let fonts = paths(&["a.ttf"]);
    let mut one = RenderSettings::default();
    one.variation_coords.push(("wght".to_string(), 700));
    one.variation_coords.push(("wdth".to_string(), 80));
    let mut two = RenderSettings::default();
    two.variation_coords.push(("wdth".to_string(), 80));
    two.variation_coords.push(("wght".to_string(), 700));

    assert!(
        should_use_cache(&Some(one), &fonts, &two, &fonts, true),
        "the coordinate mapping is compared order-independently"
    );
}

#[test]
fn path_order_does_matter() {
    let settings = RenderSettings::default();
    let one = paths(&["a.ttf", "b.otf"]);
    let two = paths(&["b.otf", "a.ttf"]);

    assert!(
        !should_use_cache(&Some(settings.clone()), &one, &settings, &two, true),
        "reordering target fonts invalidates"
    );
}

#[test]
fn the_decision_is_deterministic_for_identical_inputs() {
    let settings = RenderSettings::default();
    let fonts = paths(&["a.ttf"]);
    let first = should_use_cache(&Some(settings.clone()), &fonts, &settings, &fonts, true);
    let second = should_use_cache(&Some(settings.clone()), &fonts, &settings, &fonts, true);
    assert_eq!(first, second);
    assert!(first);
}
