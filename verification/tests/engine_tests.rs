//! The engine facade, preview building, filtering, and the variation
//! summary.

use testypf_core::engine::TestypfEngine;
use testypf_core::registry::FontScope;
use testypf_core::registry::FontSource;
use testypf_core::registry::TestypfFontInfo;
use testypf_core::render::build_render_preview;
use testypf_core::render::preview_metadata_text;
use testypf_core::render::variation_summary;
use testypf_core::render::ForeignRenderEngine;
use testypf_core::render::RawRenderPayload;
use testypf_core::render::RenderPreview;
use testypf_core::render::RenderRequest;
use testypf_core::render::RenderResult;
use testypf_core::render::RenderSettings;
use testypf_core::ui::font_matches_filter;
use testypf_core::ui::visible_font_indices;
use testypf_core::TestypfError;

fn sample_font_info(path: &str, family: &str, style: &str) -> TestypfFontInfo {
    TestypfFontInfo {
        source: FontSource::new(path.to_string()),
        postscript_name: format!("{family}PS"),
        full_name: format!("{family} Font"),
        family_name: family.to_string(),
        style: style.to_string(),
        is_installed: false,
        variation_axes: Vec::new(),
    }
}

struct TextEngine {
    calls: usize,
    fail_at: Option<usize>,
}

impl ForeignRenderEngine for TextEngine {
    fn render_text(&mut self, _request: &RenderRequest) -> Result<RawRenderPayload, String> {
        self.calls += 1;
        if self.fail_at == Some(self.calls) {
            return Err("engine down".to_string());
        }
        Ok(RawRenderPayload::Text("diag".to_string()))
    }
}

#[test]
fn engine_starts_at_user_scope_and_switches() {
    let mut engine = TestypfEngine::new();
    assert_eq!(engine.font_install_scope(), FontScope::User);
    engine.set_font_install_scope(FontScope::System);
    assert_eq!(engine.font_install_scope(), FontScope::System);
    assert_eq!(engine.text_renderer().backend, "opixa");
}

#[test]
fn render_previews_pairs_every_font_with_a_result() {
    let mut engine = TestypfEngine::new();
    engine
        .font_manager()
        .push_font_for_tests(sample_font_info("a.ttf", "Alpha", "Regular"));
    engine
        .font_manager()
        .push_font_for_tests(sample_font_info("b.ttf", "Beta", "Bold"));
    let mut foreign = TextEngine {
        calls: 0,
        fail_at: None,
    };

    let previews = engine
        .render_previews(&mut foreign, &RenderSettings::default())
        .expect("render should succeed");

    assert_eq!(previews.len(), 2);
    assert_eq!(foreign.calls, 2);
    assert_eq!(previews[0].0.source.path, "a.ttf");
    assert_eq!(previews[1].0.source.path, "b.ttf");
    assert_eq!(previews[0].1.format, "json");
}

#[test]
fn render_previews_of_an_empty_registry_succeed_with_nothing() {
    let mut engine = TestypfEngine::new();
    let mut foreign = TextEngine {
        calls: 0,
        fail_at: None,
    };

    let previews = engine
        .render_previews(&mut foreign, &RenderSettings::default())
        .expect("an empty registry is owed an empty success");

    assert!(previews.is_empty());
    assert_eq!(foreign.calls, 0);
}

#[test]
fn render_previews_stops_at_the_first_failure() {
    let mut engine = TestypfEngine::new();
    engine
        .font_manager()
        .push_font_for_tests(sample_font_info("a.ttf", "Alpha", "Regular"));
    engine
        .font_manager()
        .push_font_for_tests(sample_font_info("b.ttf", "Beta", "Bold"));
    let mut foreign = TextEngine {
        calls: 0,
        fail_at: Some(1),
    };

    let err = engine
        .render_previews(&mut foreign, &RenderSettings::default())
        .expect_err("render should fail");

    assert_eq!(
        err,
        TestypfError::RenderFailed("Failed to render text: engine down".to_string())
    );
    assert_eq!(foreign.calls, 1, "no further render is attempted");
}

#[test]
fn build_render_preview_carries_the_result_over() {
    let result = RenderResult {
        width: 2,
        height: 2,
        data: vec![9; 16],
        format: "Rgba8".to_string(),
    };

    let preview = build_render_preview(5, result, 12).expect("a raster result builds");

    assert_eq!(preview.font_index, 5);
    assert_eq!(preview.width, 2);
    assert_eq!(preview.height, 2);
    assert_eq!(preview.pixels, vec![9; 16]);
    assert_eq!(preview.duration_ms, 12);
}

#[test]
fn build_render_preview_refuses_non_previewable_results() {
    let result = RenderResult {
        width: 2,
        height: 2,
        data: vec![9; 12],
        format: "Rgba8".to_string(),
    };

    let err = build_render_preview(0, result, 1).expect_err("a short buffer fails");

    assert!(err.contains("Pixel data length mismatch"));
}

#[test]
fn variation_summary_sorts_by_tag() {
    let mut settings = RenderSettings::default();
    assert!(variation_summary(&settings).is_none());

    settings.variation_coords.push(("wght".to_string(), 700));
    settings.variation_coords.push(("opsz".to_string(), -2));
    let summary = variation_summary(&settings).expect("coordinates give a summary");
    assert_eq!(summary, "opsz=-2, wght=700");
}

#[test]
fn preview_metadata_text_includes_duration_and_backend() {
    let font = sample_font_info("demo.ttf", "Demo", "Regular");
    let preview = RenderPreview {
        font_index: 0,
        width: 32,
        height: 16,
        format: "Rgba8".to_string(),
        pixels: vec![255; 32 * 16 * 4],
        duration_ms: 12,
    };

    let text = preview_metadata_text(&preview, &font, &RenderSettings::default());

    assert!(text.contains("12 ms"), "render duration should be shown");
    assert!(
        text.contains(RenderSettings::default().backend.label()),
        "backend label should be present"
    );
    assert!(text.contains("Dimensions: 32x16"));
}

#[test]
fn fonts_match_filters_case_insensitively_on_every_field() {
    let font = sample_font_info("/library/Demo-Bold.ttf", "Demo", "Bold");

    assert!(font_matches_filter(&font, ""));
    assert!(font_matches_filter(&font, "   "));
    assert!(font_matches_filter(&font, "demo"));
    assert!(font_matches_filter(&font, "BOLD"));
    assert!(font_matches_filter(&font, "library"));
    assert!(!font_matches_filter(&font, "serif"));
}

#[test]
fn fonts_match_filters_beyond_ascii_case() {
    let mut font = sample_font_info("/fonts/Czech.ttf", "Demo", "Regular");
    font.family_name = "Škoda".to_string();

    assert!(font_matches_filter(&font, "ŠKODA"));
    assert!(!font_matches_filter(&font, "skoda"));
}

#[test]
fn visible_indices_keep_registry_order() {
    let fonts = vec![
        sample_font_info("a.ttf", "Alpha", "Regular"),
        sample_font_info("b.ttf", "Beta", "Bold"),
        sample_font_info("c.ttf", "Alphabet", "Italic"),
    ];

    assert_eq!(visible_font_indices(&fonts, "alpha"), vec![0, 2]);
    assert_eq!(visible_font_indices(&fonts, ""), vec![0, 1, 2]);
    assert!(visible_font_indices(&fonts, "gamma").is_empty());
}
