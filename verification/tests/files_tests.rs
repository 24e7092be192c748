//! File-name handling, formatting helpers, and presentation decisions.

use testypf_core::files::classify_drop_path;
use testypf_core::files::extension_stats;
use testypf_core::files::format_extension_summary;
use testypf_core::files::format_file_size;
use testypf_core::files::is_font_file;
use testypf_core::files::parse_rgba_hex;
use testypf_core::files::sanitized_file_stem;
use testypf_core::files::supported_formats_text;
use testypf_core::files::DropPathKind;
use testypf_core::files::ScanStats;

#[test]
fn detects_font_extensions() {
    assert!(is_font_file("font.TTF"));
    assert!(is_font_file("font.woff2"));
    assert!(!is_font_file("font.txt"));
}

#[test]
fn supports_additional_font_formats() {
    assert!(is_font_file("demo.dfont"));
    assert!(is_font_file("demo.eot"));
    assert!(is_font_file("demo.svg"));
    assert!(is_font_file("demo.pfa"));
    assert!(is_font_file("demo.pfb"));
}

#[test]
fn files_without_an_extension_are_not_fonts() {
    assert!(!is_font_file("no_extension"));
    assert!(!is_font_file(".ttf"));
    assert!(!is_font_file("/fonts/dir.ttf/inner"));
    assert!(is_font_file("/fonts/archive.tar.ttf"));
}

#[test]
fn aggregates_extension_stats() {
    let paths = vec![
        "a.ttf".to_string(),
        "b.otf".to_string(),
        "c.OTF".to_string(),
        "d.woff2".to_string(),
        "e.woff".to_string(),
        "ignored.txt".to_string(),
    ];

    let stats = extension_stats(&paths);
    let count = |key: &str| {
        stats
            .iter()
            .find(|(k, _)| k == key)
            .map(|(_, c)| *c)
    };
    assert_eq!(count("ttf"), Some(1));
    assert_eq!(count("otf"), Some(2));
    assert_eq!(count("woff2"), Some(1));
    assert_eq!(count("woff"), Some(1));
    assert_eq!(count("txt"), None);
}

#[test]
fn extension_summary_lists_counts_sorted() {
    let paths = vec![
        "a.woff".to_string(),
        "b.otf".to_string(),
        "c.otf".to_string(),
    ];
    let stats = extension_stats(&paths);
    assert_eq!(
        format_extension_summary(&stats),
        " Formats: 1x .woff, 2x .otf"
    );
    assert_eq!(format_extension_summary(&Vec::new()), "");
}

#[test]
fn supported_formats_are_listed_alphabetically() {
    assert_eq!(
        supported_formats_text(),
        ".dfont, .eot, .otb, .otc, .otf, .pfa, .pfb, .svg, .ttc, .ttf, .woff, .woff2"
    );
}

#[test]
fn classify_drop_path_flags_invalid_inputs() {
    assert_eq!(
        classify_drop_path("fonts/demo.ttf", true, false, true),
        DropPathKind::FontFile
    );
    assert_eq!(
        classify_drop_path("fonts", true, true, false),
        DropPathKind::Directory
    );
    assert_eq!(
        classify_drop_path("fonts/readme.md", true, false, true),
        DropPathKind::Unsupported
    );
    assert_eq!(
        classify_drop_path("fonts/missing.otf", false, false, false),
        DropPathKind::Missing
    );
}

#[test]
fn scan_stats_start_at_zero() {
    let stats = ScanStats::default();
    assert_eq!(stats.directories_scanned, 0);
    assert_eq!(stats.files_checked, 0);
    assert_eq!(stats.fonts_found, 0);
    assert!(stats.sample_files.is_empty());
}

#[test]
fn format_file_size_scales_units() {
    assert_eq!(format_file_size(0), "0 B");
    assert_eq!(format_file_size(532), "532 B");
    assert_eq!(format_file_size(1536), "1.5 KB");
    assert_eq!(format_file_size(5_242_880), "5.0 MB");
}

#[test]
fn format_file_size_rounds_ties_to_even() {
    assert_eq!(format_file_size(1280), "1.2 KB", "12.5 tenths round down to even");
    assert_eq!(format_file_size(1792), "1.8 KB", "17.5 tenths round up to even");
    assert_eq!(format_file_size(1300), "1.3 KB", "an ordinary remainder rounds to nearest");
}

#[test]
fn sanitized_stems_are_lowercase_single_underscore_runs() {
    assert_eq!(sanitized_file_stem("My Font! Bold"), "my_font_bold");
    assert_eq!(sanitized_file_stem("__Edge__Case__"), "edge_case");
    assert_eq!(sanitized_file_stem("___"), "");
    let long = "A".repeat(60);
    assert_eq!(sanitized_file_stem(&long).len(), 40);
}

#[test]
fn parses_hex_colors() {
    assert_eq!(parse_rgba_hex("#112233"), Some((0x11, 0x22, 0x33, 0xFF)));
    assert_eq!(parse_rgba_hex("44556677"), Some((0x44, 0x55, 0x66, 0x77)));
    assert_eq!(parse_rgba_hex("12"), None);
    assert_eq!(parse_rgba_hex("GGHHII"), None);
}

#[test]
fn hex_colors_tolerate_surrounding_whitespace() {
    assert_eq!(parse_rgba_hex("  #A0B0C0 "), Some((0xA0, 0xB0, 0xC0, 0xFF)));
    assert_eq!(parse_rgba_hex("   "), None);
}
