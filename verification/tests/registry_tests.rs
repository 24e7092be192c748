//! Registry behavior: adding, removing, installing and uninstalling
//! fonts against mock collaborators.

use testypf_core::registry::FontFileReader;
use testypf_core::registry::FontListManager;
use testypf_core::registry::FontScope;
use testypf_core::registry::FontSource;
use testypf_core::registry::FontValidator;
use testypf_core::registry::PlatformFontStore;
use testypf_core::registry::TestypfFontInfo;
use testypf_core::registry::TestypfVariationAxis;
use testypf_core::registry::set_install_state;
use testypf_core::ui::font_metadata_lines;
use testypf_core::TestypfError;

#[derive(Default)]
struct MockStore {
    installs: Vec<FontScope>,
    uninstalls: Vec<FontScope>,
    installed: Vec<String>,
    fail_queries: bool,
}

impl PlatformFontStore for MockStore {
    fn install_font(&mut self, source: &FontSource) -> Result<(), String> {
        self.installs.push(source.scope.unwrap_or(FontScope::User));
        self.installed.push(source.path.clone());
        Ok(())
    }

    fn uninstall_font(&mut self, source: &FontSource) -> Result<(), String> {
        self.uninstalls.push(source.scope.unwrap_or(FontScope::User));
        self.installed.retain(|p| p != &source.path);
        Ok(())
    }

    fn is_font_installed(&mut self, source: &FontSource) -> Result<bool, String> {
        if self.fail_queries {
            return Err("query refused".to_string());
        }
        Ok(self.installed.contains(&source.path))
    }
}

struct MockValidator {
    accept: bool,
}

impl FontValidator for MockValidator {
    fn validate_font_file(&mut self, _path: &str) -> Result<(), String> {
        if self.accept {
            Ok(())
        } else {
            Err("not a font".to_string())
        }
    }
}

struct MockReader {
    bytes: Vec<u8>,
}

impl FontFileReader for MockReader {
    fn read_file(&mut self, _path: &str) -> Result<Vec<u8>, String> {
        Ok(self.bytes.clone())
    }
}

/// The smallest byte sequence that parses as a (static) font: an sfnt
/// version 1.0 table directory with no tables.
fn minimal_font_bytes() -> Vec<u8> {
    vec![0x00, 0x01, 0x00, 0x00, 0x00, 0x00, 0x00, 0x00, 0x00, 0x00, 0x00, 0x00]
}

fn sample_font_info(path: &str) -> TestypfFontInfo {
    TestypfFontInfo {
        source: FontSource::new(path.to_string()),
        postscript_name: "DummyPS".to_string(),
        full_name: "Dummy Font".to_string(),
        family_name: "Dummy".to_string(),
        style: "Regular".to_string(),
        is_installed: false,
        variation_axes: Vec::new(),
    }
}

#[test]
fn install_defaults_to_user_scope() {
    let mut mock = MockStore::default();
    let mut validator = MockValidator { accept: true };
    let mut manager = FontListManager::new();
    let font = sample_font_info("user_scope.ttf");
    manager.push_font_for_tests(font.clone());

    manager
        .install_font(&mut validator, &mut mock, &font)
        .expect("install");

    assert_eq!(mock.installs, vec![FontScope::User]);
    assert!(mock.installed.contains(&font.source.path));
}

#[test]
fn install_scope_can_be_switched_to_system() {
    let mut mock = MockStore::default();
    let mut validator = MockValidator { accept: true };
    let mut manager = FontListManager::new();
    let font = sample_font_info("system_scope.ttf");
    manager.push_font_for_tests(font.clone());

    manager.set_install_scope(FontScope::System);
    manager
        .install_font(&mut validator, &mut mock, &font)
        .expect("install");
    manager
        .uninstall_font(&mut mock, &font)
        .expect("uninstall");

    assert_eq!(mock.installs, vec![FontScope::System]);
    assert_eq!(mock.uninstalls, vec![FontScope::System]);
}

#[test]
fn install_marks_record_installed() {
    let mut mock = MockStore::default();
    let mut validator = MockValidator { accept: true };
    let mut manager = FontListManager::new();
    let font = sample_font_info("mark.ttf");
    manager.push_font_for_tests(font.clone());

    manager
        .install_font(&mut validator, &mut mock, &font)
        .expect("install");

    let fonts = manager.get_fonts().expect("snapshot");
    assert!(fonts[0].is_installed, "record should be marked installed");
}

#[test]
fn uninstall_of_not_installed_font_fails_without_delegation() {
    let mut mock = MockStore::default();
    let mut manager = FontListManager::new();
    let font = sample_font_info("absent.ttf");
    manager.push_font_for_tests(font.clone());

    let err = manager
        .uninstall_font(&mut mock, &font)
        .expect_err("uninstall should fail");

    assert_eq!(
        err,
        TestypfError::FontManagementFailed("Font is not installed".to_string())
    );
    assert!(
        mock.uninstalls.is_empty(),
        "the store's uninstall must never be invoked"
    );
    let fonts = manager.get_fonts().expect("snapshot");
    assert_eq!(fonts.len(), 1);
    assert!(
        !fonts[0].is_installed,
        "the fail-fast path must leave the record untouched"
    );
}

#[test]
fn install_with_failing_validation_leaves_registry_untouched() {
    let mut mock = MockStore::default();
    let mut validator = MockValidator { accept: false };
    let mut manager = FontListManager::new();
    let mut font = sample_font_info("stale.ttf");
    font.is_installed = false;
    manager.push_font_for_tests(font.clone());

    let err = manager
        .install_font(&mut validator, &mut mock, &font)
        .expect_err("the defensive re-validation must fail the install");

    assert_eq!(
        err,
        TestypfError::FontManagementFailed("Font validation failed: not a font".to_string())
    );
    assert!(
        mock.installs.is_empty(),
        "the store's install must never be invoked"
    );
    let fonts = manager.get_fonts().expect("snapshot");
    assert_eq!(fonts.len(), 1);
    assert!(
        !fonts[0].is_installed,
        "no installed flag may change on the validation path"
    );
}

#[test]
fn install_of_unlisted_font_fails() {
    let mut mock = MockStore::default();
    let mut validator = MockValidator { accept: true };
    let mut manager = FontListManager::new();
    let font = sample_font_info("unlisted.ttf");

    let err = manager
        .install_font(&mut validator, &mut mock, &font)
        .expect_err("install should fail");

    assert_eq!(
        err,
        TestypfError::FontManagementFailed("Font not found in list".to_string())
    );
}

#[test]
fn add_font_accepts_new_path_and_returns_matching_record() {
    let mut mock = MockStore::default();
    let mut validator = MockValidator { accept: true };
    let mut reader = MockReader {
        bytes: minimal_font_bytes(),
    };
    let mut manager = FontListManager::new();
    let source = FontSource::new("/fonts/Sample-Regular.ttf".to_string());

    let record = manager
        .add_font(&mut validator, &mut reader, &mut mock, &source)
        .expect("add should succeed");

    assert_eq!(record.source.path, "/fonts/Sample-Regular.ttf");
    assert_eq!(record.postscript_name, "Sample-Regular");
    assert_eq!(record.full_name, "Sample-Regular");
    assert_eq!(record.family_name, "Sample-Regular");
    assert_eq!(record.style, "Regular");
    assert!(!record.is_installed);
    assert!(record.variation_axes.is_empty());
    assert_eq!(manager.get_fonts().expect("snapshot").len(), 1);
}

#[test]
fn add_font_rejects_duplicate_path() {
    let mut mock = MockStore::default();
    let mut validator = MockValidator { accept: true };
    let mut reader = MockReader {
        bytes: minimal_font_bytes(),
    };
    let mut manager = FontListManager::new();
    let source = FontSource::new("/fonts/Twice.ttf".to_string());

    manager
        .add_font(&mut validator, &mut reader, &mut mock, &source)
        .expect("first add should succeed");
    let err = manager
        .add_font(&mut validator, &mut reader, &mut mock, &source)
        .expect_err("second add should fail");

    assert_eq!(err, TestypfError::InvalidFont("Font already added".to_string()));
    assert_eq!(manager.get_fonts().expect("snapshot").len(), 1);
}

#[test]
fn add_font_rejects_invalid_file() {
    let mut mock = MockStore::default();
    let mut validator = MockValidator { accept: false };
    let mut reader = MockReader {
        bytes: minimal_font_bytes(),
    };
    let mut manager = FontListManager::new();
    let source = FontSource::new("/fonts/Bad.ttf".to_string());

    let err = manager
        .add_font(&mut validator, &mut reader, &mut mock, &source)
        .expect_err("add should fail");

    assert_eq!(
        err,
        TestypfError::InvalidFont("Font validation failed: not a font".to_string())
    );
    assert!(manager.get_fonts().expect("snapshot").is_empty());
}

#[test]
fn add_font_prepared_succeeds_on_parsing_bytes_and_a_new_path() {
    let mut mock = MockStore::default();
    let mut manager = FontListManager::new();
    let source = FontSource::new("/fonts/Prepared.ttf".to_string());

    let record = manager
        .add_font_prepared(&mut mock, &source, &minimal_font_bytes())
        .expect("parsing bytes with a new path are owed success");
    assert_eq!(record.source.path, "/fonts/Prepared.ttf");

    let err = manager
        .add_font_prepared(&mut mock, &source, &minimal_font_bytes())
        .expect_err("the second add must fail");
    assert_eq!(err, TestypfError::InvalidFont("Font already added".to_string()));

    let err = manager
        .add_font_prepared(
            &mut mock,
            &FontSource::new("/fonts/Other.ttf".to_string()),
            &b"dummy".to_vec(),
        )
        .expect_err("unparsable bytes must fail");
    assert_eq!(err, TestypfError::InvalidFont("Failed to parse font".to_string()));
}

#[test]
fn add_font_rejects_unparsable_bytes() {
    let mut mock = MockStore::default();
    let mut validator = MockValidator { accept: true };
    let mut reader = MockReader {
        bytes: b"dummy".to_vec(),
    };
    let mut manager = FontListManager::new();
    let source = FontSource::new("/fonts/Garbage.ttf".to_string());

    let err = manager
        .add_font(&mut validator, &mut reader, &mut mock, &source)
        .expect_err("add should fail");

    assert_eq!(err, TestypfError::InvalidFont("Failed to parse font".to_string()));
}

#[test]
fn add_font_reads_variation_axes_from_axis_table() {
    // An sfnt with a single `fvar` table declaring one `wght` axis
    // ranging 100..900 with default 400, in 16.16 fixed-point.
    let mut bytes: Vec<u8> = Vec::new();
    bytes.extend_from_slice(&0x00010000u32.to_be_bytes());
    bytes.extend_from_slice(&1u16.to_be_bytes()); // numTables
    bytes.extend_from_slice(&16u16.to_be_bytes()); // searchRange
    bytes.extend_from_slice(&0u16.to_be_bytes()); // entrySelector
    bytes.extend_from_slice(&0u16.to_be_bytes()); // rangeShift
    bytes.extend_from_slice(b"fvar");
    bytes.extend_from_slice(&0u32.to_be_bytes()); // checksum
    bytes.extend_from_slice(&28u32.to_be_bytes()); // offset
    bytes.extend_from_slice(&36u32.to_be_bytes()); // length
    bytes.extend_from_slice(&1u16.to_be_bytes()); // majorVersion
    bytes.extend_from_slice(&0u16.to_be_bytes()); // minorVersion
    bytes.extend_from_slice(&16u16.to_be_bytes()); // axesArrayOffset
    bytes.extend_from_slice(&2u16.to_be_bytes()); // reserved
    bytes.extend_from_slice(&1u16.to_be_bytes()); // axisCount
    bytes.extend_from_slice(&20u16.to_be_bytes()); // axisSize
    bytes.extend_from_slice(&0u16.to_be_bytes()); // instanceCount
    bytes.extend_from_slice(&8u16.to_be_bytes()); // instanceSize
    bytes.extend_from_slice(b"wght");
    bytes.extend_from_slice(&(100i32 << 16).to_be_bytes()); // minValue
    bytes.extend_from_slice(&(400i32 << 16).to_be_bytes()); // defaultValue
    bytes.extend_from_slice(&(900i32 << 16).to_be_bytes()); // maxValue
    bytes.extend_from_slice(&0u16.to_be_bytes()); // flags
    bytes.extend_from_slice(&256u16.to_be_bytes()); // axisNameID

    let mut mock = MockStore::default();
    let mut validator = MockValidator { accept: true };
    let mut reader = MockReader { bytes };
    let mut manager = FontListManager::new();
    let source = FontSource::new("/fonts/Variable.ttf".to_string());

    let record = manager
        .add_font(&mut validator, &mut reader, &mut mock, &source)
        .expect("add should succeed");

    assert_eq!(record.variation_axes.len(), 1);
    let axis = &record.variation_axes[0];
    assert_eq!(axis.tag, "wght");
    assert_eq!(axis.name, "Weight");
    assert_eq!(axis.min_value, 100 << 16);
    assert_eq!(axis.default_value, 400 << 16);
    assert_eq!(axis.max_value, 900 << 16);
}

#[test]
fn add_font_reads_install_state_from_store() {
    let mut mock = MockStore::default();
    mock.installed.push("/fonts/Known.ttf".to_string());
    let mut validator = MockValidator { accept: true };
    let mut reader = MockReader {
        bytes: minimal_font_bytes(),
    };
    let mut manager = FontListManager::new();
    let source = FontSource::new("/fonts/Known.ttf".to_string());

    let record = manager
        .add_font(&mut validator, &mut reader, &mut mock, &source)
        .expect("add should succeed");

    assert!(record.is_installed);
}

#[test]
fn add_font_treats_store_query_failure_as_not_installed() {
    let mut mock = MockStore::default();
    mock.fail_queries = true;
    let mut validator = MockValidator { accept: true };
    let mut reader = MockReader {
        bytes: minimal_font_bytes(),
    };
    let mut manager = FontListManager::new();
    let source = FontSource::new("/fonts/Unsure.ttf".to_string());

    let record = manager
        .add_font(&mut validator, &mut reader, &mut mock, &source)
        .expect("add should succeed despite the failing query");

    assert!(!record.is_installed);
}

#[test]
fn remove_of_unknown_path_is_a_no_op() {
    let mut manager = FontListManager::new();
    manager.push_font_for_tests(sample_font_info("keep.ttf"));

    manager
        .remove_font(&FontSource::new("missing.ttf".to_string()))
        .expect("remove always succeeds");

    assert_eq!(manager.get_fonts().expect("snapshot").len(), 1);
}

#[test]
fn remove_deletes_every_record_with_the_path() {
    let mut manager = FontListManager::new();
    manager.push_font_for_tests(sample_font_info("gone.ttf"));
    manager.push_font_for_tests(sample_font_info("keep.ttf"));

    manager
        .remove_font(&FontSource::new("gone.ttf".to_string()))
        .expect("remove always succeeds");

    let fonts = manager.get_fonts().expect("snapshot");
    assert_eq!(fonts.len(), 1);
    assert_eq!(fonts[0].source.path, "keep.ttf");
}

#[test]
fn is_font_installed_wraps_store_errors() {
    let mut mock = MockStore::default();
    mock.fail_queries = true;
    let manager = FontListManager::new();

    let err = manager
        .is_font_installed(&mut mock, &FontSource::new("any.ttf".to_string()))
        .expect_err("query should fail");

    assert_eq!(
        err,
        TestypfError::FontManagementFailed(
            "Failed to check font installation status: query refused".to_string()
        )
    );
}

#[test]
fn variation_axis_stores_tag_and_range() {
    let axis = TestypfVariationAxis {
        tag: "wght".to_string(),
        name: "Weight".to_string(),
        min_value: 100,
        default_value: 400,
        max_value: 900,
    };
    assert_eq!(axis.tag, "wght");
    assert_eq!(axis.min_value, 100);
    assert_eq!(axis.default_value, 400);
    assert_eq!(axis.max_value, 900);
}

#[test]
fn set_install_state_updates_flag() {
    let mut fonts = vec![TestypfFontInfo {
        source: FontSource::new("demo.ttf".to_string()),
        postscript_name: "DemoPS".into(),
        full_name: "Demo Font".into(),
        family_name: "Demo".into(),
        style: "Regular".into(),
        is_installed: false,
        variation_axes: Vec::new(),
    }];

    let updated = set_install_state(&mut fonts, 0, true);

    assert!(updated, "should report an update occurred");
    assert!(fonts[0].is_installed, "flag should flip to installed");
}

#[test]
fn set_install_state_out_of_bounds_is_noop() {
    let mut fonts = Vec::<TestypfFontInfo>::new();

    let updated = set_install_state(&mut fonts, 3, true);

    assert!(
        !updated,
        "out-of-bounds updates should be ignored without panicking"
    );
}

#[test]
fn font_metadata_lines_include_path_and_install_state() {
    let font = TestypfFontInfo {
        source: FontSource::new("/tmp/metadata/demo.ttf".to_string()),
        postscript_name: "DemoPS".into(),
        full_name: "Demo Font".into(),
        family_name: "Demo".into(),
        style: "Bold".into(),
        is_installed: false,
        variation_axes: Vec::new(),
    };

    let lines = font_metadata_lines(&font, Some(2048));

    let combined = lines.join("\n");
    assert!(combined.contains("Demo Font"), "full name should appear");
    assert!(combined.contains("Bold"), "style should appear");
    assert!(
        combined.contains("Not installed"),
        "install status should be shown"
    );
    assert!(
        combined.contains("2.0 KB"),
        "formatted file size should be included"
    );
    assert!(
        combined.contains("/tmp/metadata/demo.ttf"),
        "path should be present"
    );
}

#[test]
fn error_descriptions_carry_their_kind() {
    let err = TestypfError::InvalidFont("Font already added".to_string());
    assert_eq!(err.describe(), "Invalid font file: Font already added");
    let err = TestypfError::FontManagementFailed("Font is not installed".to_string());
    assert_eq!(
        err.describe(),
        "Font management failed: Font is not installed"
    );
}
