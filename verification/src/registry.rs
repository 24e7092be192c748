//! The font lifecycle registry: an in-memory list of loaded fonts with
//! their installed state, driven through injected collaborators for
//! validation, file reading, and the platform font store.
//!
//! Variation-axis coordinates are integer values throughout the library;
//! at the parsing boundary they are the raw 16.16 fixed-point bit
//! patterns of the font file, whose ordering matches the ordering of the
//! axis values they encode.

use vstd::prelude::*;

use crate::TestypfError;
use crate::TestypfResult;
use crate::files::path_file_stem;
use crate::files::file_stem_part;
use crate::text::concat_str;
use crate::text::has_prefix;
use crate::text::str_eq;

verus! {

/// Whether a font installation targets the current user or the system.
#[derive(Debug, Clone, Copy, PartialEq, Eq, Structural)]
pub enum FontScope {
    User,
    System,
}

/// Where a font lives and how it is to be handled: a path, an optional
/// declared format, an optional collection index, and an optional
/// installation scope.
#[derive(Debug)]
pub struct FontSource {
    /// Filesystem path of the font file.
    pub path: String,
    /// Declared format name, when known.
    pub format: Option<String>,
    /// Face index within a collection file, when applicable.
    pub ttc_index: Option<u32>,
    /// Installation scope this source is tagged with, if any.
    pub scope: Option<FontScope>,
}

impl FontSource {
    /// A source for a path, with no format, index, or scope.
    pub fn new(path: String) -> (r: FontSource)
        ensures
            r.path == path,
            r.format is None,
            r.ttc_index is None,
            r.scope is None,
    {
        FontSource { path, format: None, ttc_index: None, scope: None }
    }

    /// The same source tagged with the given scope.
    pub fn with_scope(self, scope: Option<FontScope>) -> (r: FontSource)
        ensures
            r.path == self.path,
            r.format == self.format,
            r.ttc_index == self.ttc_index,
            r.scope == scope,
    {
        FontSource { scope, ..self }
    }
}

impl Clone for FontSource {
    fn clone(&self) -> (r: Self)
        ensures
            r == *self,
    {
        FontSource {
            path: self.path.clone(),
            format: match &self.format {
                Some(f) => Some(f.clone()),
                None => None,
            },
            ttc_index: self.ttc_index,
            scope: self.scope,
        }
    }
}

/// The mathematical content of a font source.
#[verifier::ext_equal]
pub struct SourceView {
    pub path: Seq<char>,
    pub format: Option<Seq<char>>,
    pub ttc_index: Option<u32>,
    pub scope: Option<FontScope>,
}

impl View for FontSource {
    type V = SourceView;

    open spec fn view(&self) -> SourceView {
        SourceView {
            path: self.path@,
            format: match self.format {
                Some(f) => Some(f@),
                None => None,
            },
            ttc_index: self.ttc_index,
            scope: self.scope,
        }
    }
}

/// One variable-font axis: tag, display name, and its value range.
#[derive(Debug)]
pub struct TestypfVariationAxis {
    /// Four-character axis tag (for example `wght`).
    pub tag: String,
    /// Human-readable axis name.
    pub name: String,
    /// Minimum coordinate value.
    pub min_value: i32,
    /// Default coordinate value.
    pub default_value: i32,
    /// Maximum coordinate value.
    pub max_value: i32,
}

/// The mathematical content of a variation axis.
#[verifier::ext_equal]
pub struct AxisView {
    pub tag: Seq<char>,
    pub name: Seq<char>,
    pub min_value: int,
    pub default_value: int,
    pub max_value: int,
}

impl AxisView {
    /// The range invariant: the default lies between the bounds.
    pub open spec fn wf(&self) -> bool {
        self.min_value <= self.default_value && self.default_value <= self.max_value
    }
}

impl View for TestypfVariationAxis {
    type V = AxisView;

    open spec fn view(&self) -> AxisView {
        AxisView {
            tag: self.tag@,
            name: self.name@,
            min_value: self.min_value as int,
            default_value: self.default_value as int,
            max_value: self.max_value as int,
        }
    }
}

impl Clone for TestypfVariationAxis {
    fn clone(&self) -> (r: Self)
        ensures
            r == *self,
    {
        TestypfVariationAxis {
            tag: self.tag.clone(),
            name: self.name.clone(),
            min_value: self.min_value,
            default_value: self.default_value,
            max_value: self.max_value,
        }
    }
}

/// Font face information kept by the registry and shown to the user.
#[derive(Debug)]
pub struct TestypfFontInfo {
    /// Source information for the font.
    pub source: FontSource,
    /// PostScript name.
    pub postscript_name: String,
    /// Full display name.
    pub full_name: String,
    /// Font family name.
    pub family_name: String,
    /// Font style.
    pub style: String,
    /// Whether the font is installed, as last known.
    pub is_installed: bool,
    /// Variable-font axes; empty for a static font.
    pub variation_axes: Vec<TestypfVariationAxis>,
}

/// The mathematical content of a font record.
#[verifier::ext_equal]
pub struct FontInfoView {
    pub source: SourceView,
    pub postscript_name: Seq<char>,
    pub full_name: Seq<char>,
    pub family_name: Seq<char>,
    pub style: Seq<char>,
    pub is_installed: bool,
    pub variation_axes: Seq<AxisView>,
}

impl View for TestypfFontInfo {
    type V = FontInfoView;

    open spec fn view(&self) -> FontInfoView {
        FontInfoView {
            source: self.source@,
            postscript_name: self.postscript_name@,
            full_name: self.full_name@,
            family_name: self.family_name@,
            style: self.style@,
            is_installed: self.is_installed,
            variation_axes: self.variation_axes@.map_values(|a: TestypfVariationAxis| a@),
        }
    }
}

impl TestypfFontInfo {
    /// The font's path.
    pub fn path(&self) -> (r: &String)
        ensures
            r == &self.source.path,
    {
        &self.source.path
    }

    /// The font's source tagged with the given installation scope.
    pub fn with_scope(&self, scope: FontScope) -> (r: FontSource)
        ensures
            r.path == self.source.path,
            r.format == self.source.format,
            r.ttc_index == self.source.ttc_index,
            r.scope == Some(scope),
    {
        self.source.clone().with_scope(Some(scope))
    }

    /// Every axis of the record satisfies the range invariant.
    pub open spec fn axes_wf(&self) -> bool {
        forall|i: int|
            0 <= i < self.variation_axes@.len() ==> (#[trigger] self.variation_axes@[i])@.wf()
    }
}

impl Clone for TestypfFontInfo {
    fn clone(&self) -> (r: Self)
        ensures
            r@ == self@,
            r.source == self.source,
            r.is_installed == self.is_installed,
    {
        let axes = self.variation_axes.clone();
        proof {
            assert(forall|i: int|
                0 <= i < axes@.len() ==> axes@[i] == self.variation_axes@[i]) by {
                assert(forall|i: int|
                    #![all_triggers]
                    0 <= i < axes@.len() ==> cloned::<TestypfVariationAxis>(
                        self.variation_axes@[i],
                        axes@[i],
                    ));
            }
            assert(axes@ =~= self.variation_axes@);
        }
        let r = TestypfFontInfo {
            source: self.source.clone(),
            postscript_name: self.postscript_name.clone(),
            full_name: self.full_name.clone(),
            family_name: self.family_name.clone(),
            style: self.style.clone(),
            is_installed: self.is_installed,
            variation_axes: axes,
        };
        proof {
            assert(r@ =~= self@);
        }
        r
    }
}

/// A platform font store: installs, removes, and reports fonts at the
/// operating-system level. Implementations are injected by the
/// application; nothing is assumed of their answers.
pub trait PlatformFontStore {
    /// Install the font named by the source, honoring its scope tag.
    fn install_font(&mut self, source: &FontSource) -> Result<(), String>;

    /// Uninstall the font named by the source, honoring its scope tag.
    fn uninstall_font(&mut self, source: &FontSource) -> Result<(), String>;

    /// Whether the font at the source's path is currently installed.
    fn is_font_installed(&mut self, source: &FontSource) -> Result<bool, String>;
}

/// A font file validator: confirms that a path names a well-formed font
/// file, or reports a reason it does not.
pub trait FontValidator {
    /// Check the file at `path`; `Err` carries the reason for rejection.
    fn validate_font_file(&mut self, path: &str) -> Result<(), String>;
}

/// A reader handing the registry the bytes of a font file.
pub trait FontFileReader {
    /// Read the whole file at `path`; `Err` carries the reason.
    fn read_file(&mut self, path: &str) -> Result<Vec<u8>, String>;
}

/// The variation axes stored in a font file's axis table, as tuples of
/// the tag (big-endian bytes as one integer) and the raw bit patterns of
/// the minimum, default, and maximum values; `None` when the bytes do
/// not parse as a font at all, and empty for a static font.
pub uninterp spec fn fvar_axes_in(data: Seq<u8>) -> Option<Seq<(u32, i32, i32, i32)>>;

/// Relies on `read_fonts::FontRef::from_index` to parse the font bytes,
/// and on `Fvar::axes` reached through `TableProvider::fvar` to list the
/// variation axes; both read the given bytes alone. A font without a
/// readable axis table is reported as having no axes, as the absence of
/// the table means a static font.
#[verifier::external_body]
fn parse_font_axes(data: &Vec<u8>) -> (r: Option<Vec<(u32, i32, i32, i32)>>)
    ensures
        match r {
            Some(v) => fvar_axes_in(data@) == Some(v@),
            None => fvar_axes_in(data@) is None,
        },
{
    let font = match read_fonts::FontRef::from_index(data.as_slice(), 0) {
        Ok(f) => f,
        Err(_) => return None,
    };
    let fvar = read_fonts::TableProvider::fvar(&font);
    let records = fvar.and_then(|f| f.axes().map(|a| a.to_vec())).unwrap_or_default();
    Some(records.iter().map(|a| (
        u32::from_be_bytes(a.axis_tag().to_be_bytes()),
        a.min_value().to_bits(),
        a.default_value().to_bits(),
        a.max_value().to_bits(),
    )).collect())
}

/// The character standing for one byte of an axis tag: ASCII bytes keep
/// their character, anything else becomes the replacement character.
pub open spec fn tag_char(b: u8) -> char {
    if b < 128 {
        b as char
    } else {
        '\u{fffd}'
    }
}

/// The four characters of an axis tag, most significant byte first.
pub open spec fn tag_string(tag: u32) -> Seq<char> {
    seq![
        tag_char((tag / 0x1000000) as u8),
        tag_char((tag / 0x10000 % 0x100) as u8),
        tag_char((tag / 0x100 % 0x100) as u8),
        tag_char((tag % 0x100) as u8),
    ]
}

/// The character for one tag byte.
fn tag_byte_char(b: u8) -> (r: char)
    ensures
        r == tag_char(b),
{
    if b < 128 {
        b as char
    } else {
        '\u{fffd}'
    }
}

/// Format an axis tag as its four characters.
pub fn tag_to_string(tag: u32) -> (r: String)
    ensures
        r@ == tag_string(tag),
{
    let mut out = String::new();
    crate::text::push_char(&mut out, tag_byte_char((tag / 0x1000000) as u8));
    crate::text::push_char(&mut out, tag_byte_char((tag / 0x10000 % 0x100) as u8));
    crate::text::push_char(&mut out, tag_byte_char((tag / 0x100 % 0x100) as u8));
    crate::text::push_char(&mut out, tag_byte_char((tag % 0x100) as u8));
    proof {
        assert(out@ =~= tag_string(tag));
    }
    out
}

/// The display name for an axis tag: the common registered axes get
/// their English names, any other tag names itself.
pub open spec fn axis_name_for(tag: Seq<char>) -> Seq<char> {
    if tag == "wght"@ {
        "Weight"@
    } else if tag == "wdth"@ {
        "Width"@
    } else if tag == "ital"@ {
        "Italic"@
    } else if tag == "slnt"@ {
        "Slant"@
    } else if tag == "opsz"@ {
        "Optical Size"@
    } else {
        tag
    }
}

/// The display name for an axis tag.
fn axis_display_name(tag: &str) -> (r: String)
    ensures
        r@ == axis_name_for(tag@),
{
    if str_eq(tag, "wght") {
        String::from_str("Weight")
    } else if str_eq(tag, "wdth") {
        String::from_str("Width")
    } else if str_eq(tag, "ital") {
        String::from_str("Italic")
    } else if str_eq(tag, "slnt") {
        String::from_str("Slant")
    } else if str_eq(tag, "opsz") {
        String::from_str("Optical Size")
    } else {
        String::from_str(tag)
    }
}

/// Whether a raw axis record satisfies the range invariant.
pub open spec fn raw_axis_wf(r: (u32, i32, i32, i32)) -> bool {
    r.1 <= r.2 && r.2 <= r.3
}

/// The axis view built from one raw axis record.
pub open spec fn axis_view_of_raw(r: (u32, i32, i32, i32)) -> AxisView {
    AxisView {
        tag: tag_string(r.0),
        name: axis_name_for(tag_string(r.0)),
        min_value: r.1 as int,
        default_value: r.2 as int,
        max_value: r.3 as int,
    }
}

/// The axis views for a sequence of raw records, keeping only those
/// that satisfy the range invariant.
pub open spec fn axes_of_raw(s: Seq<(u32, i32, i32, i32)>) -> Seq<AxisView>
    decreases s.len(),
{
    if s.len() == 0 {
        Seq::empty()
    } else if raw_axis_wf(s.last()) {
        axes_of_raw(s.drop_last()).push(axis_view_of_raw(s.last()))
    } else {
        axes_of_raw(s.drop_last())
    }
}

/// Build the axis list from raw records, dropping any record whose
/// default lies outside its bounds.
fn build_axes(raw: &Vec<(u32, i32, i32, i32)>) -> (r: Vec<TestypfVariationAxis>)
    ensures
        r@.map_values(|a: TestypfVariationAxis| a@) == axes_of_raw(raw@),
        forall|i: int| 0 <= i < r@.len() ==> (#[trigger] r@[i])@.wf(),
{
    let mut out: Vec<TestypfVariationAxis> = Vec::new();
    let n = raw.len();
    let mut i: usize = 0;
    while i < n
        invariant
            i <= n,
            n == raw@.len(),
            out@.map_values(|a: TestypfVariationAxis| a@) == axes_of_raw(raw@.take(i as int)),
            forall|k: int| 0 <= k < out@.len() ==> (#[trigger] out@[k])@.wf(),
        decreases n - i,
    {
        let (tag, min_value, default_value, max_value) = raw[i];
        proof {
            assert(raw@.take(i + 1).drop_last() =~= raw@.take(i as int));
            assert(raw@.take(i + 1).last() == raw@[i as int]);
        }
        if min_value <= default_value && default_value <= max_value {
            let tag_text = tag_to_string(tag);
            let name = axis_display_name(tag_text.as_str());
            let axis = TestypfVariationAxis { tag: tag_text, name, min_value, default_value, max_value };
            out.push(axis);
            proof {
                assert(out@.drop_last() =~= out@.take(out@.len() - 1));
                assert(out@.map_values(|a: TestypfVariationAxis| a@) =~= axes_of_raw(
                    raw@.take(i + 1),
                ));
            }
        } else {
            proof {
                assert(!raw_axis_wf(raw@[i as int]));
            }
        }
        i = i + 1;
    }
    proof {
        assert(raw@.take(n as int) =~= raw@);
    }
    out
}

/// The file stem of a path, or `Unknown` when it has none.
pub open spec fn stem_or_unknown(p: Seq<char>) -> Seq<char> {
    if path_file_stem(p).len() == 0 {
        "Unknown"@
    } else {
        path_file_stem(p)
    }
}

/// The file stem of a path, or `Unknown` when it has none.
fn file_stem_or_unknown(p: &str) -> (r: String)
    ensures
        r@ == stem_or_unknown(p@),
{
    let stem = file_stem_part(p);
    if stem.unicode_len() == 0 {
        String::from_str("Unknown")
    } else {
        String::from_str(stem)
    }
}

/// The views of a sequence of font records.
pub open spec fn infos_view(s: Seq<TestypfFontInfo>) -> Seq<FontInfoView> {
    s.map_values(|f: TestypfFontInfo| f@)
}

/// Whether some record carries the given path.
pub open spec fn contains_path(s: Seq<FontInfoView>, p: Seq<char>) -> bool {
    exists|i: int| 0 <= i < s.len() && (#[trigger] s[i]).source.path == p
}

/// The record with its installed flag set to `b`.
pub open spec fn with_flag(v: FontInfoView, b: bool) -> FontInfoView {
    FontInfoView { is_installed: b, ..v }
}

/// The two records agree on everything but possibly the installed flag.
pub open spec fn eq_except_flag(x: FontInfoView, y: FontInfoView) -> bool {
    with_flag(x, false) == with_flag(y, false)
}

/// The two lists hold the same fonts, with flags possibly differing.
pub open spec fn same_fonts_modulo_flags(a: Seq<FontInfoView>, b: Seq<FontInfoView>) -> bool {
    a.len() == b.len() && forall|i: int| 0 <= i < a.len() ==> eq_except_flag(a[i], #[trigger] b[i])
}

/// The records with every one carrying path `p` removed.
pub open spec fn remove_path(s: Seq<FontInfoView>, p: Seq<char>) -> Seq<FontInfoView>
    decreases s.len(),
{
    if s.len() == 0 {
        Seq::empty()
    } else if s.last().source.path == p {
        remove_path(s.drop_last(), p)
    } else {
        remove_path(s.drop_last(), p).push(s.last())
    }
}

/// Removing a path nobody carries changes nothing.
pub proof fn lemma_remove_path_absent(s: Seq<FontInfoView>, p: Seq<char>)
    requires
        !contains_path(s, p),
    ensures
        remove_path(s, p) == s,
    decreases s.len(),
{
    if s.len() > 0 {
        assert(s[s.len() - 1].source.path != p);
        assert(forall|i: int|
            0 <= i < s.drop_last().len() ==> (#[trigger] s.drop_last()[i]).source.path != p) by {
            assert(forall|i: int|
                0 <= i < s.len() ==> (#[trigger] s[i]).source.path != p);
        }
        lemma_remove_path_absent(s.drop_last(), p);
        assert(remove_path(s, p) =~= s);
    }
}

/// Index of the first record carrying the given path.
fn find_by_path(fonts: &Vec<TestypfFontInfo>, path: &str) -> (r: Option<usize>)
    ensures
        match r {
            Some(i) => i < fonts@.len() && fonts@[i as int]@.source.path == path@,
            None => !contains_path(infos_view(fonts@), path@),
        },
{
    let n = fonts.len();
    let mut i: usize = 0;
    while i < n
        invariant
            i <= n,
            n == fonts@.len(),
            forall|j: int| 0 <= j < i ==> (#[trigger] fonts@[j])@.source.path != path@,
        decreases n - i,
    {
        if str_eq(fonts[i].source.path.as_str(), path) {
            return Some(i);
        }
        i = i + 1;
    }
    proof {
        if contains_path(infos_view(fonts@), path@) {
            let k = choose|k: int|
                0 <= k < infos_view(fonts@).len() && (#[trigger] infos_view(fonts@)[k]).source.path
                    == path@;
            assert(infos_view(fonts@)[k] == fonts@[k]@);
            assert(false);
        }
    }
    None
}

/// Map a store query into the registry's result type: a store error
/// becomes `FontManagementFailed` with the reason appended.
pub fn map_install_query(q: Result<bool, String>) -> (r: TestypfResult<bool>)
    ensures
        match q {
            Ok(b) => r == Ok::<bool, TestypfError>(b),
            Err(e) => (match r {
                Err(TestypfError::FontManagementFailed(m)) => m@
                    == "Failed to check font installation status: "@ + e@,
                _ => false,
            }),
        },
{
    match q {
        Ok(b) => Ok(b),
        Err(e) => Err(
            TestypfError::FontManagementFailed(
                concat_str("Failed to check font installation status: ", e.as_str()),
            ),
        ),
    }
}

/// The installed flag taken from a store query at load time: a query
/// failure is non-fatal and reads as not installed.
pub fn installed_flag_from_query(q: &Result<bool, String>) -> (r: bool)
    ensures
        r == (q matches Ok(true)),
{
    match q {
        Ok(b) => *b,
        Err(_) => false,
    }
}

/// Gate an uninstall on what the store reports: not installed fails
/// fast, and a failing query fails with its reason.
pub fn precheck_uninstall(q: &Result<bool, String>) -> (r: TestypfResult<()>)
    ensures
        match q {
            Ok(true) => r is Ok,
            Ok(false) => (match r {
                Err(TestypfError::FontManagementFailed(m)) => m@ == "Font is not installed"@,
                _ => false,
            }),
            Err(e) => (match r {
                Err(TestypfError::FontManagementFailed(m)) => m@
                    == "Failed to check font installation status: "@ + e@,
                _ => false,
            }),
        },
{
    match q {
        Ok(true) => Ok(()),
        Ok(false) => Err(
            TestypfError::FontManagementFailed(String::from_str("Font is not installed")),
        ),
        Err(e) => Err(
            TestypfError::FontManagementFailed(
                concat_str("Failed to check font installation status: ", e.as_str()),
            ),
        ),
    }
}

/// The font list manager: the registry of loaded fonts and the current
/// installation scope.
#[derive(Debug)]
pub struct FontListManager {
    /// The loaded fonts, in the order they were added.
    pub fonts: Vec<TestypfFontInfo>,
    /// The scope that install and uninstall delegations are tagged with.
    pub install_scope: FontScope,
}

impl FontListManager {
    /// The registry's records, as their mathematical views.
    pub open spec fn records(&self) -> Seq<FontInfoView> {
        infos_view(self.fonts@)
    }

    /// The current installation scope.
    pub open spec fn scope_spec(&self) -> FontScope {
        self.install_scope
    }

    /// An empty registry targeting the user scope.
    pub fn new() -> (r: FontListManager)
        ensures
            r.records() == Seq::<FontInfoView>::empty(),
            r.scope_spec() == FontScope::User,
    {
        let r = FontListManager { fonts: Vec::new(), install_scope: FontScope::User };
        proof {
            assert(r.records() =~= Seq::<FontInfoView>::empty());
        }
        r
    }

    /// Set the target installation scope.
    pub fn set_install_scope(&mut self, scope: FontScope)
        ensures
            final(self).records() == old(self).records(),
            final(self).scope_spec() == scope,
    {
        self.install_scope = scope;
    }

    /// The current installation scope.
    pub fn install_scope(&self) -> (r: FontScope)
        ensures
            r == self.scope_spec(),
    {
        self.install_scope
    }

    /// Append a record directly, bypassing extraction; for tests.
    pub fn push_font_for_tests(&mut self, font: TestypfFontInfo)
        ensures
            final(self).records() == old(self).records().push(font@),
            final(self).scope_spec() == old(self).scope_spec(),
    {
        self.fonts.push(font);
        proof {
            assert(final(self).records() =~= old(self).records().push(
                final(self).fonts@.last()@,
            ));
        }
    }

    /// Load a font whose file was already validated and read: parse the
    /// bytes, extract the stem-based names and variation axes, refuse a
    /// duplicate path, query the store for the current install status
    /// (non-fatally), and append the new record. Readable bytes that
    /// parse as a font are owed success when the path is new.
    pub fn add_font_prepared<S: PlatformFontStore>(
        &mut self,
        store: &mut S,
        source: &FontSource,
        data: &Vec<u8>,
    ) -> (r: TestypfResult<TestypfFontInfo>)
        ensures
            final(self).scope_spec() == old(self).scope_spec(),
            r is Err ==> final(self).records() == old(self).records(),
            r matches Err(e) ==> e is InvalidFont,
            fvar_axes_in(data@) is None ==> (match r {
                Err(TestypfError::InvalidFont(m)) => m@ == "Failed to parse font"@,
                _ => false,
            }),
            fvar_axes_in(data@) is Some && contains_path(old(self).records(), source.path@)
                ==> (match r {
                Err(TestypfError::InvalidFont(m)) => m@ == "Font already added"@,
                _ => false,
            }),
            fvar_axes_in(data@) is Some && !contains_path(old(self).records(), source.path@)
                ==> r is Ok,
            r matches Ok(info) ==> {
                &&& !contains_path(old(self).records(), source.path@)
                &&& final(self).records() == old(self).records().push(info@)
                &&& info.source@ == source@
                &&& info.postscript_name@ == stem_or_unknown(source.path@)
                &&& info.full_name@ == stem_or_unknown(source.path@)
                &&& info.family_name@ == stem_or_unknown(source.path@)
                &&& info.style@ == "Regular"@
                &&& info.axes_wf()
            },
    {
        let raw = match parse_font_axes(data) {
            Some(v) => v,
            None => {
                return Err(TestypfError::InvalidFont(String::from_str("Failed to parse font")));
            },
        };
        let axes = build_axes(&raw);
        if let Some(at) = find_by_path(&self.fonts, source.path.as_str()) {
            proof {
                assert(old(self).records()[at as int] == self.fonts@[at as int]@);
                assert(contains_path(old(self).records(), source.path@));
            }
            return Err(TestypfError::InvalidFont(String::from_str("Font already added")));
        }
        let query = store.is_font_installed(source);
        let installed = installed_flag_from_query(&query);
        let stem = file_stem_or_unknown(source.path.as_str());
        let info = TestypfFontInfo {
            source: source.clone(),
            postscript_name: stem.clone(),
            full_name: stem.clone(),
            family_name: stem.clone(),
            style: String::from_str("Regular"),
            is_installed: installed,
            variation_axes: axes,
        };
        let stored = info.clone();
        self.fonts.push(stored);
        proof {
            assert(final(self).records() =~= old(self).records().push(info@));
        }
        Ok(info)
    }

    /// Load a font into the registry: validate the file, read it, and
    /// hand the bytes to [`Self::add_font_prepared`].
    pub fn add_font<V: FontValidator, R: FontFileReader, S: PlatformFontStore>(
        &mut self,
        validator: &mut V,
        reader: &mut R,
        store: &mut S,
        source: &FontSource,
    ) -> (r: TestypfResult<TestypfFontInfo>)
        ensures
            final(self).scope_spec() == old(self).scope_spec(),
            r is Err ==> final(self).records() == old(self).records(),
            r matches Err(e) ==> e is InvalidFont,
            contains_path(old(self).records(), source.path@) ==> r is Err,
            r matches Ok(info) ==> {
                &&& !contains_path(old(self).records(), source.path@)
                &&& final(self).records() == old(self).records().push(info@)
                &&& info.source@ == source@
                &&& info.postscript_name@ == stem_or_unknown(source.path@)
                &&& info.full_name@ == stem_or_unknown(source.path@)
                &&& info.family_name@ == stem_or_unknown(source.path@)
                &&& info.style@ == "Regular"@
                &&& info.axes_wf()
            },
    {
        if let Err(e) = validator.validate_font_file(source.path.as_str()) {
            return Err(
                TestypfError::InvalidFont(concat_str("Font validation failed: ", e.as_str())),
            );
        }
        let data = match reader.read_file(source.path.as_str()) {
            Ok(d) => d,
            Err(e) => {
                return Err(
                    TestypfError::InvalidFont(concat_str("Failed to read font file: ", e.as_str())),
                );
            },
        };
        self.add_font_prepared(store, source, &data)
    }

    /// Delete every record matching the path; always succeeds, also
    /// when nothing matched.
    pub fn remove_font(&mut self, source: &FontSource) -> (r: TestypfResult<()>)
        ensures
            r is Ok,
            final(self).scope_spec() == old(self).scope_spec(),
            final(self).records() == remove_path(old(self).records(), source.path@),
            !contains_path(old(self).records(), source.path@) ==> final(self).records()
                == old(self).records(),
    {
        let mut kept: Vec<TestypfFontInfo> = Vec::new();
        let n = self.fonts.len();
        let mut i: usize = 0;
        while i < n
            invariant
                i <= n,
                n == self.fonts@.len(),
                infos_view(kept@) == remove_path(infos_view(self.fonts@.take(i as int)), source.path@),
            decreases n - i,
        {
            let ghost prefix = infos_view(self.fonts@.take(i as int));
            proof {
                assert(infos_view(self.fonts@.take(i + 1)).drop_last() =~= prefix);
                assert(infos_view(self.fonts@.take(i + 1)).last() == self.fonts@[i as int]@);
            }
            if !str_eq(self.fonts[i].source.path.as_str(), source.path.as_str()) {
                let copy = self.fonts[i].clone();
                kept.push(copy);
                proof {
                    assert(infos_view(kept@).drop_last() =~= remove_path(prefix, source.path@));
                    assert(infos_view(kept@) =~= remove_path(
                        infos_view(self.fonts@.take(i + 1)),
                        source.path@,
                    ));
                }
            }
            i = i + 1;
        }
        proof {
            assert(self.fonts@.take(n as int) =~= self.fonts@);
        }
        self.fonts = kept;
        proof {
            if !contains_path(old(self).records(), source.path@) {
                lemma_remove_path_absent(old(self).records(), source.path@);
            }
        }
        Ok(())
    }

    /// A snapshot copy of the records; never aliases internal storage.
    pub fn get_fonts(&self) -> (r: TestypfResult<Vec<TestypfFontInfo>>)
        ensures
            match r {
                Ok(v) => infos_view(v@) == self.records(),
                Err(_) => false,
            },
    {
        let copy = self.fonts.clone();
        proof {
            assert(forall|i: int|
                0 <= i < copy@.len() ==> copy@[i]@ == self.fonts@[i]@) by {
                assert(forall|i: int|
                    #![all_triggers]
                    0 <= i < copy@.len() ==> cloned::<TestypfFontInfo>(self.fonts@[i], copy@[i]));
            }
            assert(infos_view(copy@) =~= self.records());
        }
        Ok(copy)
    }

    /// Whether the font at the source's path is installed, as the store
    /// reports it; a store error is wrapped as `FontManagementFailed`.
    pub fn is_font_installed<S: PlatformFontStore>(
        &self,
        store: &mut S,
        source: &FontSource,
    ) -> (r: TestypfResult<bool>)
        ensures
            r matches Err(e) ==> e is FontManagementFailed,
    {
        let q = store.is_font_installed(source);
        map_install_query(q)
    }

    /// Settle the installed flag after an install delegation from what
    /// the verifying query answered: confirmation keeps the optimistic
    /// flag, a definite `false` rolls it back and fails, and a failing
    /// query keeps the optimistic flag with only a warning.
    pub fn finish_install(&mut self, index: usize, verify: Result<bool, String>) -> (r:
        TestypfResult<()>)
        requires
            index < old(self).records().len(),
        ensures
            final(self).scope_spec() == old(self).scope_spec(),
            match verify {
                Ok(true) => r is Ok && final(self).records() == old(self).records().update(
                    index as int,
                    with_flag(old(self).records()[index as int], true),
                ),
                Ok(false) => (match r {
                    Err(TestypfError::FontManagementFailed(m)) => m@
                        == "Font installation verification failed"@ && final(self).records() == old(
                        self,
                    ).records().update(
                        index as int,
                        with_flag(old(self).records()[index as int], false),
                    ),
                    _ => false,
                }),
                Err(_) => r is Ok && final(self).records() == old(self).records().update(
                    index as int,
                    with_flag(old(self).records()[index as int], true),
                ),
            },
    {
        let flag: bool = match &verify {
            Ok(true) => true,
            Ok(false) => false,
            Err(_) => true,
        };
        let mut updated = self.fonts[index].clone();
        updated.is_installed = flag;
        self.fonts.set(index, updated);
        proof {
            assert(final(self).records() =~= old(self).records().update(
                index as int,
                with_flag(old(self).records()[index as int], flag),
            ));
        }
        match verify {
            Ok(false) => Err(
                TestypfError::FontManagementFailed(
                    String::from_str("Font installation verification failed"),
                ),
            ),
            _ => Ok(()),
        }
    }

    /// Settle the installed flag after an uninstall delegation: a
    /// definite `false` confirms removal, a definite `true` rolls the
    /// flag back and fails, and a failing query keeps the optimistic
    /// cleared flag with only a warning.
    pub fn finish_uninstall(&mut self, index: usize, verify: Result<bool, String>) -> (r:
        TestypfResult<()>)
        requires
            index < old(self).records().len(),
        ensures
            final(self).scope_spec() == old(self).scope_spec(),
            match verify {
                Ok(false) => r is Ok && final(self).records() == old(self).records().update(
                    index as int,
                    with_flag(old(self).records()[index as int], false),
                ),
                Ok(true) => (match r {
                    Err(TestypfError::FontManagementFailed(m)) => m@
                        == "Font uninstallation verification failed"@ && final(self).records()
                        == old(self).records().update(
                        index as int,
                        with_flag(old(self).records()[index as int], true),
                    ),
                    _ => false,
                }),
                Err(_) => r is Ok && final(self).records() == old(self).records().update(
                    index as int,
                    with_flag(old(self).records()[index as int], false),
                ),
            },
    {
        let flag: bool = match &verify {
            Ok(true) => true,
            Ok(false) => false,
            Err(_) => false,
        };
        let mut updated = self.fonts[index].clone();
        updated.is_installed = flag;
        self.fonts.set(index, updated);
        proof {
            assert(final(self).records() =~= old(self).records().update(
                index as int,
                with_flag(old(self).records()[index as int], flag),
            ));
        }
        match verify {
            Ok(true) => Err(
                TestypfError::FontManagementFailed(
                    String::from_str("Font uninstallation verification failed"),
                ),
            ),
            _ => Ok(()),
        }
    }

    /// Install a font: re-validate the file as a guard against the file
    /// changing on disk since it was added, delegate to the store tagged
    /// with the current scope, optimistically mark the record installed,
    /// and verify by re-querying the store.
    pub fn install_font<V: FontValidator, S: PlatformFontStore>(
        &mut self,
        validator: &mut V,
        store: &mut S,
        font: &TestypfFontInfo,
    ) -> (r: TestypfResult<()>)
        ensures
            final(self).scope_spec() == old(self).scope_spec(),
            same_fonts_modulo_flags(final(self).records(), old(self).records()),
            r matches Err(e) ==> e is FontManagementFailed,
            !contains_path(old(self).records(), font.source.path@) ==> r is Err
                && final(self).records() == old(self).records(),
            r is Ok ==> exists|i: int|
                #![trigger final(self).records()[i]]
                0 <= i < final(self).records().len()
                    && final(self).records()[i].source.path == font.source.path@
                    && final(self).records()[i].is_installed,
            forall|i: int|
                0 <= i < old(self).records().len() && (#[trigger] old(self).records()[i]).source.path
                    != font.source.path@
                    ==> final(self).records()[i] == old(self).records()[i],
            r matches Err(e) ==> (has_prefix(e.msg(), "Font validation failed: "@)
                ==> final(self).records() == old(self).records()),
    {
        if let Err(e) = validator.validate_font_file(font.source.path.as_str()) {
            return Err(
                TestypfError::FontManagementFailed(
                    concat_str("Font validation failed: ", e.as_str()),
                ),
            );
        }
        let scope = self.install_scope;
        let tagged = font.with_scope(scope);
        if let Err(e) = store.install_font(&tagged) {
            return Err(
                TestypfError::FontManagementFailed(
                    concat_str("Font installation failed: ", e.as_str()),
                ),
            );
        }
        match find_by_path(&self.fonts, font.source.path.as_str()) {
            Some(index) => {
                let verify = store.is_font_installed(&font.source);
                let outcome = self.finish_install(index, verify);
                proof {
                    if outcome is Ok {
                        assert(final(self).records()[index as int].source.path
                            == font.source.path@);
                        assert(final(self).records()[index as int].is_installed);
                    }
                    assert(old(self).records()[index as int].source.path == font.source.path@);
                    assert forall|i: int|
                        0 <= i < old(self).records().len() && (#[trigger] old(self).records()[
                            i
                        ]).source.path != font.source.path@ implies final(self).records()[i]
                        == old(self).records()[i] by {
                        assert(i != index as int);
                    }
                    match &outcome {
                        Err(e) => {
                            reveal_strlit("Font validation failed: ");
                            reveal_strlit("Font installation verification failed");
                            assert(e.msg() == "Font installation verification failed"@);
                            assert(!has_prefix(e.msg(), "Font validation failed: "@)) by {
                                if has_prefix(e.msg(), "Font validation failed: "@) {
                                    assert(e.msg().subrange(
                                        0,
                                        ("Font validation failed: "@).len() as int,
                                    )[5] == e.msg()[5]);
                                }
                            }
                        },
                        Ok(_) => {},
                    }
                }
                outcome
            },
            None => Err(
                TestypfError::FontManagementFailed(String::from_str("Font not found in list")),
            ),
        }
    }

    /// Uninstall a font: fail fast when the store reports it not
    /// installed, delegate to the store tagged with the current scope,
    /// clear the record's flag, and verify by re-querying the store.
    pub fn uninstall_font<S: PlatformFontStore>(&mut self, store: &mut S, font: &TestypfFontInfo)
        -> (r: TestypfResult<()>)
        ensures
            final(self).scope_spec() == old(self).scope_spec(),
            same_fonts_modulo_flags(final(self).records(), old(self).records()),
            r matches Err(e) ==> e is FontManagementFailed,
            !contains_path(old(self).records(), font.source.path@) ==> r is Err
                && final(self).records() == old(self).records(),
            r is Ok ==> exists|i: int|
                #![trigger final(self).records()[i]]
                0 <= i < final(self).records().len()
                    && final(self).records()[i].source.path == font.source.path@
                    && !final(self).records()[i].is_installed,
            forall|i: int|
                0 <= i < old(self).records().len() && (#[trigger] old(self).records()[i]).source.path
                    != font.source.path@
                    ==> final(self).records()[i] == old(self).records()[i],
            r matches Err(e) ==> (e.msg() == "Font is not installed"@ ==> final(self).records()
                == old(self).records()),
    {
        let q = store.is_font_installed(&font.source);
        if let Err(e) = precheck_uninstall(&q) {
            return Err(e);
        }
        let scope = self.install_scope;
        let tagged = font.with_scope(scope);
        if let Err(e) = store.uninstall_font(&tagged) {
            return Err(
                TestypfError::FontManagementFailed(
                    concat_str("Font uninstallation failed: ", e.as_str()),
                ),
            );
        }
        match find_by_path(&self.fonts, font.source.path.as_str()) {
            Some(index) => {
                let verify = store.is_font_installed(&font.source);
                let outcome = self.finish_uninstall(index, verify);
                proof {
                    if outcome is Ok {
                        assert(final(self).records()[index as int].source.path
                            == font.source.path@);
                        assert(!final(self).records()[index as int].is_installed);
                    }
                    assert(old(self).records()[index as int].source.path == font.source.path@);
                    assert forall|i: int|
                        0 <= i < old(self).records().len() && (#[trigger] old(self).records()[
                            i
                        ]).source.path != font.source.path@ implies final(self).records()[i]
                        == old(self).records()[i] by {
                        assert(i != index as int);
                    }
                    match &outcome {
                        Err(e) => {
                            reveal_strlit("Font is not installed");
                            reveal_strlit("Font uninstallation verification failed");
                            assert(e.msg() == "Font uninstallation verification failed"@);
                            assert(e.msg() != "Font is not installed"@);
                        },
                        Ok(_) => {},
                    }
                }
                outcome
            },
            None => Err(
                TestypfError::FontManagementFailed(String::from_str("Font not found in list")),
            ),
        }
    }
}

/// Update the cached install flag for the font at `index`; out-of-range
/// indices are ignored.
pub fn set_install_state(fonts: &mut Vec<TestypfFontInfo>, index: usize, is_installed: bool) -> (r:
    bool)
    ensures
        index < old(fonts)@.len() ==> r && infos_view(final(fonts)@) == infos_view(
            old(fonts)@,
        ).update(index as int, with_flag(old(fonts)@[index as int]@, is_installed)),
        index >= old(fonts)@.len() ==> !r && final(fonts)@ == old(fonts)@,
{
    if index < fonts.len() {
        let mut updated = fonts[index].clone();
        updated.is_installed = is_installed;
        fonts.set(index, updated);
        proof {
            assert(infos_view(final(fonts)@) =~= infos_view(old(fonts)@).update(
                index as int,
                with_flag(old(fonts)@[index as int]@, is_installed),
            ));
        }
        true
    } else {
        false
    }
}

} // verus!
