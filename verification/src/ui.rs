//! Presentation-level decisions: installation scope choices, preview
//! layout, render availability, persisted configuration, and the
//! wording of user-facing error messages.

use vstd::prelude::*;

use crate::files::file_size_text;
use crate::files::format_file_size;
use crate::files::is_ascii_space;
use crate::files::space_pred;
use crate::registry::infos_view;
use crate::registry::FontScope;
use crate::registry::FontInfoView;
use crate::registry::TestypfFontInfo;
use crate::render::RendererBackend;
use crate::text::concat_str;
use crate::text::contains_seq;
use crate::text::contains_sub;
use crate::text::lemma_trim_front_at;
use crate::text::lower_of;
use crate::text::to_lowercase_full;
use crate::text::trim_back_if;
use crate::text::trim_front_if;

verus! {

/// Font installation scope as presented to the user.
#[derive(Debug, Clone, Copy, PartialEq, Eq, Structural)]
pub enum InstallScope {
    User,
    System,
}

impl InstallScope {
    /// The registry scope this choice stands for.
    pub fn to_font_scope(self) -> (r: FontScope)
        ensures
            self is User ==> r == FontScope::User,
            self is System ==> r == FontScope::System,
    {
        match self {
            InstallScope::User => FontScope::User,
            InstallScope::System => FontScope::System,
        }
    }

    /// The choice's description.
    pub fn description(self) -> (r: &'static str)
        ensures
            self is User ==> r@ == "User (~/Library/Fonts)"@,
            self is System ==> r@ == "System (/Library/Fonts, requires admin)"@,
    {
        match self {
            InstallScope::User => "User (~/Library/Fonts)",
            InstallScope::System => "System (/Library/Fonts, requires admin)",
        }
    }
}

/// Layout mode for preview display.
#[derive(Debug, Clone, Copy, PartialEq, Eq, Structural)]
pub enum LayoutMode {
    Single,
    SideBySide,
}

impl LayoutMode {
    /// The selectable layout modes.
    pub fn options() -> (r: Vec<LayoutMode>)
        ensures
            r@ == seq![LayoutMode::Single, LayoutMode::SideBySide],
    {
        let mut v: Vec<LayoutMode> = Vec::new();
        v.push(LayoutMode::Single);
        v.push(LayoutMode::SideBySide);
        proof {
            assert(v@ =~= seq![LayoutMode::Single, LayoutMode::SideBySide]);
        }
        v
    }

    /// The mode's display label.
    pub fn label(self) -> (r: &'static str)
        ensures
            self is Single ==> r@ == "Single column"@,
            self is SideBySide ==> r@ == "Side-by-side"@,
    {
        match self {
            LayoutMode::Single => "Single column",
            LayoutMode::SideBySide => "Side-by-side",
        }
    }
}

/// How many preview rows the chosen layout needs.
pub fn layout_row_count(preview_count: usize, mode: LayoutMode) -> (r: usize)
    ensures
        mode is Single ==> r == preview_count,
        mode is SideBySide ==> r == (preview_count + 1) / 2,
{
    match mode {
        LayoutMode::Single => preview_count,
        LayoutMode::SideBySide => preview_count / 2 + preview_count % 2,
    }
}

/// Which font indices to render: the selection alone when rendering
/// the selected font only, every visible index otherwise.
pub fn derive_render_targets(
    selected: Option<usize>,
    visible_indices: &Vec<usize>,
    render_selected_only: bool,
) -> (r: Vec<usize>)
    ensures
        render_selected_only ==> (match selected {
            Some(i) => r@ == seq![i],
            None => r@ == Seq::<usize>::empty(),
        }),
        !render_selected_only ==> r@ == visible_indices@,
{
    if render_selected_only {
        let mut v: Vec<usize> = Vec::new();
        match selected {
            Some(i) => {
                v.push(i);
                proof {
                    assert(v@ =~= seq![i]);
                }
            },
            None => {},
        }
        v
    } else {
        let mut v: Vec<usize> = Vec::new();
        let n = visible_indices.len();
        let mut i: usize = 0;
        while i < n
            invariant
                i <= n,
                n == visible_indices@.len(),
                v@ == visible_indices@.take(i as int),
            decreases n - i,
        {
            v.push(visible_indices[i]);
            proof {
                assert(v@ =~= visible_indices@.take(i + 1));
            }
            i = i + 1;
        }
        proof {
            assert(visible_indices@.take(n as int) =~= visible_indices@);
        }
        v
    }
}

/// Render availability state, derived from the font list, the filter,
/// and the selection.
#[derive(Debug, Clone, Copy, PartialEq, Eq, Structural)]
pub enum RenderAvailability {
    Ready,
    NoFonts,
    NoFilterMatches,
    NeedsSelection,
}

impl RenderAvailability {
    /// Derive the availability: no fonts at all beats a missing
    /// selection, which beats an empty filter result.
    pub fn derive(
        font_total: usize,
        visible_count: usize,
        render_selected_only: bool,
        selected: Option<usize>,
    ) -> (r: RenderAvailability)
        ensures
            font_total == 0 ==> r == RenderAvailability::NoFonts,
            font_total > 0 && render_selected_only && selected is None ==> r
                == RenderAvailability::NeedsSelection,
            font_total > 0 && !(render_selected_only && selected is None) && visible_count == 0
                ==> r == RenderAvailability::NoFilterMatches,
            font_total > 0 && !(render_selected_only && selected is None) && visible_count > 0
                ==> r == RenderAvailability::Ready,
    {
        if font_total == 0 {
            return RenderAvailability::NoFonts;
        }
        if render_selected_only && selected.is_none() {
            return RenderAvailability::NeedsSelection;
        }
        if visible_count == 0 {
            return RenderAvailability::NoFilterMatches;
        }
        RenderAvailability::Ready
    }

    /// Whether rendering may proceed.
    pub fn can_render(self) -> (r: bool)
        ensures
            r == (self is Ready),
    {
        match self {
            RenderAvailability::Ready => true,
            _ => false,
        }
    }

    /// The call-to-action label for this state.
    pub fn cta_label(self) -> (r: &'static str)
        ensures
            self is Ready ==> r@ == "Render Previews"@,
            self is NoFonts ==> r@ == "Add fonts to render"@,
            self is NoFilterMatches ==> r@ == "Adjust filter to render"@,
            self is NeedsSelection ==> r@ == "Select a font to render"@,
    {
        match self {
            RenderAvailability::Ready => "Render Previews",
            RenderAvailability::NoFonts => "Add fonts to render",
            RenderAvailability::NoFilterMatches => "Adjust filter to render",
            RenderAvailability::NeedsSelection => "Select a font to render",
        }
    }

    /// The longer hint for this state.
    pub fn hint(self) -> (r: &'static str)
        ensures
            self is Ready ==> r@ == "Ready to render with current settings."@,
            self is NoFonts ==> r@ == "Load at least one font via Add Fonts or drag & drop."@,
            self is NoFilterMatches ==> r@
                == "No fonts match the current filter; clear it to render."@,
            self is NeedsSelection ==> r@
                == "Choose a font before rendering when 'selected only' is enabled."@,
    {
        match self {
            RenderAvailability::Ready => "Ready to render with current settings.",
            RenderAvailability::NoFonts => "Load at least one font via Add Fonts or drag & drop.",
            RenderAvailability::NoFilterMatches => "No fonts match the current filter; clear it to render.",
            RenderAvailability::NeedsSelection => "Choose a font before rendering when 'selected only' is enabled.",
        }
    }
}

/// Persistent application configuration: the selected backend.
#[derive(Debug, Clone, Copy, PartialEq, Eq, Structural)]
pub struct AppConfig {
    /// The backend to restore at startup.
    pub backend: RendererBackend,
}

/// The friendly message for a font install or uninstall failure: the
/// raw reason with remediation guidance picked by what it mentions,
/// matched case-insensitively.
pub open spec fn friendly_font_op_message(
    action: Seq<char>,
    scope: InstallScope,
    raw: Seq<char>,
) -> Seq<char> {
    let lower = lower_of(raw);
    let base = action + " failed: "@ + raw;
    if contains_seq(lower, "permission"@) || contains_seq(lower, "access denied"@) {
        base + ". "@ + (if scope is System {
            "System scope often needs admin rights; retry with User scope or run with elevated permissions."@
        } else {
            "Switch to System scope or ensure the font file is readable/writable."@
        })
    } else if contains_seq(lower, "platform support not enabled"@) || contains_seq(
        lower,
        "build with --features"@,
    ) {
        base
            + ". Enable platform features (platform-mac/platform-win) when building to use font installs."@
    } else if contains_seq(lower, "not supported on this platform"@) {
        base + ". Platform font management is unavailable in this build."@
    } else {
        base
    }
}

/// A user-friendly error message for font install/uninstall failures.
pub fn friendly_font_op_error(action: &str, scope: InstallScope, raw: &str) -> (r: String)
    ensures
        r@ == friendly_font_op_message(action@, scope, raw@),
{
    let lowered = to_lowercase_full(raw);
    let lower = lowered.as_str();
    let mut base = concat_str(action, " failed: ");
    base.append(raw);
    if contains_sub(lower, "permission") || contains_sub(lower, "access denied") {
        let mut out = base;
        out.append(". ");
        match scope {
            InstallScope::System => {
                out.append(
                    "System scope often needs admin rights; retry with User scope or run with elevated permissions.",
                );
            },
            InstallScope::User => {
                out.append("Switch to System scope or ensure the font file is readable/writable.");
            },
        }
        out
    } else if contains_sub(lower, "platform support not enabled") || contains_sub(
        lower,
        "build with --features",
    ) {
        let mut out = base;
        out.append(
            ". Enable platform features (platform-mac/platform-win) when building to use font installs.",
        );
        out
    } else if contains_sub(lower, "not supported on this platform") {
        let mut out = base;
        out.append(". Platform font management is unavailable in this build.");
        out
    } else {
        base
    }
}

/// The friendly message for a render failure, keyed on what the raw
/// reason mentions, matched case-insensitively.
pub open spec fn friendly_render_message(font_name: Seq<char>, raw: Seq<char>) -> Seq<char> {
    let lower = lower_of(raw);
    if contains_seq(lower, "import typfpy"@) || contains_seq(lower, "no module named"@) {
        "Render failed for '"@ + font_name
            + "': typfpy Python module missing. Run ./build.sh --verify or ensure typfpy is on PYTHONPATH."@
    } else if contains_seq(lower, "backend"@) && contains_seq(lower, "unknown"@) {
        "Render failed for '"@ + font_name
            + "': backend unavailable. Use 'Test Backend' to verify installed backends."@
    } else {
        "Failed to render font "@ + font_name + ": "@ + raw
    }
}

/// A user-friendly render error with remediation guidance.
pub fn friendly_render_error(font_name: &str, raw: &str) -> (r: String)
    ensures
        r@ == friendly_render_message(font_name@, raw@),
{
    let lowered = to_lowercase_full(raw);
    let lower = lowered.as_str();
    if contains_sub(lower, "import typfpy") || contains_sub(lower, "no module named") {
        let mut out = concat_str("Render failed for '", font_name);
        out.append(
            "': typfpy Python module missing. Run ./build.sh --verify or ensure typfpy is on PYTHONPATH.",
        );
        out
    } else if contains_sub(lower, "backend") && contains_sub(lower, "unknown") {
        let mut out = concat_str("Render failed for '", font_name);
        out.append("': backend unavailable. Use 'Test Backend' to verify installed backends.");
        out
    } else {
        let mut out = concat_str("Failed to render font ", font_name);
        out.append(": ");
        out.append(raw);
        out
    }
}

/// Trimming cannot empty a sequence whose head survives it.
proof fn lemma_trim_back_keeps_head(s: Seq<char>, p: spec_fn(char) -> bool)
    requires
        s.len() > 0,
        !p(s[0]),
    ensures
        trim_back_if(s, p).len() > 0,
    decreases s.len(),
{
    if p(s.last()) {
        assert(s.len() > 1);
        assert(s.drop_last()[0] == s[0]);
        lemma_trim_back_keeps_head(s.drop_last(), p);
    }
}

/// Whether a font matches a filter: an all-whitespace filter matches
/// everything; otherwise the lowercased filter must occur in one of
/// the lowercased name fields or the path.
pub open spec fn font_matches(v: FontInfoView, filter: Seq<char>) -> bool {
    if trim_back_if(trim_front_if(filter, space_pred()), space_pred()).len() == 0 {
        true
    } else {
        let needle = lower_of(filter);
        ||| contains_seq(lower_of(v.full_name), needle)
        ||| contains_seq(lower_of(v.family_name), needle)
        ||| contains_seq(lower_of(v.style), needle)
        ||| contains_seq(lower_of(v.postscript_name), needle)
        ||| contains_seq(lower_of(v.source.path), needle)
    }
}

/// Check whether a font matches the current filter.
pub fn font_matches_filter(font: &TestypfFontInfo, filter: &str) -> (r: bool)
    ensures
        r == font_matches(font@, filter@),
{
    let n: usize = filter.unicode_len();
    let mut k: usize = 0;
    while k < n && is_space_char(filter.get_char(k))
        invariant
            k <= n,
            n == filter@.len(),
            forall|j: int| 0 <= j < k ==> is_ascii_space(filter@[j]),
        decreases n - k,
    {
        k = k + 1;
    }
    if k == n {
        proof {
            lemma_trim_front_at(filter@, space_pred(), n as int);
            assert(filter@.subrange(n as int, n as int) =~= Seq::<char>::empty());
            assert(trim_back_if(Seq::<char>::empty(), space_pred()) =~= Seq::<char>::empty());
        }
        return true;
    }
    proof {
        lemma_trim_front_at(filter@, space_pred(), k as int);
        let mid = filter@.subrange(k as int, n as int);
        assert(mid[0] == filter@[k as int]);
        lemma_trim_back_keeps_head(mid, space_pred());
    }
    let needle_string = to_lowercase_full(filter);
    let needle = needle_string.as_str();
    let full = to_lowercase_full(font.full_name.as_str());
    if contains_sub(full.as_str(), needle) {
        return true;
    }
    let family = to_lowercase_full(font.family_name.as_str());
    if contains_sub(family.as_str(), needle) {
        return true;
    }
    let style = to_lowercase_full(font.style.as_str());
    if contains_sub(style.as_str(), needle) {
        return true;
    }
    let postscript = to_lowercase_full(font.postscript_name.as_str());
    if contains_sub(postscript.as_str(), needle) {
        return true;
    }
    let path = to_lowercase_full(font.source.path.as_str());
    contains_sub(path.as_str(), needle)
}

/// Whether a character is ASCII whitespace.
fn is_space_char(c: char) -> (r: bool)
    ensures
        r == is_ascii_space(c),
{
    c == ' ' || c == '\t' || c == '\n' || c == '\r'
}

/// The indices of the fonts a filter keeps visible, in order.
pub open spec fn matching_indices(s: Seq<FontInfoView>, filter: Seq<char>) -> Seq<int>
    decreases s.len(),
{
    if s.len() == 0 {
        Seq::empty()
    } else if font_matches(s.last(), filter) {
        matching_indices(s.drop_last(), filter).push(s.len() - 1)
    } else {
        matching_indices(s.drop_last(), filter)
    }
}

/// Get the indices of fonts matching the current filter.
pub fn visible_font_indices(fonts: &Vec<TestypfFontInfo>, filter: &str) -> (r: Vec<usize>)
    ensures
        r@.map_values(|u: usize| u as int) == matching_indices(infos_view(fonts@), filter@),
{
    let mut out: Vec<usize> = Vec::new();
    let n = fonts.len();
    let mut i: usize = 0;
    while i < n
        invariant
            i <= n,
            n == fonts@.len(),
            out@.map_values(|u: usize| u as int) == matching_indices(
                infos_view(fonts@.take(i as int)),
                filter@,
            ),
        decreases n - i,
    {
        let ghost prefix = infos_view(fonts@.take(i as int));
        proof {
            assert(infos_view(fonts@.take(i + 1)).drop_last() =~= prefix);
            assert(infos_view(fonts@.take(i + 1)).last() == fonts@[i as int]@);
            assert(infos_view(fonts@.take(i + 1)).len() == i + 1);
        }
        if font_matches_filter(&fonts[i], filter) {
            out.push(i);
            proof {
                assert(out@.map_values(|u: usize| u as int) =~= matching_indices(
                    infos_view(fonts@.take(i + 1)),
                    filter@,
                ));
            }
        }
        i = i + 1;
    }
    proof {
        assert(fonts@.take(n as int) =~= fonts@);
    }
    out
}

/// The metadata lines shown for a font: names, style, install state,
/// the formatted file size when known, and the path.
pub open spec fn metadata_lines(v: FontInfoView, file_size_bytes: Option<u64>) -> Seq<Seq<char>> {
    let base = seq![
        "Name: "@ + v.full_name,
        "Family: "@ + v.family_name,
        "Style: "@ + v.style,
        "PostScript: "@ + v.postscript_name,
        "Install state: "@ + (if v.is_installed {
            "Installed"@
        } else {
            "Not installed"@
        }),
    ];
    let with_size = match file_size_bytes {
        Some(n) => base.push("File size: "@ + file_size_text(n as int)),
        None => base,
    };
    with_size.push("Path: "@ + v.source.path)
}

/// Derive user-friendly metadata lines for a font.
pub fn font_metadata_lines(font: &TestypfFontInfo, file_size_bytes: Option<u64>) -> (r: Vec<
    String,
>)
    ensures
        r.deep_view() == metadata_lines(font@, file_size_bytes),
{
    let mut lines: Vec<String> = Vec::new();
    lines.push(concat_str("Name: ", font.full_name.as_str()));
    lines.push(concat_str("Family: ", font.family_name.as_str()));
    lines.push(concat_str("Style: ", font.style.as_str()));
    lines.push(concat_str("PostScript: ", font.postscript_name.as_str()));
    if font.is_installed {
        lines.push(concat_str("Install state: ", "Installed"));
    } else {
        lines.push(concat_str("Install state: ", "Not installed"));
    }
    if let Some(n) = file_size_bytes {
        let size_text = format_file_size(n);
        lines.push(concat_str("File size: ", size_text.as_str()));
    }
    lines.push(concat_str("Path: ", font.source.path.as_str()));
    proof {
        assert(lines.deep_view() =~= metadata_lines(font@, file_size_bytes));
    }
    lines
}

} // verus!
