//! The render pipeline: backend selection, render settings with their
//! integer variation coordinates, and the decoding of the foreign render
//! engine's duck-typed payload into a typed result.
//!
//! The foreign engine itself is a collaborator behind a trait; the
//! pipeline builds the request, hands it over, and decodes whatever
//! comes back.

use vstd::prelude::*;

use crate::TestypfError;
use crate::TestypfResult;
use crate::assoc::lemma_pairs_map_absent;
use crate::assoc::lemma_pairs_map_index;
use crate::assoc::lemma_pairs_map_update;
use crate::assoc::pairs_find_index;
use crate::assoc::pairs_map;
use crate::assoc::pairs_unique;
use crate::registry::TestypfVariationAxis;
use crate::text::concat_str;
use vstd::utf8::encode_utf8;

verus! {

/// Available rendering backends compiled into this build. `Json` is
/// diagnostic-only and is filtered out by callers presenting visual
/// choices.
#[derive(Debug, Clone, Copy, PartialEq, Eq, Structural)]
pub enum RendererBackend {
    Orge,
    Json,
}

/// The display label of a backend.
pub open spec fn backend_label(b: RendererBackend) -> Seq<char> {
    match b {
        RendererBackend::Orge => "Opixa"@,
        RendererBackend::Json => "Json"@,
    }
}

/// The identifier the foreign engine knows a backend by.
pub open spec fn backend_identifier(b: RendererBackend) -> Seq<char> {
    match b {
        RendererBackend::Orge => "opixa"@,
        RendererBackend::Json => "json"@,
    }
}

impl RendererBackend {
    /// The backend's display label.
    pub fn label(&self) -> (r: &'static str)
        ensures
            r@ == backend_label(*self),
    {
        match self {
            RendererBackend::Orge => "Opixa",
            RendererBackend::Json => "Json",
        }
    }
}

/// Get a human-readable description for a rendering backend.
pub fn get_backend_description(backend: &RendererBackend) -> (r: String)
    ensures
        backend is Orge ==> r@ == "Opixa (High quality raster)"@,
        backend is Json ==> r@ == "JSON (debug output)"@,
{
    match backend {
        RendererBackend::Orge => String::from_str("Opixa (High quality raster)"),
        RendererBackend::Json => String::from_str("JSON (debug output)"),
    }
}

/// Backend-specific capabilities for quick reference.
pub fn backend_capabilities(backend: &RendererBackend) -> (r: &'static str)
    ensures
        backend is Orge ==> r@ == "Opixa: fast raster previews; best default choice"@,
        backend is Json ==> r@ == "JSON backend outputs metadata only (hidden in picker)"@,
{
    match backend {
        RendererBackend::Orge => "Opixa: fast raster previews; best default choice",
        RendererBackend::Json => "JSON backend outputs metadata only (hidden in picker)",
    }
}

/// Render settings for text rendering. The variation coordinates are a
/// mapping from axis tag to an integer coordinate value, kept as a list
/// of pairs with pairwise-distinct tags.
#[derive(Debug)]
pub struct RenderSettings {
    /// Sample text to render.
    pub sample_text: String,
    /// Font size in points.
    pub font_size: u32,
    /// Foreground color (RGBA).
    pub foreground_color: (u8, u8, u8, u8),
    /// Background color (RGBA), `None` for transparent.
    pub background_color: Option<(u8, u8, u8, u8)>,
    /// Renderer backend to use.
    pub backend: RendererBackend,
    /// Render padding.
    pub padding: u32,
    /// Variable-font axis coordinates (tag to value).
    pub variation_coords: Vec<(String, i32)>,
}

impl RenderSettings {
    /// The coordinate list carries pairwise-distinct tags.
    pub open spec fn wf(&self) -> bool {
        pairs_unique(self.variation_coords@)
    }

    /// The coordinate mapping the settings carry.
    pub open spec fn coords(&self) -> Map<Seq<char>, i32> {
        pairs_map(self.variation_coords@)
    }
}

impl Default for RenderSettings {
    /// The pangram sample at 16 points, black on transparent, on the
    /// default backend, with no variation coordinates.
    fn default() -> (r: RenderSettings)
        ensures
            r.sample_text@ == "The quick brown fox jumps over the lazy dog"@,
            r.font_size == 16,
            r.foreground_color == (0u8, 0u8, 0u8, 255u8),
            r.background_color is None,
            r.backend == RendererBackend::Orge,
            r.padding == 10,
            r.variation_coords@ == Seq::<(String, i32)>::empty(),
            r.wf(),
            r.coords() == Map::<Seq<char>, i32>::empty(),
    {
        RenderSettings {
            sample_text: String::from_str("The quick brown fox jumps over the lazy dog"),
            font_size: 16,
            foreground_color: (0, 0, 0, 255),
            background_color: None,
            backend: RendererBackend::Orge,
            padding: 10,
            variation_coords: Vec::new(),
        }
    }
}

impl Clone for RenderSettings {
    fn clone(&self) -> (r: Self)
        ensures
            r.sample_text@ == self.sample_text@,
            r.font_size == self.font_size,
            r.foreground_color == self.foreground_color,
            r.background_color == self.background_color,
            r.backend == self.backend,
            r.padding == self.padding,
            r.variation_coords@ == self.variation_coords@,
    {
        RenderSettings {
            sample_text: self.sample_text.clone(),
            font_size: self.font_size,
            foreground_color: self.foreground_color,
            background_color: self.background_color,
            backend: self.backend,
            padding: self.padding,
            variation_coords: clone_coords(&self.variation_coords),
        }
    }
}

/// Copy a coordinate list entry for entry.
fn clone_coords(coords: &Vec<(String, i32)>) -> (r: Vec<(String, i32)>)
    ensures
        r@ == coords@,
{
    let mut out: Vec<(String, i32)> = Vec::new();
    let n = coords.len();
    let mut i: usize = 0;
    while i < n
        invariant
            i <= n,
            n == coords@.len(),
            out@ == coords@.take(i as int),
        decreases n - i,
    {
        let tag = coords[i].0.clone();
        let value = coords[i].1;
        out.push((tag, value));
        proof {
            assert(out@ =~= coords@.take(i + 1));
        }
        i = i + 1;
    }
    proof {
        assert(coords@.take(n as int) =~= coords@);
    }
    out
}

/// A coordinate clamped into an axis range: raised to the minimum,
/// then capped at the maximum.
pub open spec fn clamp_value(v: int, lo: int, hi: int) -> int {
    let raised = if v < lo {
        lo
    } else {
        v
    };
    if raised > hi {
        hi
    } else {
        raised
    }
}

/// Clamp a variation coordinate to the axis range.
pub fn clamp_variation_value(value: i32, axis: &TestypfVariationAxis) -> (r: i32)
    ensures
        r as int == clamp_value(value as int, axis.min_value as int, axis.max_value as int),
{
    let raised = if value < axis.min_value {
        axis.min_value
    } else {
        value
    };
    if raised > axis.max_value {
        axis.max_value
    } else {
        raised
    }
}

/// The coordinate mapping after syncing to an axis list: every listed
/// axis gets its stored value clamped into range, or its default when
/// nothing was stored; tags not listed are dropped. A repeated tag
/// keeps its later occurrence.
pub open spec fn synced_coords(
    stored: Map<Seq<char>, i32>,
    axes: Seq<crate::registry::AxisView>,
) -> Map<Seq<char>, i32>
    decreases axes.len(),
{
    if axes.len() == 0 {
        Map::empty()
    } else {
        let a = axes.last();
        let current = if stored.contains_key(a.tag) {
            stored[a.tag] as int
        } else {
            a.default_value
        };
        synced_coords(stored, axes.drop_last()).insert(
            a.tag,
            clamp_value(current, a.min_value, a.max_value) as i32,
        )
    }
}

/// Align render settings to the provided axes: seed defaults, clamp
/// existing values, and drop unknown tags.
pub fn sync_variations_for_axes(settings: &mut RenderSettings, axes: &Vec<TestypfVariationAxis>)
    requires
        old(settings).wf(),
    ensures
        final(settings).wf(),
        final(settings).coords() == synced_coords(
            old(settings).coords(),
            axes@.map_values(|a: TestypfVariationAxis| a@),
        ),
        final(settings).sample_text@ == old(settings).sample_text@,
        final(settings).font_size == old(settings).font_size,
        final(settings).foreground_color == old(settings).foreground_color,
        final(settings).background_color == old(settings).background_color,
        final(settings).backend == old(settings).backend,
        final(settings).padding == old(settings).padding,
{
    let ghost axis_views = axes@.map_values(|a: TestypfVariationAxis| a@);
    let mut updated: Vec<(String, i32)> = Vec::new();
    let n = axes.len();
    let mut i: usize = 0;
    while i < n
        invariant
            i <= n,
            n == axes@.len(),
            axis_views == axes@.map_values(|a: TestypfVariationAxis| a@),
            old(settings).wf(),
            settings.variation_coords@ == old(settings).variation_coords@,
            pairs_unique(updated@),
            pairs_map(updated@) == synced_coords(
                old(settings).coords(),
                axis_views.take(i as int),
            ),
        decreases n - i,
    {
        let ghost prefix = axis_views.take(i as int);
        proof {
            assert(axis_views.take(i + 1).drop_last() =~= prefix);
            assert(axis_views.take(i + 1).last() == axes@[i as int]@);
        }
        let axis = &axes[i];
        let current: i32 = match pairs_find_index(&settings.variation_coords, axis.tag.as_str()) {
            Some(j) => {
                proof {
                    lemma_pairs_map_index(settings.variation_coords@, j as int);
                }
                settings.variation_coords[j].1
            },
            None => {
                proof {
                    lemma_pairs_map_absent(settings.variation_coords@, axis.tag@);
                }
                axis.default_value
            },
        };
        let clamped = clamp_variation_value(current, axis);
        match pairs_find_index(&updated, axis.tag.as_str()) {
            Some(j) => {
                let ghost before = updated@;
                proof {
                    lemma_pairs_map_index(updated@, j as int);
                }
                let tag = axis.tag.clone();
                updated.set(j, (tag, clamped));
                proof {
                    lemma_pairs_map_update(before, j as int, updated@[j as int]);
                }
            },
            None => {
                let ghost before = updated@;
                proof {
                    lemma_pairs_map_absent(updated@, axis.tag@);
                }
                let tag = axis.tag.clone();
                updated.push((tag, clamped));
                proof {
                    assert(updated@.drop_last() =~= before);
                }
            },
        }
        i = i + 1;
    }
    proof {
        assert(axis_views.take(n as int) =~= axis_views);
    }
    settings.variation_coords = updated;
}

/// One coordinate rendered as `tag=value`.
pub open spec fn coord_part(p: (String, i32)) -> Seq<char> {
    p.0@ + "="@ + crate::text::int_dec(p.1 as int)
}

/// Coordinate parts joined with `, `, in order.
pub open spec fn coord_parts_joined(s: Seq<(String, i32)>) -> Seq<char>
    decreases s.len(),
{
    if s.len() == 0 {
        Seq::empty()
    } else if s.len() == 1 {
        coord_part(s[0])
    } else {
        coord_parts_joined(s.drop_last()) + ", "@ + coord_part(s.last())
    }
}

/// The list with `p` inserted before the first entry whose tag does
/// not come before `p`'s.
pub open spec fn insert_by_tag(p: (String, i32), s: Seq<(String, i32)>) -> Seq<(String, i32)>
    decreases s.len(),
{
    if s.len() == 0 {
        seq![p]
    } else if crate::text::lex_le(p.0@, s[0].0@) {
        seq![p] + s
    } else {
        seq![s[0]] + insert_by_tag(p, s.drop_first())
    }
}

/// The list sorted by tag, by repeated insertion.
pub open spec fn sort_by_tag(s: Seq<(String, i32)>) -> Seq<(String, i32)>
    decreases s.len(),
{
    if s.len() == 0 {
        Seq::empty()
    } else {
        insert_by_tag(s.last(), sort_by_tag(s.drop_last()))
    }
}

proof fn lemma_insert_by_tag_at(s: Seq<(String, i32)>, p: (String, i32), j: int)
    requires
        0 <= j <= s.len(),
        forall|k: int| 0 <= k < j ==> !crate::text::lex_le(p.0@, (#[trigger] s[k]).0@),
        j == s.len() || crate::text::lex_le(p.0@, s[j].0@),
    ensures
        insert_by_tag(p, s) == s.subrange(0, j) + seq![p] + s.subrange(j, s.len() as int),
    decreases s.len(),
{
    if s.len() == 0 {
        assert(insert_by_tag(p, s) =~= s.subrange(0, j) + seq![p] + s.subrange(
            j,
            s.len() as int,
        ));
    } else if j == 0 {
        assert(crate::text::lex_le(p.0@, s[0].0@));
        assert(insert_by_tag(p, s) =~= s.subrange(0, j) + seq![p] + s.subrange(
            j,
            s.len() as int,
        ));
    } else {
        assert(!crate::text::lex_le(p.0@, s[0].0@));
        let t = s.drop_first();
        assert(forall|k: int|
            0 <= k < j - 1 ==> !crate::text::lex_le(p.0@, (#[trigger] t[k]).0@)) by {
            assert(forall|k: int| 0 <= k < t.len() ==> t[k] == s[k + 1]);
        }
        assert(j - 1 == t.len() || crate::text::lex_le(p.0@, t[j - 1].0@));
        lemma_insert_by_tag_at(t, p, j - 1);
        assert(insert_by_tag(p, s) =~= s.subrange(0, j) + seq![p] + s.subrange(
            j,
            s.len() as int,
        ));
    }
}

/// Insert a coordinate into a tag-sorted list at its place.
fn insert_coord_sorted(out: &mut Vec<(String, i32)>, p: (String, i32))
    ensures
        final(out)@ == insert_by_tag(p, old(out)@),
{
    let n = out.len();
    let mut j: usize = 0;
    while j < n && !crate::text::str_lex_le(p.0.as_str(), out[j].0.as_str())
        invariant
            j <= n,
            n == out@.len(),
            out@ == old(out)@,
            forall|k: int| 0 <= k < j ==> !crate::text::lex_le(p.0@, (#[trigger] out@[k]).0@),
        decreases n - j,
    {
        j = j + 1;
    }
    proof {
        lemma_insert_by_tag_at(out@, p, j as int);
    }
    out.insert(j, p);
    proof {
        assert(final(out)@ =~= old(out)@.subrange(0, j as int) + seq![final(out)@[j as int]]
            + old(out)@.subrange(j as int, old(out)@.len() as int));
    }
}

/// The coordinates sorted by tag.
fn sort_coords_by_tag(coords: &Vec<(String, i32)>) -> (r: Vec<(String, i32)>)
    ensures
        r@ == sort_by_tag(coords@),
{
    let mut out: Vec<(String, i32)> = Vec::new();
    let n = coords.len();
    let mut i: usize = 0;
    while i < n
        invariant
            i <= n,
            n == coords@.len(),
            out@ == sort_by_tag(coords@.take(i as int)),
        decreases n - i,
    {
        let entry = (coords[i].0.clone(), coords[i].1);
        proof {
            assert(coords@.take(i + 1).drop_last() =~= coords@.take(i as int));
            assert(coords@.take(i + 1).last() == coords@[i as int]);
            assert(entry == coords@[i as int]);
        }
        insert_coord_sorted(&mut out, entry);
        i = i + 1;
    }
    proof {
        assert(coords@.take(n as int) =~= coords@);
    }
    out
}

/// A human-readable summary of the variation coordinates, sorted by
/// tag; `None` when there are none.
pub fn variation_summary(settings: &RenderSettings) -> (r: Option<String>)
    ensures
        settings.variation_coords@.len() == 0 ==> r is None,
        settings.variation_coords@.len() > 0 ==> (r matches Some(s) && s@ == coord_parts_joined(
            sort_by_tag(settings.variation_coords@),
        )),
{
    if settings.variation_coords.len() == 0 {
        return None;
    }
    let sorted = sort_coords_by_tag(&settings.variation_coords);
    let ghost sorted_view = sorted@;
    let mut out = String::new();
    let n = sorted.len();
    proof {
        lemma_insert_by_tag_len(settings.variation_coords@);
    }
    let mut i: usize = 0;
    while i < n
        invariant
            i <= n,
            n == sorted@.len(),
            n > 0,
            sorted@ == sorted_view,
            out@ == coord_parts_joined(sorted_view.take(i as int)),
        decreases n - i,
    {
        let ghost prefix = sorted_view.take(i as int);
        if i > 0 {
            out.append(", ");
        }
        out.append(sorted[i].0.as_str());
        out.append("=");
        let value_text = crate::text::i64_to_dec(sorted[i].1 as i64);
        out.append(value_text.as_str());
        proof {
            assert(sorted_view.take(i + 1).drop_last() =~= prefix);
            assert(sorted_view.take(i + 1).last() == sorted_view[i as int]);
            if i > 0 {
                assert(out@ =~= coord_parts_joined(sorted_view.take(i + 1)));
            } else {
                assert(coord_parts_joined(sorted_view.take(1)) == coord_part(sorted_view[0]));
                assert(out@ =~= coord_parts_joined(sorted_view.take(i + 1)));
            }
        }
        i = i + 1;
    }
    proof {
        assert(sorted_view.take(n as int) =~= sorted_view);
    }
    Some(out)
}

/// Sorting keeps the number of coordinates.
proof fn lemma_insert_by_tag_len(s: Seq<(String, i32)>)
    ensures
        sort_by_tag(s).len() == s.len(),
    decreases s.len(),
{
    if s.len() > 0 {
        lemma_insert_by_tag_len(s.drop_last());
        lemma_insert_len(s.last(), sort_by_tag(s.drop_last()));
    }
}

proof fn lemma_insert_len(p: (String, i32), s: Seq<(String, i32)>)
    ensures
        insert_by_tag(p, s).len() == s.len() + 1,
    decreases s.len(),
{
    if s.len() > 0 && !crate::text::lex_le(p.0@, s[0].0@) {
        lemma_insert_len(p, s.drop_first());
    }
}

/// Render result containing bitmap or diagnostic data.
#[derive(Debug)]
pub struct RenderResult {
    /// Image width in pixels.
    pub width: u32,
    /// Image height in pixels.
    pub height: u32,
    /// Raw pixel or payload bytes.
    pub data: Vec<u8>,
    /// Format description.
    pub format: String,
}

/// The mathematical content of a render result.
#[verifier::ext_equal]
pub struct RenderResultView {
    pub width: int,
    pub height: int,
    pub data: Seq<u8>,
    pub format: Seq<char>,
}

impl View for RenderResult {
    type V = RenderResultView;

    open spec fn view(&self) -> RenderResultView {
        RenderResultView {
            width: self.width as int,
            height: self.height as int,
            data: self.data@,
            format: self.format@,
        }
    }
}

impl Clone for RenderResult {
    fn clone(&self) -> (r: Self)
        ensures
            r@ == self@,
    {
        RenderResult {
            width: self.width,
            height: self.height,
            data: self.data.clone(),
            format: self.format.clone(),
        }
    }
}

/// One field value of a bitmap-shaped foreign payload, as the decoder
/// distinguishes it: an integer, a byte blob, text, or anything else.
#[derive(Debug)]
pub enum PayloadValue {
    Int(i64),
    Bytes(Vec<u8>),
    Text(String),
    Other,
}

/// The mathematical content of a payload field value.
pub enum PayloadValueView {
    Int(int),
    Bytes(Seq<u8>),
    Text(Seq<char>),
    Other,
}

impl View for PayloadValue {
    type V = PayloadValueView;

    open spec fn view(&self) -> PayloadValueView {
        match self {
            PayloadValue::Int(v) => PayloadValueView::Int(*v as int),
            PayloadValue::Bytes(b) => PayloadValueView::Bytes(b@),
            PayloadValue::Text(s) => PayloadValueView::Text(s@),
            PayloadValue::Other => PayloadValueView::Other,
        }
    }
}

/// A bitmap-shaped foreign payload: the fields the decoder reads, each
/// present or absent.
#[derive(Debug)]
pub struct RawBitmapPayload {
    pub width: Option<PayloadValue>,
    pub height: Option<PayloadValue>,
    pub format: Option<PayloadValue>,
    pub data: Option<PayloadValue>,
}

/// The mathematical content of a bitmap-shaped payload.
#[verifier::ext_equal]
pub struct BitmapPayloadView {
    pub width: Option<PayloadValueView>,
    pub height: Option<PayloadValueView>,
    pub format: Option<PayloadValueView>,
    pub data: Option<PayloadValueView>,
}

impl View for RawBitmapPayload {
    type V = BitmapPayloadView;

    open spec fn view(&self) -> BitmapPayloadView {
        BitmapPayloadView {
            width: match &self.width {
                Some(v) => Some(v@),
                None => None,
            },
            height: match &self.height {
                Some(v) => Some(v@),
                None => None,
            },
            format: match &self.format {
                Some(v) => Some(v@),
                None => None,
            },
            data: match &self.data {
                Some(v) => Some(v@),
                None => None,
            },
        }
    }
}

/// What the foreign render engine handed back, classified at the
/// boundary: a bitmap-shaped structure, a plain text value, or some
/// unexpected shape.
#[derive(Debug)]
pub enum RawRenderPayload {
    Bitmap(RawBitmapPayload),
    Text(String),
    Other,
}

/// The mathematical content of a foreign payload.
pub enum RawPayloadView {
    Bitmap(BitmapPayloadView),
    Text(Seq<char>),
    Other,
}

impl View for RawRenderPayload {
    type V = RawPayloadView;

    open spec fn view(&self) -> RawPayloadView {
        match self {
            RawRenderPayload::Bitmap(b) => RawPayloadView::Bitmap(b@),
            RawRenderPayload::Text(s) => RawPayloadView::Text(s@),
            RawRenderPayload::Other => RawPayloadView::Other,
        }
    }
}

/// A required integer dimension read from a payload field: absent or
/// non-integer values, and integers that do not fit the result type,
/// are decoding errors with the given messages.
pub open spec fn decode_dimension(
    field: Option<PayloadValueView>,
    missing: Seq<char>,
    invalid: Seq<char>,
) -> Result<int, Seq<char>> {
    match field {
        None => Err(missing),
        Some(PayloadValueView::Int(v)) => if 0 <= v && v <= 0xffff_ffff {
            Ok(v)
        } else {
            Err(invalid)
        },
        Some(_) => Err(invalid),
    }
}

/// The decode of a foreign render payload: a text payload becomes a
/// diagnostic result holding its bytes; a bitmap payload must carry
/// integer `width` and `height` and a byte `data` field, with `format`
/// defaulting to `unknown`; anything else is an error.
pub open spec fn decode_spec(p: RawPayloadView) -> Result<RenderResultView, Seq<char>> {
    match p {
        RawPayloadView::Text(s) => Ok(
            RenderResultView { width: 0, height: 0, data: encode_utf8(s), format: "json"@ },
        ),
        RawPayloadView::Other => Err("Unexpected render result type"@),
        RawPayloadView::Bitmap(b) => match decode_dimension(
            b.width,
            "Missing width in typf result"@,
            "Invalid width in typf result"@,
        ) {
            Err(m) => Err(m),
            Ok(w) => match decode_dimension(
                b.height,
                "Missing height in typf result"@,
                "Invalid height in typf result"@,
            ) {
                Err(m) => Err(m),
                Ok(h) => {
                    let format = match b.format {
                        Some(PayloadValueView::Text(f)) => f,
                        _ => "unknown"@,
                    };
                    match b.data {
                        None => Err("Missing data in typf result"@),
                        Some(PayloadValueView::Bytes(bytes)) => Ok(
                            RenderResultView { width: w, height: h, data: bytes, format },
                        ),
                        Some(_) => Err("Invalid data format in typf result"@),
                    }
                },
            },
        },
    }
}

/// Decode a foreign render payload into a typed render result, exactly
/// as [`decode_spec`] describes.
pub fn decode_render_payload(payload: RawRenderPayload) -> (r: TestypfResult<RenderResult>)
    ensures
        r matches Ok(res) ==> decode_spec(payload@) matches Ok(v) && res@ == v,
        r matches Err(e) ==> e matches TestypfError::RenderFailed(m) && decode_spec(payload@)
            matches Err(em) && m@ == em,
{
    match payload {
        RawRenderPayload::Text(s) => {
            let data = s.as_str().as_bytes_vec();
            Ok(RenderResult { width: 0, height: 0, data, format: String::from_str("json") })
        },
        RawRenderPayload::Other => Err(
            TestypfError::RenderFailed(String::from_str("Unexpected render result type")),
        ),
        RawRenderPayload::Bitmap(b) => {
            let width: u32 = match &b.width {
                None => {
                    return Err(
                        TestypfError::RenderFailed(String::from_str("Missing width in typf result")),
                    );
                },
                Some(PayloadValue::Int(v)) => {
                    if 0 <= *v && *v <= 0xffff_ffff {
                        *v as u32
                    } else {
                        return Err(
                            TestypfError::RenderFailed(
                                String::from_str("Invalid width in typf result"),
                            ),
                        );
                    }
                },
                Some(_) => {
                    return Err(
                        TestypfError::RenderFailed(String::from_str("Invalid width in typf result")),
                    );
                },
            };
            let height: u32 = match &b.height {
                None => {
                    return Err(
                        TestypfError::RenderFailed(
                            String::from_str("Missing height in typf result"),
                        ),
                    );
                },
                Some(PayloadValue::Int(v)) => {
                    if 0 <= *v && *v <= 0xffff_ffff {
                        *v as u32
                    } else {
                        return Err(
                            TestypfError::RenderFailed(
                                String::from_str("Invalid height in typf result"),
                            ),
                        );
                    }
                },
                Some(_) => {
                    return Err(
                        TestypfError::RenderFailed(
                            String::from_str("Invalid height in typf result"),
                        ),
                    );
                },
            };
            let format: String = match b.format {
                Some(PayloadValue::Text(f)) => f,
                _ => String::from_str("unknown"),
            };
            match b.data {
                None => Err(
                    TestypfError::RenderFailed(String::from_str("Missing data in typf result")),
                ),
                Some(PayloadValue::Bytes(bytes)) => Ok(
                    RenderResult { width, height, data: bytes, format },
                ),
                Some(_) => Err(
                    TestypfError::RenderFailed(
                        String::from_str("Invalid data format in typf result"),
                    ),
                ),
            }
        },
    }
}

/// The byte count a raster result of the given dimensions must carry:
/// four bytes per pixel, saturated at the machine's limit as the
/// preview layer computes it.
pub open spec fn expected_raster_len(width: int, height: int) -> int {
    if width * height * 4 > usize::MAX {
        usize::MAX as int
    } else {
        width * height * 4
    }
}

/// Why a render result cannot back an on-screen preview, if it cannot:
/// empty dimensions, a pixel byte count other than width times height
/// times four, or a format that does not denote an RGBA layout. The
/// pipeline itself does not reject such results; the preview-consuming
/// layer must.
pub open spec fn raster_preview_error(v: RenderResultView) -> Option<Seq<char>> {
    let expected = expected_raster_len(v.width, v.height);
    if expected == 0 {
        Some("Render result contains no pixel data"@)
    } else if v.data.len() != expected {
        Some(
            "Pixel data length mismatch (expected "@ + crate::text::dec_seq(expected) + ", got "@
                + crate::text::dec_seq(v.data.len() as int) + ")"@,
        )
    } else if !crate::text::contains_seq(crate::text::lower_seq(v.format), "rgba"@) {
        Some("Unsupported render format for preview: "@ + v.format)
    } else {
        None
    }
}

/// Check that a render result can back an on-screen preview; `Err`
/// carries the reason it cannot.
pub fn check_raster_preview(result: &RenderResult) -> (r: Result<(), String>)
    ensures
        match r {
            Ok(_) => raster_preview_error(result@) is None,
            Err(m) => raster_preview_error(result@) == Some(m@),
        },
{
    proof {
        vstd::arithmetic::mul::lemma_mul_upper_bound(
            result.width as int,
            0xffff_ffff,
            result.height as int,
            0xffff_ffff,
        );
    }
    let wide: u128 = (result.width as u128) * (result.height as u128) * 4;
    let expected: usize = if wide > usize::MAX as u128 {
        usize::MAX
    } else {
        wide as usize
    };
    if expected == 0 {
        return Err(String::from_str("Render result contains no pixel data"));
    }
    if result.data.len() != expected {
        let mut msg = String::from_str("Pixel data length mismatch (expected ");
        let expected_text = crate::text::u64_to_dec(expected as u64);
        msg.append(expected_text.as_str());
        msg.append(", got ");
        let got_text = crate::text::u64_to_dec(result.data.len() as u64);
        msg.append(got_text.as_str());
        msg.append(")");
        return Err(msg);
    }
    let lowered = crate::text::to_lower_ascii(result.format.as_str());
    if !crate::text::contains_sub(lowered.as_str(), "rgba") {
        return Err(crate::text::concat_str("Unsupported render format for preview: ", result.format.as_str()));
    }
    Ok(())
}

/// Why a preview cannot be exported as an image file, if it cannot:
/// zero dimensions, or a pixel byte count other than width times height
/// times four.
pub open spec fn export_preview_error(width: int, height: int, pixel_count: int) -> Option<
    Seq<char>,
> {
    if width == 0 || height == 0 {
        Some("Preview has zero dimensions"@)
    } else if pixel_count != expected_raster_len(width, height) {
        Some("Preview pixel data length is invalid"@)
    } else {
        None
    }
}

/// Check that a preview's dimensions and pixel byte count allow an
/// image export; `Err` carries the reason they do not.
pub fn check_export_preview(width: u32, height: u32, pixel_count: usize) -> (r: Result<(), String>)
    ensures
        match r {
            Ok(_) => export_preview_error(width as int, height as int, pixel_count as int)
                is None,
            Err(m) => export_preview_error(width as int, height as int, pixel_count as int)
                == Some(m@),
        },
{
    if width == 0 || height == 0 {
        return Err(String::from_str("Preview has zero dimensions"));
    }
    proof {
        vstd::arithmetic::mul::lemma_mul_upper_bound(
            width as int,
            0xffff_ffff,
            height as int,
            0xffff_ffff,
        );
    }
    let wide: u128 = (width as u128) * (height as u128) * 4;
    let expected: usize = if wide > usize::MAX as u128 {
        usize::MAX
    } else {
        wide as usize
    };
    if pixel_count != expected {
        return Err(String::from_str("Preview pixel data length is invalid"));
    }
    Ok(())
}

/// A rendered font preview as the application holds it: the render
/// result's content together with which font it belongs to and how
/// long the render took.
#[derive(Debug)]
pub struct RenderPreview {
    /// Index of the font the preview belongs to.
    pub font_index: usize,
    /// Image width in pixels.
    pub width: u32,
    /// Image height in pixels.
    pub height: u32,
    /// Format description.
    pub format: String,
    /// Raw pixel bytes.
    pub pixels: Vec<u8>,
    /// How long the render took, in milliseconds.
    pub duration_ms: u64,
}

/// Build a render preview from a render result, provided the result
/// can back an on-screen preview; `Err` carries the reason it cannot.
pub fn build_render_preview(
    font_index: usize,
    render_result: RenderResult,
    duration_ms: u64,
) -> (r: Result<RenderPreview, String>)
    ensures
        match r {
            Ok(p) => raster_preview_error(render_result@) is None && p.font_index == font_index
                && p.width == render_result.width && p.height == render_result.height
                && p.format@ == render_result.format@ && p.pixels@ == render_result.data@
                && p.duration_ms == duration_ms,
            Err(m) => raster_preview_error(render_result@) == Some(m@),
        },
{
    if let Err(m) = check_raster_preview(&render_result) {
        return Err(m);
    }
    Ok(
        RenderPreview {
            font_index,
            width: render_result.width,
            height: render_result.height,
            format: render_result.format,
            pixels: render_result.data,
            duration_ms,
        },
    )
}

/// The metadata line shown under a preview.
pub open spec fn preview_metadata(
    preview_width: int,
    preview_height: int,
    preview_format: Seq<char>,
    preview_duration_ms: int,
    backend: RendererBackend,
    style: Seq<char>,
    family: Seq<char>,
    coords: Seq<(String, i32)>,
) -> Seq<char> {
    "Dimensions: "@ + crate::text::dec_seq(preview_width) + "x"@ + crate::text::dec_seq(
        preview_height,
    ) + " | Format: "@ + preview_format + " | Backend: "@ + backend_label(backend)
        + " | Style: "@ + style + " | Family: "@ + family + " | Render time: "@
        + crate::text::dec_seq(preview_duration_ms) + " ms"@ + (if coords.len() == 0 {
        Seq::<char>::empty()
    } else {
        " | Variations: "@ + coord_parts_joined(sort_by_tag(coords))
    })
}

/// A human-readable metadata string for a render preview.
pub fn preview_metadata_text(
    preview: &RenderPreview,
    font: &crate::registry::TestypfFontInfo,
    settings: &RenderSettings,
) -> (r: String)
    ensures
        r@ == preview_metadata(
            preview.width as int,
            preview.height as int,
            preview.format@,
            preview.duration_ms as int,
            settings.backend,
            font.style@,
            font.family_name@,
            settings.variation_coords@,
        ),
{
    let mut out = String::from_str("Dimensions: ");
    let width_text = crate::text::u64_to_dec(preview.width as u64);
    out.append(width_text.as_str());
    out.append("x");
    let height_text = crate::text::u64_to_dec(preview.height as u64);
    out.append(height_text.as_str());
    out.append(" | Format: ");
    out.append(preview.format.as_str());
    out.append(" | Backend: ");
    out.append(settings.backend.label());
    out.append(" | Style: ");
    out.append(font.style.as_str());
    out.append(" | Family: ");
    out.append(font.family_name.as_str());
    out.append(" | Render time: ");
    let duration_text = crate::text::u64_to_dec(preview.duration_ms);
    out.append(duration_text.as_str());
    out.append(" ms");
    if settings.variation_coords.len() > 0 {
        out.append(" | Variations: ");
        match variation_summary(settings) {
            Some(summary) => {
                out.append(summary.as_str());
            },
            None => {},
        }
    }
    proof {
        assert(out@ =~= preview_metadata(
            preview.width as int,
            preview.height as int,
            preview.format@,
            preview.duration_ms as int,
            settings.backend,
            font.style@,
            font.family_name@,
            settings.variation_coords@,
        ));
    }
    out
}

/// Everything the pipeline hands the foreign render engine for one
/// render call.
#[derive(Debug)]
pub struct RenderRequest {
    /// Shaper identifier the engine is constructed with.
    pub shaper: String,
    /// Backend identifier the engine is constructed with.
    pub backend: String,
    /// The text to render.
    pub sample_text: String,
    /// Path of the font file to render with.
    pub font_path: String,
    /// Font size in points.
    pub font_size: u32,
    /// Foreground color.
    pub foreground_color: (u8, u8, u8, u8),
    /// Background color, `None` for transparent.
    pub background_color: Option<(u8, u8, u8, u8)>,
    /// Render padding.
    pub padding: u32,
    /// The variation coordinates, or `None` when there are none.
    pub variations: Option<Vec<(String, i32)>>,
}

/// The foreign render engine: shapes and rasterizes text. The single
/// process-wide engine handle and its serialization are the
/// application's concern; nothing is assumed of the payload.
pub trait ForeignRenderEngine {
    /// Perform one render call and classify the raw payload.
    fn render_text(&mut self, request: &RenderRequest) -> Result<RawRenderPayload, String>;
}

/// The renderer backed by the foreign engine: the shaper and backend
/// identifiers the engine is driven with.
#[derive(Debug)]
pub struct TypfRenderer {
    /// Shaper identifier.
    pub shaper: String,
    /// Backend identifier handed to the foreign engine.
    pub backend: String,
}

impl TypfRenderer {
    /// A renderer on the default shaper and backend.
    pub fn new() -> (r: TypfRenderer)
        ensures
            r.shaper@ == "harfbuzz"@,
            r.backend@ == "opixa"@,
    {
        TypfRenderer { shaper: String::from_str("harfbuzz"), backend: String::from_str("opixa") }
    }

    /// The foreign identifier for a backend.
    pub fn backend_to_string(&self, backend: &RendererBackend) -> (r: &'static str)
        ensures
            r@ == backend_identifier(*backend),
    {
        match backend {
            RendererBackend::Orge => "opixa",
            RendererBackend::Json => "json",
        }
    }

    /// The compiled-in backend list.
    pub fn get_backends(&self) -> (r: Vec<RendererBackend>)
        ensures
            r@ == seq![RendererBackend::Orge, RendererBackend::Json],
    {
        let mut v: Vec<RendererBackend> = Vec::new();
        v.push(RendererBackend::Orge);
        v.push(RendererBackend::Json);
        proof {
            assert(v@ =~= seq![RendererBackend::Orge, RendererBackend::Json]);
        }
        v
    }

    /// Select a backend: a pure local state change that does not
    /// validate the foreign engine's support; a mismatch surfaces only
    /// on the next render call.
    pub fn set_backend(&mut self, backend: RendererBackend) -> (r: TestypfResult<()>)
        ensures
            r is Ok,
            final(self).backend@ == backend_identifier(backend),
            final(self).shaper@ == old(self).shaper@,
    {
        self.backend = String::from_str(self.backend_to_string(&backend));
        Ok(())
    }

    /// The request for one render call: the engine identifiers, the
    /// settings' fields, and the coordinate list when it is non-empty.
    pub fn build_render_request(&self, font_path: &str, settings: &RenderSettings) -> (r:
        RenderRequest)
        ensures
            r.shaper@ == self.shaper@,
            r.backend@ == self.backend@,
            r.sample_text@ == settings.sample_text@,
            r.font_path@ == font_path@,
            r.font_size == settings.font_size,
            r.foreground_color == settings.foreground_color,
            r.background_color == settings.background_color,
            r.padding == settings.padding,
            settings.variation_coords@.len() == 0 ==> r.variations is None,
            settings.variation_coords@.len() > 0 ==> (r.variations matches Some(v) && v@
                == settings.variation_coords@),
    {
        let variations: Option<Vec<(String, i32)>> = if settings.variation_coords.len() == 0 {
            None
        } else {
            Some(clone_coords(&settings.variation_coords))
        };
        RenderRequest {
            shaper: self.shaper.clone(),
            backend: self.backend.clone(),
            sample_text: settings.sample_text.clone(),
            font_path: String::from_str(font_path),
            font_size: settings.font_size,
            foreground_color: settings.foreground_color,
            background_color: settings.background_color,
            padding: settings.padding,
            variations,
        }
    }

    /// Render text with the given font and settings: build the request,
    /// invoke the engine, and decode the payload; an engine failure is
    /// reported as `RenderFailed` with its reason.
    pub fn render_text<E: ForeignRenderEngine>(
        &self,
        engine: &mut E,
        font_path: &str,
        settings: &RenderSettings,
    ) -> (r: TestypfResult<RenderResult>)
        ensures
            r matches Err(e) ==> e is RenderFailed,
    {
        let request = self.build_render_request(font_path, settings);
        match engine.render_text(&request) {
            Ok(payload) => decode_render_payload(payload),
            Err(e) => Err(
                TestypfError::RenderFailed(concat_str("Failed to render text: ", e.as_str())),
            ),
        }
    }
}

} // verus!
