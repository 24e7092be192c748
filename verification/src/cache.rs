//! The render cache gate: a pure decision on whether previously
//! rendered previews may be reused, from the last and current settings
//! and target path lists.

use vstd::prelude::*;

use crate::assoc::lemma_pairs_map_absent;
use crate::assoc::lemma_pairs_map_index;
use crate::assoc::lemma_pairs_map_key_index;
use crate::assoc::pairs_find_index;
use crate::assoc::pairs_map;
use crate::assoc::pairs_unique;
use crate::render::RenderSettings;
use crate::text::str_eq;

verus! {

/// Full structural equality of render settings: every field, with the
/// coordinate mapping compared order-independently.
pub open spec fn settings_eq(a: &RenderSettings, b: &RenderSettings) -> bool {
    &&& a.sample_text@ == b.sample_text@
    &&& a.font_size == b.font_size
    &&& a.foreground_color == b.foreground_color
    &&& a.background_color == b.background_color
    &&& a.backend == b.backend
    &&& a.padding == b.padding
    &&& pairs_map(a.variation_coords@) == pairs_map(b.variation_coords@)
}

/// Every entry of `a` is present in `b`'s mapping with the same value.
pub open spec fn entries_in(a: Seq<(String, i32)>, b: Seq<(String, i32)>) -> bool {
    forall|i: int|
        0 <= i < a.len() ==> pairs_map(b).contains_key((#[trigger] a[i]).0@) && pairs_map(b)[a[i].0@]
            == a[i].1
}

/// Mutual containment of unique-keyed entry lists makes their mappings
/// equal.
proof fn lemma_entries_mutual(a: Seq<(String, i32)>, b: Seq<(String, i32)>)
    requires
        pairs_unique(a),
        pairs_unique(b),
        entries_in(a, b),
        entries_in(b, a),
    ensures
        pairs_map(a) == pairs_map(b),
{
    assert forall|k: Seq<char>| #[trigger]
        pairs_map(a).contains_key(k) implies pairs_map(b).contains_key(k) && pairs_map(b)[k]
        == pairs_map(a)[k] by {
        lemma_pairs_map_key_index(a, k);
        let i = choose|i: int| 0 <= i < a.len() && a[i].0@ == k;
        lemma_pairs_map_index(a, i);
    }
    assert forall|k: Seq<char>| #[trigger]
        pairs_map(b).contains_key(k) implies pairs_map(a).contains_key(k) by {
        lemma_pairs_map_key_index(b, k);
        let i = choose|i: int| 0 <= i < b.len() && b[i].0@ == k;
        lemma_pairs_map_index(b, i);
    }
    assert(pairs_map(a) =~= pairs_map(b));
}

/// Whether every entry of `a` appears in `b`'s mapping with the same
/// value.
fn coords_subset(a: &Vec<(String, i32)>, b: &Vec<(String, i32)>) -> (r: bool)
    requires
        pairs_unique(b@),
    ensures
        r == entries_in(a@, b@),
{
    let n = a.len();
    let mut i: usize = 0;
    while i < n
        invariant
            i <= n,
            n == a@.len(),
            pairs_unique(b@),
            forall|j: int|
                0 <= j < i ==> pairs_map(b@).contains_key((#[trigger] a@[j]).0@) && pairs_map(
                    b@,
                )[a@[j].0@] == a@[j].1,
        decreases n - i,
    {
        match pairs_find_index(b, a[i].0.as_str()) {
            Some(j) => {
                proof {
                    lemma_pairs_map_index(b@, j as int);
                }
                if b[j].1 != a[i].1 {
                    return false;
                }
            },
            None => {
                proof {
                    lemma_pairs_map_absent(b@, a@[i as int].0@);
                }
                return false;
            },
        }
        i = i + 1;
    }
    true
}

/// Whether two unique-keyed coordinate lists carry the same mapping.
fn coords_maps_equal(a: &Vec<(String, i32)>, b: &Vec<(String, i32)>) -> (r: bool)
    requires
        pairs_unique(a@),
        pairs_unique(b@),
    ensures
        r == (pairs_map(a@) == pairs_map(b@)),
{
    let forward = coords_subset(a, b);
    let backward = coords_subset(b, a);
    if forward && backward {
        proof {
            lemma_entries_mutual(a@, b@);
        }
        true
    } else {
        proof {
            if pairs_map(a@) == pairs_map(b@) {
                assert forall|i: int|
                    0 <= i < a@.len() implies pairs_map(b@).contains_key((#[trigger] a@[i]).0@)
                    && pairs_map(b@)[a@[i].0@] == a@[i].1 by {
                    lemma_pairs_map_index(a@, i);
                }
                assert forall|i: int|
                    0 <= i < b@.len() implies pairs_map(a@).contains_key((#[trigger] b@[i]).0@)
                    && pairs_map(a@)[b@[i].0@] == b@[i].1 by {
                    lemma_pairs_map_index(b@, i);
                }
            }
        }
        false
    }
}

/// Full structural equality of render settings.
pub fn settings_equal(a: &RenderSettings, b: &RenderSettings) -> (r: bool)
    requires
        a.wf(),
        b.wf(),
    ensures
        r == settings_eq(a, b),
{
    if !str_eq(a.sample_text.as_str(), b.sample_text.as_str()) {
        return false;
    }
    if a.font_size != b.font_size {
        return false;
    }
    let (ar, ag, ab, aa) = a.foreground_color;
    let (br, bg, bb, ba) = b.foreground_color;
    if ar != br || ag != bg || ab != bb || aa != ba {
        return false;
    }
    match (&a.background_color, &b.background_color) {
        (None, None) => {},
        (Some(x), Some(y)) => {
            let (xr, xg, xb, xa) = *x;
            let (yr, yg, yb, ya) = *y;
            if xr != yr || xg != yg || xb != yb || xa != ya {
                return false;
            }
        },
        _ => {
            return false;
        },
    }
    if a.backend != b.backend {
        return false;
    }
    if a.padding != b.padding {
        return false;
    }
    coords_maps_equal(&a.variation_coords, &b.variation_coords)
}

/// The character sequences of a path list.
pub open spec fn path_views(v: Seq<String>) -> Seq<Seq<char>> {
    v.map_values(|s: String| s@)
}

/// Element-for-element equality of two path lists, in order.
fn paths_equal(a: &Vec<String>, b: &Vec<String>) -> (r: bool)
    ensures
        r == (path_views(a@) == path_views(b@)),
{
    let n = a.len();
    if n != b.len() {
        proof {
            assert(path_views(a@).len() != path_views(b@).len());
        }
        return false;
    }
    let mut i: usize = 0;
    while i < n
        invariant
            i <= n,
            n == a@.len(),
            n == b@.len(),
            forall|j: int| 0 <= j < i ==> path_views(a@)[j] == path_views(b@)[j],
        decreases n - i,
    {
        if !str_eq(a[i].as_str(), b[i].as_str()) {
            proof {
                assert(path_views(a@)[i as int] != path_views(b@)[i as int]);
            }
            return false;
        }
        i = i + 1;
    }
    proof {
        assert(path_views(a@) =~= path_views(b@));
    }
    true
}

/// When previously rendered previews may be reused: only with previews
/// in hand, a previous settings snapshot present, full structural
/// equality of the settings, and the same target paths in the same
/// order. The decision is a pure function of its inputs.
pub open spec fn should_reuse(
    last_settings: &Option<RenderSettings>,
    last_paths: Seq<Seq<char>>,
    current_settings: &RenderSettings,
    current_paths: Seq<Seq<char>>,
    has_previews: bool,
) -> bool {
    &&& has_previews
    &&& match last_settings {
        Some(previous) => settings_eq(previous, current_settings) && last_paths == current_paths,
        None => false,
    }
}

/// Check whether cached render previews match the current settings and
/// target paths.
pub fn should_use_cache(
    last_settings: &Option<RenderSettings>,
    last_paths: &Vec<String>,
    current_settings: &RenderSettings,
    current_paths: &Vec<String>,
    has_previews: bool,
) -> (r: bool)
    requires
        last_settings matches Some(s) ==> s.wf(),
        current_settings.wf(),
    ensures
        r == should_reuse(
            last_settings,
            path_views(last_paths@),
            current_settings,
            path_views(current_paths@),
            has_previews,
        ),
{
    if !has_previews {
        return false;
    }
    match last_settings {
        Some(previous) => {
            if settings_equal(previous, current_settings) {
                paths_equal(last_paths, current_paths)
            } else {
                false
            }
        },
        None => false,
    }
}

} // verus!
