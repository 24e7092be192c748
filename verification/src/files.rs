//! Font file names: extension handling, drop-path classification,
//! scan statistics, and display formatting for sizes and summaries.
//!
//! Paths are handled as plain strings with `/` as the separator; a file
//! name's extension is what follows its last `.`, provided something
//! precedes that `.`.

use vstd::prelude::*;

use crate::assoc::lemma_pairs_map_absent;
use crate::assoc::lemma_pairs_map_index;
use crate::assoc::lemma_pairs_map_update;
use crate::assoc::pairs_find_index;
use crate::assoc::pairs_map;
use crate::assoc::pairs_unique;
use crate::text::dec_seq;
use crate::text::lemma_trim_back_at;
use crate::text::lemma_trim_front_at;
use crate::text::lower_seq;
use crate::text::push_char;
use crate::text::str_eq;
use crate::text::to_lower_ascii;
use crate::text::trim_back_if;
use crate::text::trim_front_if;
use crate::text::u64_to_dec;

verus! {

/// What follows the last occurrence of `c`, or the whole sequence when
/// `c` does not occur.
pub open spec fn suffix_after_last(s: Seq<char>, c: char) -> Seq<char>
    decreases s.len(),
{
    if s.len() == 0 {
        Seq::empty()
    } else if s.last() == c {
        Seq::empty()
    } else {
        suffix_after_last(s.drop_last(), c).push(s.last())
    }
}

proof fn lemma_suffix_after_last_at(s: Seq<char>, c: char, i: int)
    requires
        0 <= i < s.len(),
        s[i] == c,
        forall|j: int| i < j < s.len() ==> s[j] != c,
    ensures
        suffix_after_last(s, c) == s.subrange(i + 1, s.len() as int),
    decreases s.len(),
{
    if i == s.len() - 1 {
        assert(suffix_after_last(s, c) =~= s.subrange(i + 1, s.len() as int));
    } else {
        assert(s.last() != c);
        lemma_suffix_after_last_at(s.drop_last(), c, i);
        assert(suffix_after_last(s, c) =~= s.subrange(i + 1, s.len() as int));
    }
}

proof fn lemma_suffix_after_last_none(s: Seq<char>, c: char)
    requires
        forall|j: int| 0 <= j < s.len() ==> s[j] != c,
    ensures
        suffix_after_last(s, c) == s,
    decreases s.len(),
{
    if s.len() > 0 {
        lemma_suffix_after_last_none(s.drop_last(), c);
        assert(suffix_after_last(s, c) =~= s);
    }
}

/// The file-name component of a path: what follows the last `/`.
pub open spec fn path_file_name(p: Seq<char>) -> Seq<char> {
    suffix_after_last(p, '/')
}

/// The extension of a path: what follows the last `.` of the file name,
/// provided at least one character precedes that `.` in the file name.
pub open spec fn path_extension(p: Seq<char>) -> Option<Seq<char>> {
    let name = path_file_name(p);
    let ext = suffix_after_last(name, '.');
    if name.len() > ext.len() + 1 {
        Some(ext)
    } else {
        None
    }
}

/// The file stem of a path: the file name with its extension and the
/// separating `.` removed; the whole file name when it has no extension.
pub open spec fn path_file_stem(p: Seq<char>) -> Seq<char> {
    let name = path_file_name(p);
    let ext = suffix_after_last(name, '.');
    if name.len() > ext.len() + 1 {
        name.take(name.len() - ext.len() - 1)
    } else {
        name
    }
}

/// Index of the last occurrence of `c` in `s`, if any.
fn find_last(s: &str, c: char) -> (r: Option<usize>)
    ensures
        match r {
            Some(i) => i < s@.len() && s@[i as int] == c && forall|j: int|
                i < j < s@.len() ==> s@[j] != c,
            None => forall|j: int| 0 <= j < s@.len() ==> s@[j] != c,
        },
{
    let n: usize = s.unicode_len();
    let mut i: usize = n;
    while i > 0
        invariant
            i <= n,
            n == s@.len(),
            forall|j: int| i <= j < s@.len() ==> s@[j] != c,
        decreases i,
    {
        i = i - 1;
        if s.get_char(i) == c {
            return Some(i);
        }
    }
    None
}

/// The file-name component of `p`, as a borrowed slice.
pub fn file_name_part<'a>(p: &'a str) -> (r: &'a str)
    ensures
        r@ == path_file_name(p@),
{
    let n: usize = p.unicode_len();
    match find_last(p, '/') {
        Some(i) => {
            proof {
                lemma_suffix_after_last_at(p@, '/', i as int);
            }
            p.substring_char(i + 1, n)
        },
        None => {
            proof {
                lemma_suffix_after_last_none(p@, '/');
            }
            p
        },
    }
}

/// The extension of `p`, lowercased not at all: exactly the trailing
/// characters after the file name's last `.`.
pub fn extension_part<'a>(p: &'a str) -> (r: Option<&'a str>)
    ensures
        match r {
            Some(e) => path_extension(p@) == Some(e@),
            None => path_extension(p@) is None,
        },
{
    let name = file_name_part(p);
    let n: usize = name.unicode_len();
    match find_last(name, '.') {
        Some(i) => {
            proof {
                lemma_suffix_after_last_at(name@, '.', i as int);
            }
            if i > 0 {
                Some(name.substring_char(i + 1, n))
            } else {
                None
            }
        },
        None => {
            proof {
                lemma_suffix_after_last_none(name@, '.');
            }
            None
        },
    }
}

/// The file stem of `p`: the file name without its extension.
pub fn file_stem_part<'a>(p: &'a str) -> (r: &'a str)
    ensures
        r@ == path_file_stem(p@),
{
    let name = file_name_part(p);
    let n: usize = name.unicode_len();
    match find_last(name, '.') {
        Some(i) => {
            proof {
                lemma_suffix_after_last_at(name@, '.', i as int);
            }
            if i > 0 {
                proof {
                    assert(name@.take(i as int) =~= name@.take(
                        name@.len() - suffix_after_last(name@, '.').len() - 1,
                    ));
                }
                name.substring_char(0, i)
            } else {
                name
            }
        },
        None => {
            proof {
                lemma_suffix_after_last_none(name@, '.');
            }
            name
        },
    }
}

/// The lowercased extensions recognized as font files.
pub open spec fn is_font_extension(e: Seq<char>) -> bool {
    ||| e == "ttf"@
    ||| e == "otf"@
    ||| e == "ttc"@
    ||| e == "otc"@
    ||| e == "woff"@
    ||| e == "woff2"@
    ||| e == "dfont"@
    ||| e == "eot"@
    ||| e == "svg"@
    ||| e == "pfa"@
    ||| e == "pfb"@
    ||| e == "otb"@
}

/// Whether a lowercased extension is a recognized font extension.
fn extension_supported(e: &str) -> (r: bool)
    ensures
        r == is_font_extension(e@),
{
    str_eq(e, "ttf") || str_eq(e, "otf") || str_eq(e, "ttc") || str_eq(e, "otc") || str_eq(
        e,
        "woff",
    ) || str_eq(e, "woff2") || str_eq(e, "dfont") || str_eq(e, "eot") || str_eq(e, "svg")
        || str_eq(e, "pfa") || str_eq(e, "pfb") || str_eq(e, "otb")
}

/// Whether a path carries a recognized font extension, case-insensitively.
pub open spec fn is_font_path(p: Seq<char>) -> bool {
    match path_extension(p) {
        Some(e) => is_font_extension(lower_seq(e)),
        None => false,
    }
}

/// Determine whether a file path looks like a supported font.
pub fn is_font_file(path: &str) -> (r: bool)
    ensures
        r == is_font_path(path@),
{
    match extension_part(path) {
        Some(e) => {
            let low = to_lower_ascii(e);
            extension_supported(low.as_str())
        },
        None => false,
    }
}

/// Classification for dropped paths.
#[derive(Debug, Clone, Copy, PartialEq, Eq, Structural)]
pub enum DropPathKind {
    FontFile,
    Directory,
    Unsupported,
    Missing,
}

/// Categorize a dropped path to drive validation messaging. The caller
/// supplies what it observed of the filesystem entry: whether the path
/// exists, and whether it is a directory or a regular file.
pub fn classify_drop_path(path: &str, path_exists: bool, is_dir: bool, is_file: bool) -> (r:
    DropPathKind)
    ensures
        !path_exists ==> r == DropPathKind::Missing,
        path_exists && is_dir ==> r == DropPathKind::Directory,
        path_exists && !is_dir && is_file && is_font_path(path@) ==> r == DropPathKind::FontFile,
        path_exists && !is_dir && !(is_file && is_font_path(path@)) ==> r
            == DropPathKind::Unsupported,
{
    if !path_exists {
        return DropPathKind::Missing;
    }
    if is_dir {
        return DropPathKind::Directory;
    }
    if is_file && is_font_file(path) {
        DropPathKind::FontFile
    } else {
        DropPathKind::Unsupported
    }
}

/// Statistics from folder scanning.
#[derive(Debug, Clone)]
pub struct ScanStats {
    pub directories_scanned: usize,
    pub files_checked: usize,
    pub fonts_found: usize,
    pub sample_files: Vec<String>,
}

impl Default for ScanStats {
    /// All counters zero and no sample files.
    fn default() -> (r: Self)
        ensures
            r.directories_scanned == 0,
            r.files_checked == 0,
            r.fonts_found == 0,
            r.sample_files@ == Seq::<String>::empty(),
    {
        ScanStats {
            directories_scanned: 0,
            files_checked: 0,
            fonts_found: 0,
            sample_files: Vec::new(),
        }
    }
}

/// The lowercased font extension of a path, when it has one.
pub open spec fn font_ext_of(p: Seq<char>) -> Option<Seq<char>> {
    match path_extension(p) {
        Some(e) => if is_font_extension(lower_seq(e)) {
            Some(lower_seq(e))
        } else {
            None
        },
        None => None,
    }
}

/// Occurrence counts of recognized font extensions across the paths.
pub open spec fn ext_counts_map(paths: Seq<Seq<char>>) -> Map<Seq<char>, usize>
    decreases paths.len(),
{
    if paths.len() == 0 {
        Map::empty()
    } else {
        let m = ext_counts_map(paths.drop_last());
        match font_ext_of(paths.last()) {
            Some(e) => m.insert(
                e,
                if m.contains_key(e) {
                    (m[e] + 1) as usize
                } else {
                    1 as usize
                },
            ),
            None => m,
        }
    }
}

/// The lowercased font extension of one path, when it has one.
fn font_extension_of(path: &str) -> (r: Option<String>)
    ensures
        match r {
            Some(low) => font_ext_of(path@) == Some(low@),
            None => font_ext_of(path@) is None,
        },
{
    match extension_part(path) {
        Some(e) => {
            let low = to_lower_ascii(e);
            if extension_supported(low.as_str()) {
                Some(low)
            } else {
                None
            }
        },
        None => None,
    }
}

/// Aggregate extension counts for status messaging. Entries appear in
/// the order each extension is first seen.
pub fn extension_stats(paths: &Vec<String>) -> (r: Vec<(String, usize)>)
    ensures
        pairs_unique(r@),
        pairs_map(r@) == ext_counts_map(paths.deep_view()),
{
    let mut out: Vec<(String, usize)> = Vec::new();
    let n = paths.len();
    let mut i: usize = 0;
    while i < n
        invariant
            i <= n,
            n == paths@.len(),
            pairs_unique(out@),
            pairs_map(out@) == ext_counts_map(paths.deep_view().take(i as int)),
            forall|k: int| 0 <= k < out@.len() ==> #[trigger] out@[k].1 <= i,
        decreases n - i,
    {
        let ghost prefix = paths.deep_view().take(i as int);
        let path: &String = &paths[i];
        proof {
            assert(paths.deep_view().take(i + 1).drop_last() =~= prefix);
            assert(paths.deep_view().take(i + 1).last() == path@);
        }
        let ext_found: Option<String> = font_extension_of(path.as_str());
        match ext_found {
            Some(low) => {
                match pairs_find_index(&out, low.as_str()) {
                    Some(j) => {
                        let c: usize = out[j].1;
                        let ghost old_out = out@;
                        proof {
                            lemma_pairs_map_index(out@, j as int);
                        }
                        let key: String = low;
                        out.set(j, (key, c + 1));
                        proof {
                            lemma_pairs_map_update(old_out, j as int, out@[j as int]);
                        }
                    },
                    None => {
                        let ghost old_out = out@;
                        proof {
                            lemma_pairs_map_absent(out@, low@);
                        }
                        out.push((low, 1));
                        proof {
                            assert(out@.drop_last() =~= old_out);
                        }
                    },
                }
            },
            None => {},
        }
        i = i + 1;
    }
    proof {
        assert(paths.deep_view().take(n as int) =~= paths.deep_view());
    }
    out
}

/// A non-negative quotient rounded to the nearest integer, with ties
/// going to the even neighbour.
pub open spec fn round_half_even(num: int, den: int) -> int {
    let q = num / den;
    let rem = num % den;
    if 2 * rem < den {
        q
    } else if 2 * rem > den {
        q + 1
    } else if q % 2 == 0 {
        q
    } else {
        q + 1
    }
}

/// The display text for one byte count: whole bytes below 1024, tenths
/// of a kibibyte below 1024 * 1024, tenths of a mebibyte above, with the
/// tenth rounded to nearest and ties to even.
pub open spec fn file_size_text(bytes: int) -> Seq<char> {
    if bytes < 1024 {
        dec_seq(bytes) + " B"@
    } else if bytes < 1048576 {
        let tenths = round_half_even(bytes * 10, 1024);
        dec_seq(tenths / 10) + "."@ + dec_seq(tenths % 10) + " KB"@
    } else {
        let tenths = round_half_even(bytes * 10, 1048576);
        dec_seq(tenths / 10) + "."@ + dec_seq(tenths % 10) + " MB"@
    }
}

/// One part of an extension summary: `3x .ttf`.
pub open spec fn summary_part(p: (String, usize)) -> Seq<char> {
    dec_seq(p.1 as int) + "x ."@ + p.0@
}

/// Character sequences joined with `, `, in order.
pub open spec fn join_comma_separated(s: Seq<Seq<char>>) -> Seq<char>
    decreases s.len(),
{
    if s.len() == 0 {
        Seq::empty()
    } else if s.len() == 1 {
        s[0]
    } else {
        join_comma_separated(s.drop_last()) + ", "@ + s.last()
    }
}

/// The sequence with `x` inserted before the first element it does not
/// come after in lexicographic order.
pub open spec fn lex_insert(x: Seq<char>, s: Seq<Seq<char>>) -> Seq<Seq<char>>
    decreases s.len(),
{
    if s.len() == 0 {
        seq![x]
    } else if crate::text::lex_le(x, s[0]) {
        seq![x] + s
    } else {
        seq![s[0]] + lex_insert(x, s.drop_first())
    }
}

/// The sequence sorted lexicographically, by repeated insertion.
pub open spec fn lex_sort(s: Seq<Seq<char>>) -> Seq<Seq<char>>
    decreases s.len(),
{
    if s.len() == 0 {
        Seq::empty()
    } else {
        lex_insert(s.last(), lex_sort(s.drop_last()))
    }
}

proof fn lemma_lex_insert_at(s: Seq<Seq<char>>, x: Seq<char>, j: int)
    requires
        0 <= j <= s.len(),
        forall|k: int| 0 <= k < j ==> !crate::text::lex_le(x, #[trigger] s[k]),
        j == s.len() || crate::text::lex_le(x, s[j]),
    ensures
        lex_insert(x, s) == s.subrange(0, j) + seq![x] + s.subrange(j, s.len() as int),
    decreases s.len(),
{
    if s.len() == 0 {
        assert(lex_insert(x, s) =~= s.subrange(0, j) + seq![x] + s.subrange(j, s.len() as int));
    } else if j == 0 {
        assert(crate::text::lex_le(x, s[0]));
        assert(lex_insert(x, s) =~= s.subrange(0, j) + seq![x] + s.subrange(j, s.len() as int));
    } else {
        assert(!crate::text::lex_le(x, s[0]));
        let t = s.drop_first();
        assert(forall|k: int| 0 <= k < j - 1 ==> !crate::text::lex_le(x, #[trigger] t[k])) by {
            assert(forall|k: int| 0 <= k < t.len() ==> t[k] == s[k + 1]);
        }
        assert(j - 1 == t.len() || crate::text::lex_le(x, t[j - 1]));
        lemma_lex_insert_at(t, x, j - 1);
        assert(lex_insert(x, s) =~= s.subrange(0, j) + seq![x] + s.subrange(j, s.len() as int));
    }
}

/// Insert a string into a lexicographically sorted list at its place.
fn insert_string_sorted(out: &mut Vec<String>, x: String)
    ensures
        final(out).deep_view() == lex_insert(x@, old(out).deep_view()),
{
    let n = out.len();
    let mut j: usize = 0;
    while j < n && !crate::text::str_lex_le(x.as_str(), out[j].as_str())
        invariant
            j <= n,
            n == out@.len(),
            out@ == old(out)@,
            forall|k: int| 0 <= k < j ==> !crate::text::lex_le(x@, #[trigger] out.deep_view()[k]),
        decreases n - j,
    {
        j = j + 1;
    }
    proof {
        lemma_lex_insert_at(out.deep_view(), x@, j as int);
    }
    let ghost x_view = x@;
    out.insert(j, x);
    proof {
        assert(final(out)@ =~= old(out)@.insert(j as int, final(out)@[j as int]));
        assert forall|k: int|
            0 <= k < final(out).deep_view().len() implies final(out).deep_view()[k] == (old(
            out,
        ).deep_view().subrange(0, j as int) + seq![x_view] + old(out).deep_view().subrange(
            j as int,
            old(out).deep_view().len() as int,
        ))[k] by {
            if k < j {
                assert(final(out)@[k] == old(out)@[k]);
            } else if k == j {
                assert(final(out)@[k]@ == x_view);
            } else {
                assert(final(out)@[k] == old(out)@[k - 1]);
            }
        }
        assert(final(out).deep_view() =~= old(out).deep_view().subrange(0, j as int)
            + seq![x_view] + old(out).deep_view().subrange(
            j as int,
            old(out).deep_view().len() as int,
        ));
    }
}

/// Format extension statistics as a human-readable summary, sorted
/// lexicographically by part; empty statistics give an empty string.
pub fn format_extension_summary(ext_stats: &Vec<(String, usize)>) -> (r: String)
    ensures
        ext_stats@.len() == 0 ==> r@ == Seq::<char>::empty(),
        ext_stats@.len() > 0 ==> r@ == " Formats: "@ + join_comma_separated(
            lex_sort(ext_stats@.map_values(|p: (String, usize)| summary_part(p))),
        ),
{
    if ext_stats.len() == 0 {
        return String::new();
    }
    let ghost part_views = ext_stats@.map_values(|p: (String, usize)| summary_part(p));
    let mut sorted: Vec<String> = Vec::new();
    let n = ext_stats.len();
    let mut i: usize = 0;
    while i < n
        invariant
            i <= n,
            n == ext_stats@.len(),
            part_views == ext_stats@.map_values(|p: (String, usize)| summary_part(p)),
            sorted.deep_view() == lex_sort(part_views.take(i as int)),
        decreases n - i,
    {
        let mut part = u64_to_dec(ext_stats[i].1 as u64);
        part.append("x .");
        part.append(ext_stats[i].0.as_str());
        proof {
            assert(part@ == part_views[i as int]);
            assert(part_views.take(i + 1).drop_last() =~= part_views.take(i as int));
            assert(part_views.take(i + 1).last() == part_views[i as int]);
        }
        insert_string_sorted(&mut sorted, part);
        i = i + 1;
    }
    proof {
        assert(part_views.take(n as int) =~= part_views);
    }
    let ghost sorted_views = sorted.deep_view();
    let mut out = String::from_str(" Formats: ");
    let m = sorted.len();
    proof {
        lemma_lex_sort_len(part_views);
        assert(sorted.deep_view().len() == sorted@.len());
    }
    let mut k: usize = 0;
    while k < m
        invariant
            k <= m,
            m == sorted@.len(),
            m > 0,
            sorted.deep_view() == sorted_views,
            k == 0 ==> out@ == " Formats: "@,
            k > 0 ==> out@ == " Formats: "@ + join_comma_separated(sorted_views.take(k as int)),
        decreases m - k,
    {
        if k > 0 {
            out.append(", ");
        }
        out.append(sorted[k].as_str());
        proof {
            assert(sorted_views.take(k + 1).drop_last() =~= sorted_views.take(k as int));
            assert(sorted_views.take(k + 1).last() == sorted_views[k as int]);
            assert(sorted_views[k as int] == sorted@[k as int]@);
            if k > 0 {
                assert(out@ =~= " Formats: "@ + join_comma_separated(sorted_views.take(k + 1)));
            } else {
                assert(join_comma_separated(sorted_views.take(1)) == sorted_views[0]);
                assert(out@ =~= " Formats: "@ + join_comma_separated(sorted_views.take(k + 1)));
            }
        }
        k = k + 1;
    }
    proof {
        assert(sorted_views.take(m as int) =~= sorted_views);
    }
    out
}

/// Sorting keeps the number of parts.
proof fn lemma_lex_sort_len(s: Seq<Seq<char>>)
    ensures
        lex_sort(s).len() == s.len(),
    decreases s.len(),
{
    if s.len() > 0 {
        lemma_lex_sort_len(s.drop_last());
        lemma_lex_insert_len(s.last(), lex_sort(s.drop_last()));
    }
}

proof fn lemma_lex_insert_len(x: Seq<char>, s: Seq<Seq<char>>)
    ensures
        lex_insert(x, s).len() == s.len() + 1,
    decreases s.len(),
{
    if s.len() > 0 && !crate::text::lex_le(x, s[0]) {
        lemma_lex_insert_len(x, s.drop_first());
    }
}

/// Get the supported formats as display text, alphabetically ordered.
pub fn supported_formats_text() -> (r: String)
    ensures
        r@ == ".dfont, .eot, .otb, .otc, .otf, .pfa, .pfb, .svg, .ttc, .ttf, .woff, .woff2"@,
{
    String::from_str(".dfont, .eot, .otb, .otc, .otf, .pfa, .pfb, .svg, .ttc, .ttf, .woff, .woff2")
}

/// Format file size for display.
pub fn format_file_size(bytes: u64) -> (r: String)
    ensures
        r@ == file_size_text(bytes as int),
{
    if bytes < 1024 {
        let mut out = u64_to_dec(bytes);
        out.append(" B");
        return out;
    }
    let wide: u128 = bytes as u128;
    let (den, unit): (u128, &str) = if bytes < 1048576 {
        (1024, " KB")
    } else {
        (1048576, " MB")
    };
    let num: u128 = wide * 10;
    let q: u128 = num / den;
    let rem: u128 = num % den;
    let tenths_wide: u128 = if 2 * rem < den {
        q
    } else if 2 * rem > den {
        q + 1
    } else if q % 2 == 0 {
        q
    } else {
        q + 1
    };
    let tenths: u64 = (tenths_wide / 10) as u64;
    let frac: u64 = (tenths_wide % 10) as u64;
    let mut out = u64_to_dec(tenths);
    out.append(".");
    let frac_text = u64_to_dec(frac);
    out.append(frac_text.as_str());
    out.append(unit);
    out
}

/// ASCII letters and digits survive sanitizing; everything else
/// becomes an underscore.
pub open spec fn is_word_char(c: char) -> bool {
    ('0' <= c && c <= '9') || ('a' <= c && c <= 'z') || ('A' <= c && c <= 'Z')
}

/// Replace every character that is not an ASCII letter or digit with `_`.
pub open spec fn underscore_map(s: Seq<char>) -> Seq<char> {
    s.map_values(
        |c: char|
            if is_word_char(c) {
                c
            } else {
                '_'
            },
    )
}

/// Collapse every run of consecutive underscores to a single underscore.
pub open spec fn collapse_underscores(s: Seq<char>) -> Seq<char>
    decreases s.len(),
{
    if s.len() == 0 {
        Seq::empty()
    } else if s.len() >= 2 && s[0] == '_' && s[1] == '_' {
        collapse_underscores(s.drop_first())
    } else {
        seq![s[0]] + collapse_underscores(s.drop_first())
    }
}

proof fn lemma_collapse_push(s: Seq<char>, c: char)
    ensures
        collapse_underscores(s.push(c)) == if s.len() > 0 && s.last() == '_' && c == '_' {
            collapse_underscores(s)
        } else {
            collapse_underscores(s).push(c)
        },
    decreases s.len(),
{
    let t = s.push(c);
    if s.len() == 0 {
        assert(t.drop_first() =~= Seq::<char>::empty());
        assert(collapse_underscores(t.drop_first()) =~= Seq::<char>::empty());
        assert(collapse_underscores(t) =~= collapse_underscores(s).push(c));
    } else {
        assert(t.drop_first() =~= s.drop_first().push(c));
        lemma_collapse_push(s.drop_first(), c);
        if s.len() == 1 {
            assert(s.drop_first() =~= Seq::<char>::empty());
            assert(collapse_underscores(s.drop_first()) =~= Seq::<char>::empty());
            if s.last() == '_' && c == '_' {
                assert(collapse_underscores(t) =~= collapse_underscores(s));
            } else {
                assert(collapse_underscores(t) =~= collapse_underscores(s).push(c));
            }
        } else {
            assert(s.drop_first().last() == s.last());
            if t[0] == '_' && t[1] == '_' {
                if s.last() == '_' && c == '_' {
                    assert(collapse_underscores(t) =~= collapse_underscores(s));
                } else {
                    assert(collapse_underscores(t) =~= collapse_underscores(s).push(c));
                }
            } else {
                if s.last() == '_' && c == '_' {
                    assert(collapse_underscores(t) =~= collapse_underscores(s));
                } else {
                    assert(collapse_underscores(t) =~= collapse_underscores(s).push(c));
                }
            }
        }
    }
}

/// An underscore, as a trimming predicate.
pub open spec fn underscore_pred() -> spec_fn(char) -> bool {
    |c: char| c == '_'
}

/// A sanitized file stem: lowercase the name, replace everything but
/// ASCII letters and digits with underscores, collapse underscore runs,
/// trim underscores at both ends, and keep at most 40 characters.
pub open spec fn sanitized_stem(s: Seq<char>) -> Seq<char> {
    let collapsed = collapse_underscores(underscore_map(lower_seq(s)));
    let trimmed = trim_back_if(trim_front_if(collapsed, underscore_pred()), underscore_pred());
    if trimmed.len() <= 40 {
        trimmed
    } else {
        trimmed.take(40)
    }
}

/// Make a filesystem-safe filename stem from user-facing font names.
pub fn sanitized_file_stem(name: &str) -> (r: String)
    ensures
        r@ == sanitized_stem(name@),
{
    let low = to_lower_ascii(name);
    let lowered: &str = low.as_str();
    let n: usize = lowered.unicode_len();

    // Replace everything but ASCII letters and digits with underscores.
    let mut mapped = String::new();
    let mut i: usize = 0;
    while i < n
        invariant
            i <= n,
            n == lowered@.len(),
            mapped@ == underscore_map(lowered@.take(i as int)),
        decreases n - i,
    {
        let c = lowered.get_char(i);
        let u = c as u32;
        let d: char = if (48 <= u && u <= 57) || (97 <= u && u <= 122) || (65 <= u && u <= 90) {
            c
        } else {
            '_'
        };
        proof {
            assert(underscore_map(lowered@.take(i + 1)) =~= underscore_map(
                lowered@.take(i as int),
            ).push(d));
        }
        push_char(&mut mapped, d);
        i = i + 1;
    }
    proof {
        assert(lowered@.take(n as int) =~= lowered@);
    }

    // Collapse runs of underscores.
    let mstr: &str = mapped.as_str();
    let mn: usize = mstr.unicode_len();
    let mut collapsed = String::new();
    let mut j: usize = 0;
    while j < mn
        invariant
            j <= mn,
            mn == mstr@.len(),
            collapsed@ == collapse_underscores(mstr@.take(j as int)),
        decreases mn - j,
    {
        let c = mstr.get_char(j);
        proof {
            lemma_collapse_push(mstr@.take(j as int), c);
            assert(mstr@.take(j + 1) =~= mstr@.take(j as int).push(c));
        }
        if j > 0 && c == '_' && mstr.get_char(j - 1) == '_' {
            proof {
                assert(mstr@.take(j as int).last() == mstr@[j - 1]);
            }
        } else {
            push_char(&mut collapsed, c);
        }
        j = j + 1;
    }
    proof {
        assert(mstr@.take(mn as int) =~= mstr@);
    }

    // Trim underscores at both ends.
    let cstr: &str = collapsed.as_str();
    let cn: usize = cstr.unicode_len();
    let mut front: usize = 0;
    while front < cn && cstr.get_char(front) == '_'
        invariant
            front <= cn,
            cn == cstr@.len(),
            forall|k: int| 0 <= k < front ==> cstr@[k] == '_',
        decreases cn - front,
    {
        front = front + 1;
    }
    if front == cn {
        proof {
            lemma_trim_front_at(cstr@, underscore_pred(), cn as int);
            assert(cstr@.subrange(cn as int, cn as int) =~= Seq::<char>::empty());
            assert(trim_back_if(Seq::<char>::empty(), underscore_pred())
                =~= Seq::<char>::empty());
        }
        return String::new();
    }
    let mut back: usize = cn;
    while back > front && cstr.get_char(back - 1) == '_'
        invariant
            front <= back <= cn,
            cn == cstr@.len(),
            forall|k: int| back <= k < cn ==> cstr@[k] == '_',
            front < cn,
            !(cstr@[front as int] == '_'),
        decreases back,
    {
        back = back - 1;
    }
    let trimmed: &str = cstr.substring_char(front, back);
    proof {
        lemma_trim_front_at(cstr@, underscore_pred(), front as int);
        let mid = cstr@.subrange(front as int, cn as int);
        assert(back > front);
        assert(mid[back - front - 1] == cstr@[back - 1]);
        lemma_trim_back_at(mid, underscore_pred(), back - front);
        assert(mid.subrange(0, back - front) =~= cstr@.subrange(front as int, back as int));
    }

    // Keep at most 40 characters.
    let tn: usize = trimmed.unicode_len();
    if tn <= 40 {
        proof {
            assert(trimmed@.take(trimmed@.len() as int) =~= trimmed@);
        }
        String::from_str(trimmed)
    } else {
        String::from_str(trimmed.substring_char(0, 40))
    }
}

/// ASCII whitespace, as trimmed from color inputs.
pub open spec fn is_ascii_space(c: char) -> bool {
    c == ' ' || c == '\t' || c == '\n' || c == '\r'
}

/// An ASCII whitespace character, as a trimming predicate.
pub open spec fn space_pred() -> spec_fn(char) -> bool {
    |c: char| is_ascii_space(c)
}

/// The value of a hexadecimal digit, or `-1` for any other character.
pub open spec fn hex_val(c: char) -> int {
    if '0' <= c && c <= '9' {
        c as u32 - 48
    } else if 'a' <= c && c <= 'f' {
        c as u32 - 87
    } else if 'A' <= c && c <= 'F' {
        c as u32 - 55
    } else {
        -1
    }
}

/// The byte encoded by two hexadecimal digits at `i` and `i + 1`.
pub open spec fn hex_pair(s: Seq<char>, i: int) -> int {
    hex_val(s[i]) * 16 + hex_val(s[i + 1])
}

/// The hexadecimal region of a color string: ASCII whitespace trimmed
/// at both ends and a leading `#` removed.
pub open spec fn hex_region(s: Seq<char>) -> Seq<char> {
    let t = trim_back_if(trim_front_if(s, space_pred()), space_pred());
    if t.len() > 0 && t[0] == '#' {
        t.drop_first()
    } else {
        t
    }
}

/// The color encoded by exactly six or eight hexadecimal digits; a
/// missing alpha pair defaults to 255.
pub open spec fn rgba_parse_digits(h: Seq<char>) -> Option<(u8, u8, u8, u8)> {
    if h.len() != 6 && h.len() != 8 {
        None
    } else if exists|i: int| 0 <= i < h.len() && hex_val(#[trigger] h[i]) < 0 {
        None
    } else {
        Some(
            (
                hex_pair(h, 0) as u8,
                hex_pair(h, 2) as u8,
                hex_pair(h, 4) as u8,
                if h.len() == 8 {
                    hex_pair(h, 6) as u8
                } else {
                    255u8
                },
            ),
        )
    }
}

/// The parse of a hex RGBA color string: optional ASCII whitespace and
/// `#` prefix, then exactly six or eight hexadecimal digits.
pub open spec fn rgba_hex_spec(s: Seq<char>) -> Option<(u8, u8, u8, u8)> {
    rgba_parse_digits(hex_region(s))
}

/// Whether a character is ASCII whitespace.
fn is_space_char(c: char) -> (r: bool)
    ensures
        r == is_ascii_space(c),
{
    c == ' ' || c == '\t' || c == '\n' || c == '\r'
}

/// The value of one hexadecimal digit character.
fn hex_digit(c: char) -> (r: Option<u8>)
    ensures
        match r {
            Some(v) => hex_val(c) == v as int,
            None => hex_val(c) == -1,
        },
{
    let u = c as u32;
    if 48 <= u && u <= 57 {
        Some((u - 48) as u8)
    } else if 97 <= u && u <= 102 {
        Some((u - 87) as u8)
    } else if 65 <= u && u <= 70 {
        Some((u - 55) as u8)
    } else {
        None
    }
}

/// The byte at positions `i`, `i + 1` of a hex string.
fn hex_byte(h: &str, i: usize) -> (r: Option<u8>)
    requires
        i + 2 <= h@.len(),
        h@.len() <= usize::MAX,
    ensures
        match r {
            Some(v) => hex_pair(h@, i as int) == v as int && hex_val(h@[i as int]) >= 0 && hex_val(
                h@[i + 1],
            ) >= 0,
            None => hex_val(h@[i as int]) < 0 || hex_val(h@[i + 1]) < 0,
        },
{
    let hi = match hex_digit(h.get_char(i)) {
        Some(v) => v,
        None => {
            return None;
        },
    };
    let lo = match hex_digit(h.get_char(i + 1)) {
        Some(v) => v,
        None => {
            return None;
        },
    };
    Some(hi * 16 + lo)
}

/// Parse a hex RGBA color string into a tuple; accepts `#RRGGBB` or
/// `#RRGGBBAA`, with or without the `#`.
pub fn parse_rgba_hex(value: &str) -> (r: Option<(u8, u8, u8, u8)>)
    ensures
        r == rgba_hex_spec(value@),
{
    let n: usize = value.unicode_len();
    let mut front: usize = 0;
    while front < n && is_space_char(value.get_char(front))
        invariant
            front <= n,
            n == value@.len(),
            forall|k: int| 0 <= k < front ==> is_ascii_space(value@[k]),
        decreases n - front,
    {
        front = front + 1;
    }
    if front == n {
        proof {
            lemma_trim_front_at(value@, space_pred(), n as int);
            assert(value@.subrange(n as int, n as int) =~= Seq::<char>::empty());
            assert(trim_back_if(Seq::<char>::empty(), space_pred()) =~= Seq::<char>::empty());
        }
        return None;
    }
    let mut back: usize = n;
    while back > front && is_space_char(value.get_char(back - 1))
        invariant
            front <= back <= n,
            n == value@.len(),
            forall|k: int| back <= k < n ==> is_ascii_space(value@[k]),
            front < n,
            !is_ascii_space(value@[front as int]),
        decreases back,
    {
        back = back - 1;
    }
    let trimmed: &str = value.substring_char(front, back);
    proof {
        lemma_trim_front_at(value@, space_pred(), front as int);
        let mid = value@.subrange(front as int, n as int);
        assert(trim_front_if(value@, space_pred()) == mid);
        assert(mid[back - front - 1] == value@[back - 1]);
        assert forall|j: int| back - front <= j < mid.len() implies is_ascii_space(mid[j]) by {
            assert(mid[j] == value@[front + j]);
        }
        lemma_trim_back_at(mid, space_pred(), back - front);
        assert(mid.subrange(0, back - front) =~= value@.subrange(front as int, back as int));
        assert(trim_back_if(mid, space_pred()) == value@.subrange(front as int, back as int));
    }
    let tn: usize = trimmed.unicode_len();
    let h: &str = if tn > 0 && trimmed.get_char(0) == '#' {
        proof {
            assert(trimmed@.subrange(1, tn as int) =~= trimmed@.drop_first());
        }
        trimmed.substring_char(1, tn)
    } else {
        trimmed
    };
    let hn: usize = h.unicode_len();
    proof {
        assert(trim_back_if(trim_front_if(value@, space_pred()), space_pred()) == trimmed@);
        assert(hex_region(value@) == h@);
    }
    if hn != 6 && hn != 8 {
        return None;
    }
    let red = match hex_byte(h, 0) {
        Some(v) => v,
        None => {
            proof {
                assert(exists|i: int|
                    0 <= i < h@.len() && hex_val(#[trigger] h@[i]) < 0) by {
                    if hex_val(h@[0]) < 0 {
                        assert(hex_val(h@[0]) < 0);
                    } else {
                        assert(hex_val(h@[1]) < 0);
                    }
                }
            }
            return None;
        },
    };
    let green = match hex_byte(h, 2) {
        Some(v) => v,
        None => {
            proof {
                assert(exists|i: int|
                    0 <= i < h@.len() && hex_val(#[trigger] h@[i]) < 0) by {
                    if hex_val(h@[2]) < 0 {
                        assert(hex_val(h@[2]) < 0);
                    } else {
                        assert(hex_val(h@[3]) < 0);
                    }
                }
            }
            return None;
        },
    };
    let blue = match hex_byte(h, 4) {
        Some(v) => v,
        None => {
            proof {
                assert(exists|i: int|
                    0 <= i < h@.len() && hex_val(#[trigger] h@[i]) < 0) by {
                    if hex_val(h@[4]) < 0 {
                        assert(hex_val(h@[4]) < 0);
                    } else {
                        assert(hex_val(h@[5]) < 0);
                    }
                }
            }
            return None;
        },
    };
    let alpha: u8 = if hn == 8 {
        match hex_byte(h, 6) {
            Some(v) => v,
            None => {
                proof {
                    assert(exists|i: int|
                        0 <= i < h@.len() && hex_val(#[trigger] h@[i]) < 0) by {
                        if hex_val(h@[6]) < 0 {
                            assert(hex_val(h@[6]) < 0);
                        } else {
                            assert(hex_val(h@[7]) < 0);
                        }
                    }
                }
                return None;
            },
        }
    } else {
        255
    };
    proof {
        assert(forall|i: int| 0 <= i < h@.len() ==> hex_val(#[trigger] h@[i]) >= 0) by {
            assert forall|i: int| 0 <= i < h@.len() implies hex_val(#[trigger] h@[i]) >= 0 by {
                if i == 0 || i == 1 {
                    assert(hex_val(h@[0]) >= 0 && hex_val(h@[1]) >= 0);
                } else if i == 2 || i == 3 {
                    assert(hex_val(h@[2]) >= 0 && hex_val(h@[3]) >= 0);
                } else if i == 4 || i == 5 {
                    assert(hex_val(h@[4]) >= 0 && hex_val(h@[5]) >= 0);
                } else {
                    assert(hex_val(h@[6]) >= 0 && hex_val(h@[7]) >= 0);
                }
            }
        }
    }
    Some((red, green, blue, alpha))
}

} // verus!
