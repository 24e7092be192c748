//! Discovery query translation: user-facing search criteria become a
//! query object for the discovery search engine, with every facet
//! combined by AND semantics — facets narrow, never broaden.
//!
//! Tag lists are parsed through the search engine's own tag parser;
//! name patterns are compiled as regular expressions. The directory
//! walk itself is the engine's work, reached through a trait.

use vstd::prelude::*;

use crate::TestypfError;
use crate::TestypfResult;
use crate::text::concat_str;
use crate::text::has_prefix;

verus! {

/// Search criteria for font discovery.
#[derive(Debug)]
pub struct SearchCriteria {
    /// Name pattern to search for (a regular expression).
    pub name_pattern: Option<String>,
    /// Required OpenType features (for example `smcp`, `liga`).
    pub features: Vec<String>,
    /// Required OpenType scripts (for example `latn`, `cyrl`).
    pub scripts: Vec<String>,
    /// Required variation axes (for example `wght`, `wdth`).
    pub axes: Vec<String>,
    /// Only match variable fonts.
    pub variable_only: bool,
    /// Follow symlinks when scanning directories.
    pub follow_symlinks: bool,
}

impl Default for SearchCriteria {
    /// Criteria that impose no constraints.
    fn default() -> (r: SearchCriteria)
        ensures
            r.name_pattern is None,
            r.features@ == Seq::<String>::empty(),
            r.scripts@ == Seq::<String>::empty(),
            r.axes@ == Seq::<String>::empty(),
            !r.variable_only,
            !r.follow_symlinks,
    {
        SearchCriteria {
            name_pattern: None,
            features: Vec::new(),
            scripts: Vec::new(),
            axes: Vec::new(),
            variable_only: false,
            follow_symlinks: false,
        }
    }
}

/// A tag string the engine's parser accepts: one to four printable
/// ASCII characters.
pub open spec fn valid_tag(s: Seq<char>) -> bool {
    1 <= s.len() <= 4 && forall|i: int| 0 <= i < s.len() ==> ' ' <= #[trigger] s[i] <= '~'
}

/// The numeric value of a tag: its characters as big-endian bytes,
/// padded to four with spaces.
pub open spec fn tag_value_of(s: Seq<char>) -> u32 {
    let b0 = if s.len() > 0 {
        s[0] as u32
    } else {
        32
    };
    let b1 = if s.len() > 1 {
        s[1] as u32
    } else {
        32
    };
    let b2 = if s.len() > 2 {
        s[2] as u32
    } else {
        32
    };
    let b3 = if s.len() > 3 {
        s[3] as u32
    } else {
        32
    };
    (b0 * 0x1000000 + b1 * 0x10000 + b2 * 0x100 + b3) as u32
}

/// Every tag in the list is valid.
pub open spec fn all_tags_valid(items: Seq<Seq<char>>) -> bool {
    forall|i: int| 0 <= i < items.len() ==> valid_tag(#[trigger] items[i])
}

/// The numeric values of a tag list.
pub open spec fn tag_values_of(items: Seq<Seq<char>>) -> Seq<u32> {
    items.map_values(|s: Seq<char>| tag_value_of(s))
}

/// Relies on `typg_core::query::parse_tag_list`, which parses each
/// string with `typg_core::tags::tag4`: a string parses exactly when it
/// is one to four printable ASCII characters (bytes 0x20 to 0x7e), and
/// the parsed tag holds those bytes padded to four with spaces; the
/// first failure fails the whole list.
#[verifier::external_body]
fn parse_tag_strings(items: &Vec<String>) -> (r: Result<Vec<u32>, String>)
    ensures
        match r {
            Ok(v) => all_tags_valid(items.deep_view()) && v@ == tag_values_of(items.deep_view()),
            Err(_) => !all_tags_valid(items.deep_view()),
        },
{
    match typg_core::query::parse_tag_list(items.as_slice()) {
        Ok(tags) => Ok(
            tags.into_iter().map(|t| u32::from_be_bytes(t.to_be_bytes())).collect(),
        ),
        Err(e) => Err(e.to_string()),
    }
}

#[verifier::external_type_specification]
#[verifier::external_body]
pub struct ExRegex(regex::Regex);

/// Whether a pattern compiles as a regular expression; compilation
/// depends on the pattern text alone.
pub uninterp spec fn regex_compiles(pattern: Seq<char>) -> bool;

/// Relies on `regex::Regex::new`: compiles the pattern, succeeding or
/// failing on its text alone.
#[verifier::external_body]
fn compile_regex(pattern: &str) -> (r: Result<regex::Regex, String>)
    ensures
        r is Ok <==> regex_compiles(pattern@),
{
    match regex::Regex::new(pattern) {
        Ok(re) => Ok(re),
        Err(e) => Err(e.to_string()),
    }
}

/// The query handed to the discovery search engine: parsed tag values,
/// the variable-only flag, and the compiled name patterns. A match must
/// satisfy every facet; an empty facet imposes no constraint.
#[derive(Debug)]
pub struct DiscoveryQuery {
    /// Feature tags a match must support, as parsed tag values.
    pub features: Vec<u32>,
    /// Script tags a match must support, as parsed tag values.
    pub scripts: Vec<u32>,
    /// Variation axes a match must define, as parsed tag values.
    pub axes: Vec<u32>,
    /// Only variable fonts match.
    pub variable_only: bool,
    /// Compiled name patterns; a match's name must satisfy one of them.
    pub name_patterns: Vec<regex::Regex>,
}

/// One face the search engine found, as plain values.
#[derive(Debug)]
pub struct RawFaceMatch {
    /// Filesystem path of the font file.
    pub path: String,
    /// Face index within a collection file, when applicable.
    pub ttc_index: Option<u32>,
    /// Names extracted from the font.
    pub names: Vec<String>,
    /// OpenType feature tags present in the font.
    pub feature_tags: Vec<String>,
    /// OpenType script tags present in the font.
    pub script_tags: Vec<String>,
    /// Whether the font is a variable font.
    pub is_variable: bool,
}

/// The mathematical content of a face match.
#[verifier::ext_equal]
pub struct FaceMatchView {
    pub path: Seq<char>,
    pub ttc_index: Option<u32>,
    pub names: Seq<Seq<char>>,
    pub feature_tags: Seq<Seq<char>>,
    pub script_tags: Seq<Seq<char>>,
    pub is_variable: bool,
}

impl View for RawFaceMatch {
    type V = FaceMatchView;

    open spec fn view(&self) -> FaceMatchView {
        FaceMatchView {
            path: self.path@,
            ttc_index: self.ttc_index,
            names: self.names.deep_view(),
            feature_tags: self.feature_tags.deep_view(),
            script_tags: self.script_tags.deep_view(),
            is_variable: self.is_variable,
        }
    }
}

/// Result from a font discovery search.
#[derive(Debug)]
pub struct FontDiscoveryResult {
    /// Path to the font file.
    pub path: String,
    /// Font names extracted from the file.
    pub names: Vec<String>,
    /// OpenType feature tags present in the font.
    pub features: Vec<String>,
    /// OpenType script tags present in the font.
    pub scripts: Vec<String>,
    /// Whether the font is a variable font.
    pub is_variable: bool,
    /// Collection face index if applicable.
    pub ttc_index: Option<u32>,
}

/// The mathematical content of a discovery result.
#[verifier::ext_equal]
pub struct DiscoveryResultView {
    pub path: Seq<char>,
    pub names: Seq<Seq<char>>,
    pub features: Seq<Seq<char>>,
    pub scripts: Seq<Seq<char>>,
    pub is_variable: bool,
    pub ttc_index: Option<u32>,
}

impl View for FontDiscoveryResult {
    type V = DiscoveryResultView;

    open spec fn view(&self) -> DiscoveryResultView {
        DiscoveryResultView {
            path: self.path@,
            names: self.names.deep_view(),
            features: self.features.deep_view(),
            scripts: self.scripts.deep_view(),
            is_variable: self.is_variable,
            ttc_index: self.ttc_index,
        }
    }
}

/// The discovery result carrying over one face match's content.
pub open spec fn result_of_match(m: FaceMatchView) -> DiscoveryResultView {
    DiscoveryResultView {
        path: m.path,
        names: m.names,
        features: m.feature_tags,
        scripts: m.script_tags,
        is_variable: m.is_variable,
        ttc_index: m.ttc_index,
    }
}

impl FontDiscoveryResult {
    /// Carry one engine match over into a discovery result.
    pub fn from_match(m: RawFaceMatch) -> (r: FontDiscoveryResult)
        ensures
            r@ == result_of_match(m@),
    {
        let r = FontDiscoveryResult {
            path: m.path,
            names: m.names,
            features: m.feature_tags,
            scripts: m.script_tags,
            is_variable: m.is_variable,
            ttc_index: m.ttc_index,
        };
        proof {
            assert(r@ =~= result_of_match(m@));
        }
        r
    }
}

/// The views of a sequence of discovery results.
pub open spec fn results_view(s: Seq<FontDiscoveryResult>) -> Seq<DiscoveryResultView> {
    s.map_values(|d: FontDiscoveryResult| d@)
}

/// The views of a sequence of face matches.
pub open spec fn matches_view(s: Seq<RawFaceMatch>) -> Seq<FaceMatchView> {
    s.map_values(|m: RawFaceMatch| m@)
}

/// The discovery results carried over from a sequence of face matches,
/// in order.
pub open spec fn mapped_results(s: Seq<RawFaceMatch>) -> Seq<DiscoveryResultView> {
    s.map_values(|m: RawFaceMatch| result_of_match(m@))
}

/// The discovery search engine: walks directories and returns the
/// faces matching a query. Implementations are injected; nothing is
/// assumed of their answers.
pub trait DiscoverySearchEngine {
    /// Search the given roots; the engine may parallelize as the
    /// `jobs` hint suggests.
    fn search(
        &mut self,
        roots: &Vec<String>,
        query: &DiscoveryQuery,
        follow_symlinks: bool,
        jobs: Option<u32>,
    ) -> Result<Vec<RawFaceMatch>, String>;
}

/// Map a search outcome into the library's result type: every match is
/// carried over in order, and an engine failure becomes
/// `DiscoveryFailed` with its reason.
pub fn map_search_outcome(outcome: Result<Vec<RawFaceMatch>, String>) -> (r: TestypfResult<
    Vec<FontDiscoveryResult>,
>)
    ensures
        match outcome {
            Ok(ms) => (match r {
                Ok(v) => results_view(v@) == mapped_results(ms@),
                Err(_) => false,
            }),
            Err(e) => (match r {
                Err(TestypfError::DiscoveryFailed(m)) => m@ == e@,
                _ => false,
            }),
        },
{
    match outcome {
        Ok(ms) => {
            let ghost all = ms@;
            let n = ms.len();
            let mut taken: Vec<RawFaceMatch> = ms;
            let mut i: usize = 0;
            let mut results: Vec<FontDiscoveryResult> = Vec::new();
            while i < n
                invariant
                    i <= n,
                    n == all.len(),
                    taken@ == all.skip(i as int),
                    results_view(results@) == mapped_results(all.take(i as int)),
                decreases n - i,
            {
                let m = taken.remove(0);
                proof {
                    assert(m == all[i as int]);
                    assert(taken@ =~= all.skip(i + 1));
                }
                let converted = FontDiscoveryResult::from_match(m);
                let ghost before = results@;
                let ghost conv_view = converted@;
                results.push(converted);
                proof {
                    assert(results@ == before.push(results@.last()));
                    assert(results@.last()@ == conv_view);
                    assert(results_view(before).len() == before.len());
                    assert(mapped_results(all.take(i as int)).len() == i);
                    assert(before.len() == i);
                    let upto = all.take(i + 1);
                    assert forall|j: int|
                        0 <= j < i + 1 implies results_view(results@)[j] == mapped_results(
                        upto,
                    )[j] by {
                        assert(mapped_results(upto)[j] == result_of_match(upto[j]@));
                        assert(upto[j] == all[j]);
                        if j < i {
                            assert(results@[j] == before[j]);
                            assert(results_view(before)[j] == mapped_results(all.take(i as int))[j]);
                            assert(mapped_results(all.take(i as int))[j] == result_of_match(
                                all.take(i as int)[j]@,
                            ));
                            assert(all.take(i as int)[j] == all[j]);
                        } else {
                            assert(results@[j]@ == conv_view);
                        }
                    }
                    assert(results_view(results@) =~= mapped_results(upto));
                }
                i = i + 1;
            }
            proof {
                assert(all.take(n as int) =~= all);
            }
            Ok(results)
        },
        Err(e) => Err(TestypfError::DiscoveryFailed(e)),
    }
}

/// Manager for font discovery operations, holding the default search
/// roots the surrounding application configured.
#[derive(Debug)]
pub struct DiscoveryManager {
    /// The default font directories searched by [`Self::search_system`].
    pub default_roots: Vec<String>,
}

impl DiscoveryManager {
    /// A manager with no default roots; the application supplies the
    /// platform's font directories through [`Self::with_roots`].
    pub fn new() -> (r: DiscoveryManager)
        ensures
            r.default_roots@ == Seq::<String>::empty(),
    {
        DiscoveryManager { default_roots: Vec::new() }
    }

    /// A manager with the given default search roots.
    pub fn with_roots(roots: Vec<String>) -> (r: DiscoveryManager)
        ensures
            r.default_roots == roots,
    {
        DiscoveryManager { default_roots: roots }
    }

    /// The default font search roots.
    pub fn default_roots(&self) -> (r: &Vec<String>)
        ensures
            r == &self.default_roots,
    {
        &self.default_roots
    }

    /// Translate criteria into a query for the search engine. Each tag
    /// list is parsed independently and a malformed entry fails the
    /// whole build naming its category; an invalid name pattern fails
    /// the build; absent facets impose no constraint.
    pub fn build_query(&self, criteria: &SearchCriteria) -> (r: TestypfResult<DiscoveryQuery>)
        ensures
            !all_tags_valid(criteria.features.deep_view()) ==> (match r {
                Err(TestypfError::DiscoveryFailed(m)) => has_prefix(m@, "Invalid feature: "@),
                _ => false,
            }),
            all_tags_valid(criteria.features.deep_view()) && !all_tags_valid(
                criteria.scripts.deep_view(),
            ) ==> (match r {
                Err(TestypfError::DiscoveryFailed(m)) => has_prefix(m@, "Invalid script: "@),
                _ => false,
            }),
            all_tags_valid(criteria.features.deep_view()) && all_tags_valid(
                criteria.scripts.deep_view(),
            ) && !all_tags_valid(criteria.axes.deep_view()) ==> (match r {
                Err(TestypfError::DiscoveryFailed(m)) => has_prefix(m@, "Invalid axis: "@),
                _ => false,
            }),
            all_tags_valid(criteria.features.deep_view()) && all_tags_valid(
                criteria.scripts.deep_view(),
            ) && all_tags_valid(criteria.axes.deep_view()) && (criteria.name_pattern matches Some(p)
                && !regex_compiles(p@)) ==> (match r {
                Err(TestypfError::DiscoveryFailed(m)) => has_prefix(m@, "Invalid name pattern: "@),
                _ => false,
            }),
            all_tags_valid(criteria.features.deep_view()) && all_tags_valid(
                criteria.scripts.deep_view(),
            ) && all_tags_valid(criteria.axes.deep_view()) && (match criteria.name_pattern {
                Some(p) => regex_compiles(p@),
                None => true,
            }) ==> r is Ok,
            r matches Ok(q) ==> {
                &&& q.features@ == tag_values_of(criteria.features.deep_view())
                &&& q.scripts@ == tag_values_of(criteria.scripts.deep_view())
                &&& q.axes@ == tag_values_of(criteria.axes.deep_view())
                &&& q.variable_only == criteria.variable_only
                &&& (criteria.name_pattern is Some ==> q.name_patterns@.len() == 1)
                &&& (criteria.name_pattern is None ==> q.name_patterns@.len() == 0)
            },
    {
        let features: Vec<u32> = if criteria.features.len() == 0 {
            proof {
                assert(criteria.features.deep_view() =~= Seq::<Seq<char>>::empty());
                assert(tag_values_of(criteria.features.deep_view()) =~= Seq::<u32>::empty());
            }
            Vec::new()
        } else {
            match parse_tag_strings(&criteria.features) {
                Ok(v) => v,
                Err(e) => {
                    let msg = concat_str("Invalid feature: ", e.as_str());
                    proof {
                        assert(msg@.subrange(0, ("Invalid feature: "@).len() as int) =~= "Invalid feature: "@);
                    }
                    return Err(TestypfError::DiscoveryFailed(msg));
                },
            }
        };
        let scripts: Vec<u32> = if criteria.scripts.len() == 0 {
            proof {
                assert(criteria.scripts.deep_view() =~= Seq::<Seq<char>>::empty());
                assert(tag_values_of(criteria.scripts.deep_view()) =~= Seq::<u32>::empty());
            }
            Vec::new()
        } else {
            match parse_tag_strings(&criteria.scripts) {
                Ok(v) => v,
                Err(e) => {
                    let msg = concat_str("Invalid script: ", e.as_str());
                    proof {
                        assert(msg@.subrange(0, ("Invalid script: "@).len() as int) =~= "Invalid script: "@);
                    }
                    return Err(TestypfError::DiscoveryFailed(msg));
                },
            }
        };
        let axes: Vec<u32> = if criteria.axes.len() == 0 {
            proof {
                assert(criteria.axes.deep_view() =~= Seq::<Seq<char>>::empty());
                assert(tag_values_of(criteria.axes.deep_view()) =~= Seq::<u32>::empty());
            }
            Vec::new()
        } else {
            match parse_tag_strings(&criteria.axes) {
                Ok(v) => v,
                Err(e) => {
                    let msg = concat_str("Invalid axis: ", e.as_str());
                    proof {
                        assert(msg@.subrange(0, ("Invalid axis: "@).len() as int) =~= "Invalid axis: "@);
                    }
                    return Err(TestypfError::DiscoveryFailed(msg));
                },
            }
        };
        let mut name_patterns: Vec<regex::Regex> = Vec::new();
        if let Some(pattern) = &criteria.name_pattern {
            match compile_regex(pattern.as_str()) {
                Ok(re) => {
                    name_patterns.push(re);
                },
                Err(e) => {
                    let msg = concat_str("Invalid name pattern: ", e.as_str());
                    proof {
                        assert(msg@.subrange(0, ("Invalid name pattern: "@).len() as int) =~= "Invalid name pattern: "@);
                    }
                    return Err(TestypfError::DiscoveryFailed(msg));
                },
            }
        }
        Ok(
            DiscoveryQuery {
                features,
                scripts,
                axes,
                variable_only: criteria.variable_only,
                name_patterns,
            },
        )
    }

    /// Search for fonts matching the criteria in the given directories:
    /// build the query, delegate to the engine with a fixed concurrency
    /// hint, and carry each match over.
    pub fn search_in<E: DiscoverySearchEngine>(
        &self,
        engine: &mut E,
        roots: &Vec<String>,
        criteria: &SearchCriteria,
    ) -> (r: TestypfResult<Vec<FontDiscoveryResult>>)
        ensures
            r matches Err(e) ==> e is DiscoveryFailed,
            !all_tags_valid(criteria.features.deep_view()) ==> r is Err,
            !all_tags_valid(criteria.scripts.deep_view()) ==> r is Err,
            !all_tags_valid(criteria.axes.deep_view()) ==> r is Err,
            (criteria.name_pattern matches Some(p) && !regex_compiles(p@)) ==> r is Err,
    {
        let query = match self.build_query(criteria) {
            Ok(q) => q,
            Err(e) => {
                return Err(e);
            },
        };
        let outcome = engine.search(roots, &query, criteria.follow_symlinks, None);
        map_search_outcome(outcome)
    }

    /// Search the default font directories with the same translation.
    pub fn search_system<E: DiscoverySearchEngine>(
        &self,
        engine: &mut E,
        criteria: &SearchCriteria,
    ) -> (r: TestypfResult<Vec<FontDiscoveryResult>>)
        ensures
            r matches Err(e) ==> e is DiscoveryFailed,
            !all_tags_valid(criteria.features.deep_view()) ==> r is Err,
            !all_tags_valid(criteria.scripts.deep_view()) ==> r is Err,
            !all_tags_valid(criteria.axes.deep_view()) ==> r is Err,
            (criteria.name_pattern matches Some(p) && !regex_compiles(p@)) ==> r is Err,
    {
        self.search_in(engine, &self.default_roots, criteria)
    }
}

impl Default for DiscoveryManager {
    /// The same as [`DiscoveryManager::new`].
    fn default() -> (r: DiscoveryManager)
        ensures
            r.default_roots@ == Seq::<String>::empty(),
    {
        DiscoveryManager::new()
    }
}

} // verus!
