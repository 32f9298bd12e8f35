//! File discovery by pattern.
//!
//! Each configured pattern is a regular expression tested against a
//! file's path relative to the scan root, and a path is kept when it
//! matches at least one pattern. Walking the tree is I/O and happens
//! outside the library; discovery here selects from the candidate paths
//! the walk produced, in their given order.

use crate::config::Config;
use crate::config::ConfigError;
use vstd::prelude::*;

verus! {

#[verifier::external_type_specification]
#[verifier::external_body]
pub struct ExRegex(regex::Regex);

#[verifier::external_type_specification]
#[verifier::external_body]
pub struct ExRegexError(regex::Error);

/// Whether `regex::Regex::new` accepts `pattern`; compilation succeeds
/// or fails on the pattern text alone.
pub uninterp spec fn regex_valid(pattern: Seq<char>) -> bool;

/// Whether the regular expression `pattern` matches anywhere in `text`;
/// the answer depends on the two texts alone.
pub uninterp spec fn regex_matches(pattern: Seq<char>, text: Seq<char>) -> bool;

/// A pattern kept together with its compiled form.
///
/// `compiled` is always the compilation of `pattern`: the only
/// constructor is [`compile_pattern`].
pub struct CompiledPattern {
    pattern: String,
    compiled: regex::Regex,
}

impl CompiledPattern {
    /// The pattern text this value was compiled from.
    pub closed spec fn spec_pattern(&self) -> Seq<char> {
        self.pattern@
    }
}

/// Relies on `regex::Regex::new`: compiling succeeds or fails on the
/// pattern text alone (the compiled-size limit is left at its default).
#[verifier::external_body]
fn compile_pattern(pattern: &str) -> (r: Result<CompiledPattern, regex::Error>)
    ensures
        r is Ok <==> regex_valid(pattern@),
        r matches Ok(p) ==> p.spec_pattern() == pattern@,
{
    regex::Regex::new(pattern).map(
        |compiled| CompiledPattern { pattern: pattern.to_string(), compiled },
    )
}

/// Relies on `regex::Regex::is_match`: whether a compiled pattern
/// matches is a function of the pattern text and the haystack alone.
#[verifier::external_body]
fn pattern_matches(p: &CompiledPattern, text: &str) -> (r: bool)
    ensures
        r == regex_matches(p.spec_pattern(), text@),
{
    p.compiled.is_match(text)
}

/// Whether `text` matches at least one of `patterns`.
pub open spec fn spec_selected(patterns: Seq<Seq<char>>, text: Seq<char>) -> bool {
    exists|k: int| 0 <= k < patterns.len() && regex_matches(#[trigger] patterns[k], text)
}

/// The candidates that match at least one pattern, in their given
/// order.
pub open spec fn spec_discovered(patterns: Seq<Seq<char>>, candidates: Seq<Seq<char>>) -> Seq<
    Seq<char>,
>
    decreases candidates.len(),
{
    if candidates.len() == 0 {
        Seq::empty()
    } else {
        let rest = spec_discovered(patterns, candidates.drop_last());
        if spec_selected(patterns, candidates.last()) {
            rest.push(candidates.last())
        } else {
            rest
        }
    }
}

/// A path is discovered exactly when it is a candidate and matches at
/// least one pattern: discovery is a logical OR over the patterns.
pub proof fn lemma_discovered_membership(
    patterns: Seq<Seq<char>>,
    candidates: Seq<Seq<char>>,
    path: Seq<char>,
)
    ensures
        spec_discovered(patterns, candidates).contains(path) <==> (candidates.contains(path)
            && spec_selected(patterns, path)),
    decreases candidates.len(),
{
    if candidates.len() == 0 {
    } else {
        let butlast = candidates.drop_last();
        let last = candidates.last();
        lemma_discovered_membership(patterns, butlast, path);
        let rest = spec_discovered(patterns, butlast);
        assert(candidates.contains(path) <==> (butlast.contains(path) || path == last)) by {
            if candidates.contains(path) {
                let i = choose|i: int| 0 <= i < candidates.len() && candidates[i] == path;
                if i < butlast.len() {
                    assert(butlast[i] == path);
                }
            }
            if butlast.contains(path) {
                let i = choose|i: int| 0 <= i < butlast.len() && butlast[i] == path;
                assert(candidates[i] == path);
            }
            if path == last {
                assert(candidates[candidates.len() - 1] == path);
            }
        }
        if spec_selected(patterns, last) {
            let d = rest.push(last);
            assert(d.contains(path) <==> (rest.contains(path) || path == last)) by {
                if d.contains(path) {
                    let i = choose|i: int| 0 <= i < d.len() && d[i] == path;
                    if i < rest.len() {
                        assert(rest[i] == path);
                    }
                }
                if rest.contains(path) {
                    let i = choose|i: int| 0 <= i < rest.len() && rest[i] == path;
                    assert(d[i] == path);
                }
                if path == last {
                    assert(d[d.len() - 1] == path);
                }
            }
        }
    }
}

/// Discovery never duplicates: when no candidate path repeats, no
/// discovered path repeats either, however many patterns a path
/// matches.
pub proof fn lemma_discovered_no_duplicates(patterns: Seq<Seq<char>>, candidates: Seq<Seq<char>>)
    requires
        candidates.no_duplicates(),
    ensures
        spec_discovered(patterns, candidates).no_duplicates(),
    decreases candidates.len(),
{
    if candidates.len() == 0 {
    } else {
        let butlast = candidates.drop_last();
        let last = candidates.last();
        assert(butlast.no_duplicates());
        lemma_discovered_no_duplicates(patterns, butlast);
        let rest = spec_discovered(patterns, butlast);
        if spec_selected(patterns, last) {
            assert(!rest.contains(last)) by {
                lemma_discovered_membership(patterns, butlast, last);
                if butlast.contains(last) {
                    let i = choose|i: int| 0 <= i < butlast.len() && butlast[i] == last;
                    assert(candidates[i] == candidates[candidates.len() - 1]);
                }
            }
            let d = rest.push(last);
            assert forall|i: int, j: int|
                0 <= i < d.len() && 0 <= j < d.len() && i != j implies d[i] != d[j] by {
                if i < rest.len() && j < rest.len() {
                } else if i < rest.len() {
                    assert(rest.contains(rest[i]));
                } else if j < rest.len() {
                    assert(rest.contains(rest[j]));
                }
            }
        }
    }
}

/// Whether `text` matches at least one of the compiled patterns.
fn matches_any(patterns: &Vec<CompiledPattern>, text: &str) -> (r: bool)
    ensures
        r == exists|k: int|
            0 <= k < patterns@.len() && regex_matches(
                (#[trigger] patterns@[k]).spec_pattern(),
                text@,
            ),
{
    let mut i: usize = 0;
    while i < patterns.len()
        invariant
            i <= patterns@.len(),
            forall|k: int|
                0 <= k < i ==> !regex_matches((#[trigger] patterns@[k]).spec_pattern(), text@),
        decreases patterns@.len() - i,
    {
        if pattern_matches(&patterns[i], text) {
            return true;
        }
        i = i + 1;
    }
    false
}

/// Compile every pattern; the first pattern that is not a valid regular
/// expression is a fatal configuration error carrying that pattern.
pub fn compile_patterns(patterns: &Vec<String>) -> (r: Result<Vec<CompiledPattern>, ConfigError>)
    ensures
        r is Ok <==> (forall|k: int|
            0 <= k < patterns@.len() ==> regex_valid((#[trigger] patterns@[k])@)),
        r matches Ok(v) ==> v@.len() == patterns@.len() && (forall|k: int|
            0 <= k < patterns@.len() ==> (#[trigger] v@[k]).spec_pattern() == patterns@[k]@),
        r matches Err(e) ==> exists|k: int|
            0 <= k < patterns@.len() && !regex_valid((#[trigger] patterns@[k])@) && (forall|
                j: int,
            |
                0 <= j < k ==> regex_valid(patterns@[j]@)) && e == (ConfigError::InvalidPattern {
                pattern: patterns@[k],
            }),
{
    let mut compiled: Vec<CompiledPattern> = Vec::new();
    let mut i: usize = 0;
    while i < patterns.len()
        invariant
            i == compiled@.len() <= patterns@.len(),
            forall|k: int| 0 <= k < i ==> regex_valid((#[trigger] patterns@[k])@),
            forall|k: int|
                0 <= k < i ==> (#[trigger] compiled@[k]).spec_pattern() == patterns@[k]@,
        decreases patterns@.len() - i,
    {
        match compile_pattern(patterns[i].as_str()) {
            Ok(p) => {
                compiled.push(p);
            },
            Err(_) => {
                return Err(ConfigError::InvalidPattern { pattern: patterns[i].clone() });
            },
        }
        i = i + 1;
    }
    Ok(compiled)
}

impl Config {
    /// Discover source files: compile the configured patterns, then
    /// keep, in order, every candidate path that matches at least one
    /// of them. The candidates are the paths the directory walk
    /// produced; an invalid pattern is fatal and reported before any
    /// candidate is examined.
    pub fn get_source_files(&self, candidates: &Vec<String>) -> (r: Result<
        Vec<String>,
        ConfigError,
    >)
        ensures
            r is Ok <==> (forall|k: int|
                0 <= k < self.source_files@.len() ==> regex_valid(
                    (#[trigger] self.source_files@[k])@,
                )),
            r matches Ok(v) ==> v.deep_view() == spec_discovered(
                self.source_files.deep_view(),
                candidates.deep_view(),
            ),
            r matches Err(e) ==> exists|k: int|
                0 <= k < self.source_files@.len() && !regex_valid(
                    (#[trigger] self.source_files@[k])@,
                ) && (forall|j: int| 0 <= j < k ==> regex_valid(self.source_files@[j]@)) && e == (
                ConfigError::InvalidPattern { pattern: self.source_files@[k] }),
    {
        let patterns = match compile_patterns(&self.source_files) {
            Ok(p) => p,
            Err(e) => {
                return Err(e);
            },
        };
        let mut selected: Vec<String> = Vec::new();
        let mut i: usize = 0;
        proof {
            assert(candidates.deep_view().take(0) =~= Seq::<Seq<char>>::empty());
        }
        while i < candidates.len()
            invariant
                i <= candidates@.len(),
                candidates.deep_view().len() == candidates@.len(),
                patterns@.len() == self.source_files@.len(),
                forall|k: int|
                    0 <= k < patterns@.len() ==> (#[trigger] patterns@[k]).spec_pattern()
                        == self.source_files@[k]@,
                selected.deep_view() == spec_discovered(
                    self.source_files.deep_view(),
                    candidates.deep_view().take(i as int),
                ),
            decreases candidates@.len() - i,
        {
            let ghost dv_pat = self.source_files.deep_view();
            let ghost dv_cand = candidates.deep_view();
            let ghost sel0 = selected.deep_view();
            let is_match = matches_any(&patterns, candidates[i].as_str());
            proof {
                assert(dv_cand[i as int] == candidates@[i as int]@);
                assert(dv_pat.len() == patterns@.len());
                assert forall|k: int| 0 <= k < dv_pat.len() implies #[trigger] dv_pat[k]
                    == patterns@[k].spec_pattern() by {
                    assert(dv_pat[k] == self.source_files@[k]@);
                }
                if is_match {
                    let k = choose|k: int|
                        0 <= k < patterns@.len() && regex_matches(
                            (#[trigger] patterns@[k]).spec_pattern(),
                            candidates@[i as int]@,
                        );
                    assert(regex_matches(dv_pat[k], dv_cand[i as int]));
                    assert(spec_selected(dv_pat, dv_cand[i as int]));
                } else {
                    if spec_selected(dv_pat, dv_cand[i as int]) {
                        let k = choose|k: int|
                            0 <= k < dv_pat.len() && regex_matches(
                                #[trigger] dv_pat[k],
                                dv_cand[i as int],
                            );
                        assert(regex_matches(patterns@[k].spec_pattern(), candidates@[i as int]@));
                    }
                }
                assert(dv_cand.take(i as int + 1).drop_last() =~= dv_cand.take(i as int));
                assert(dv_cand.take(i as int + 1).last() == dv_cand[i as int]);
            }
            if is_match {
                selected.push(candidates[i].clone());
                proof {
                    assert(selected.deep_view() =~= sel0.push(candidates@[i as int]@));
                }
            }
            i = i + 1;
        }
        proof {
            assert(candidates.deep_view().take(candidates@.len() as int) =~= candidates.deep_view());
        }
        Ok(selected)
    }
}

} // verus!
