//! The search engine: a query, mode and options compile into a reusable
//! matcher. Invalid glob or regex syntax yields a matcher that matches
//! nothing; it never raises an error to the caller.

use vstd::prelude::*;
use vstd::string::StringExecFns;
use crate::settings::SearchMode;
use crate::text::{contains_at, contains_seq, str_contains, str_eq};

verus! {

/// What `str::to_lowercase` returns for a string with these characters.
pub uninterp spec fn lower_of(s: Seq<char>) -> Seq<char>;

/// Whether a glob pattern with these characters compiles and matches a text
/// with those characters; a pattern that does not compile matches nothing.
pub uninterp spec fn glob_match_of(pat: Seq<char>, text: Seq<char>) -> bool;

/// Whether a regular expression with these characters compiles and matches
/// somewhere in a text with those characters; a pattern that does not compile
/// matches nothing.
pub uninterp spec fn regex_match_of(pat: Seq<char>, text: Seq<char>) -> bool;

/// Relies on str::to_lowercase: the lowercase form depends on the characters
/// alone, and an empty string stays empty.
#[verifier::external_body]
fn fold_case(s: &str) -> (r: String)
    ensures
        r@ == lower_of(s@),
        s@.len() == 0 ==> r@.len() == 0,
{
    s.to_lowercase()
}

/// Relies on glob::Pattern::new and glob::Pattern::matches: both depend on the
/// pattern and text characters alone (matching uses the crate's default
/// options), neither panics, and an invalid pattern matches nothing.
#[verifier::external_body]
fn glob_match(pattern: &str, text: &str) -> (r: bool)
    ensures
        r == glob_match_of(pattern@, text@),
{
    match glob::Pattern::new(pattern) {
        Ok(p) => p.matches(text),
        Err(_) => false,
    }
}

/// Relies on regex::Regex::new and regex::Regex::is_match: both depend on the
/// pattern and text characters alone, neither panics, and an invalid pattern
/// matches nothing.
#[verifier::external_body]
fn regex_match(pattern: &str, text: &str) -> (r: bool)
    ensures
        r == regex_match_of(pattern@, text@),
{
    match regex::Regex::new(pattern) {
        Ok(re) => re.is_match(text),
        Err(_) => false,
    }
}

/// A regular expression that matches a whole candidate exactly when `p`
/// matches it from end to end.
pub open spec fn anchored(p: Seq<char>) -> Seq<char> {
    seq!['^', '(', '?', ':'] + p + seq![')', '$']
}

/// The pattern a matcher works with: the query, lowercased unless the search
/// is case sensitive, and anchored when a strict regex match is asked for.
pub open spec fn effective_pattern(q: Seq<char>, mode: SearchMode, sensitive: bool, strict: bool) -> Seq<char> {
    let fq = if sensitive {
        q
    } else {
        lower_of(q)
    };
    if mode == SearchMode::Regex && strict {
        anchored(fq)
    } else {
        fq
    }
}

/// The mathematical content of a matcher.
pub struct MatcherModel {
    pub mode: SearchMode,
    pub sensitive: bool,
    pub strict: bool,
    pub query: Seq<char>,
    pub pattern: Seq<char>,
}

impl MatcherModel {
    /// Whether this matcher accepts the candidate `name`. Unless the search is
    /// case sensitive, the candidate is lowercased like the query was; a
    /// strict `Contains` match asks for the exact name, a default one for a
    /// substring.
    pub open spec fn accepts(self, name: Seq<char>) -> bool {
        let cand = if self.sensitive {
            name
        } else {
            lower_of(name)
        };
        match self.mode {
            SearchMode::Contains => if self.strict {
                cand == self.pattern
            } else {
                contains_seq(cand, self.pattern)
            },
            SearchMode::Glob => glob_match_of(self.pattern, cand),
            SearchMode::Regex => regex_match_of(self.pattern, cand),
        }
    }
}

/// The model of the matcher that `compile` builds for this query, mode and
/// options.
pub open spec fn compile_model(q: Seq<char>, mode: SearchMode, sensitive: bool, strict: bool) -> MatcherModel {
    MatcherModel {
        mode,
        sensitive,
        strict,
        query: q,
        pattern: effective_pattern(q, mode, sensitive, strict),
    }
}

/// A compiled predicate over a candidate name or path.
pub struct Matcher {
    pub mode: SearchMode,
    pub sensitive: bool,
    pub strict: bool,
    pub query: String,
    pub pattern: String,
}

impl Matcher {
    pub open spec fn model(self) -> MatcherModel {
        MatcherModel {
            mode: self.mode,
            sensitive: self.sensitive,
            strict: self.strict,
            query: self.query@,
            pattern: self.pattern@,
        }
    }

    /// Compiles a query, mode and option pair into a reusable matcher.
    pub fn compile(query: &str, mode: SearchMode, sensitive: bool, strict: bool) -> (m: Matcher)
        ensures
            m.model() == compile_model(query@, mode, sensitive, strict),
            query@.len() == 0 && !(mode == SearchMode::Regex && strict) ==> m.pattern@.len() == 0,
    {
        let folded = if sensitive {
            query.to_owned()
        } else {
            fold_case(query)
        };
        let pattern = if mode == SearchMode::Regex && strict {
            let mut s = "^(?:".to_owned();
            s.append(folded.as_str());
            s.append(")$");
            proof {
                reveal_strlit("^(?:");
                reveal_strlit(")$");
                assert("^(?:"@ =~= seq!['^', '(', '?', ':']);
                assert(")$"@ =~= seq![')', '$']);
            }
            s
        } else {
            folded
        };
        Matcher { mode, sensitive, strict, query: query.to_owned(), pattern }
    }

    /// Whether this matcher accepts the candidate `name`.
    pub fn matches(&self, name: &str) -> (r: bool)
        ensures
            r == self.model().accepts(name@),
    {
        let cand = if self.sensitive {
            name.to_owned()
        } else {
            fold_case(name)
        };
        match self.mode {
            SearchMode::Contains => if self.strict {
                str_eq(cand.as_str(), self.pattern.as_str())
            } else {
                str_contains(cand.as_str(), self.pattern.as_str())
            },
            SearchMode::Glob => glob_match(self.pattern.as_str(), cand.as_str()),
            SearchMode::Regex => regex_match(self.pattern.as_str(), cand.as_str()),
        }
    }
}

/// An empty query in `Contains` mode, without the strict option, accepts
/// every candidate.
pub proof fn lemma_contains_empty_query_accepts_all(m: MatcherModel, name: Seq<char>)
    requires
        m.mode == SearchMode::Contains,
        !m.strict,
        m.pattern.len() == 0,
    ensures
        m.accepts(name),
{
    let cand = if m.sensitive {
        name
    } else {
        lower_of(name)
    };
    assert(cand.subrange(0, 0) =~= m.pattern);
    assert(contains_at(cand, m.pattern, 0));
}

/// A strict, case-sensitive `Contains` matcher accepts exactly the candidate
/// whose name equals its pattern, which is its query.
pub proof fn lemma_contains_strict_exact(m: MatcherModel, name: Seq<char>)
    requires
        m.mode == SearchMode::Contains,
        m.strict,
        m.sensitive,
        m == compile_model(m.query, m.mode, m.sensitive, m.strict),
    ensures
        m.accepts(name) <==> name == m.query,
{
}

} // verus!
