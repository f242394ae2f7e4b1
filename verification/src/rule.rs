//! The rule engine: an immutable tree of matching rules, evaluated leaf-first
//! against a candidate text window. Evaluating a rule classifies the window as
//! one of three outcomes — no match, full match (optionally carrying an
//! extracted value), or partial match (a proper prefix of a longer possible
//! match). The classification is a pure function of the window's characters,
//! stated by `class_of`; the value carried by a full match is pinned down by
//! `token_rel`.
use vstd::prelude::*;

use crate::text::all_alphabetic;
use crate::text::all_numeric;
use crate::text::all_whitespace;
use crate::text::prefix_of;
use crate::text::str_all_alphabetic;
use crate::text::str_all_numeric;
use crate::text::str_all_whitespace;
use crate::text::str_eq;
use crate::text::str_prefix_of;
use crate::text::str_suffix_of;
use crate::text::suffix_of;

verus! {

/// The tri-state outcome of evaluating one rule against one text window.
#[derive(Debug, PartialEq)]
pub enum MatchResult<T> {
    /// The window cannot be part of a string matched by the rule.
    NoMatch,
    /// The window is a complete match; the value is present only for rules
    /// that extract a typed result.
    FullMatch(Option<T>),
    /// The window is a proper prefix of some string the rule could fully
    /// match: keep growing the window.
    PartialMatch,
}

impl<T> MatchResult<T> {
    pub fn is_none(&self) -> (r: bool)
        ensures
            r == (self is NoMatch),
    {
        match self {
            MatchResult::NoMatch => true,
            _ => false,
        }
    }

    pub fn is_match(&self) -> (r: bool)
        ensures
            r == (self is FullMatch),
    {
        match self {
            MatchResult::FullMatch(_) => true,
            _ => false,
        }
    }

    pub fn is_partial_match(&self) -> (r: bool)
        ensures
            r == (self is PartialMatch),
    {
        match self {
            MatchResult::PartialMatch => true,
            _ => false,
        }
    }
}

/// The classification a rule gives a window, with the extracted value left
/// out: the shape of a `MatchResult` without its payload.
pub enum MatchClass {
    NoMatch,
    FullMatch,
    PartialMatch,
}

/// A rule for text matching. `F` is the type of the caller-supplied
/// extractor functions that turn a fully matched window into a token value.
#[derive(Debug)]
pub enum Rule<F> {
    /// Matches if equal to the provided literal; a proper prefix of the
    /// literal is a partial match.
    Literal(String),
    /// Matches if all characters are numeric.
    Numeric,
    /// Matches if all characters are alphabetic.
    Alphabetic,
    /// Matches if all characters are whitespace.
    Whitespace,
    /// Value extraction if matching the provided rule: the extractor is
    /// applied to the whole window, not to any sub-match.
    Value(Box<Rule<F>>, F),
    /// Matches like the provided rule; by convention the caller discards any
    /// value a full match would emit.
    Ignore(Box<Rule<F>>),
    /// Matches if the ending matches the provided literal.
    EndsWith(String),
    /// Matches if the provided rule does not match.
    Not(Box<Rule<F>>),
    /// Pass-through grouping: matches exactly like the provided rule.
    Only(Box<Rule<F>>),
    /// Matches if both of the provided rules fully match.
    Both(Box<Rule<F>>, Box<Rule<F>>),
    /// Ordered disjunction that defers to the earlier alternative while it
    /// is still a viable prefix; a full match is returned with its value.
    Either(Box<Rule<F>>, Box<Rule<F>>),
    /// Ordered conjunction over a sequence; a single extractor is applied to
    /// the whole window when every sub-rule fully matches.
    All(Vec<Rule<F>>, F),
    /// First-match-wins disjunction: a full match is returned only when no
    /// earlier-listed alternative is still a live prefix candidate.
    Any(Vec<Rule<F>>),
}

/// The classification the rule engine gives window `w` under rule `r`.
pub open spec fn class_of<F>(r: Rule<F>, w: Seq<char>) -> MatchClass
    decreases r, 0int,
{
    match r {
        Rule::Literal(l) => if w == l@ {
            MatchClass::FullMatch
        } else if prefix_of(w, l@) {
            MatchClass::PartialMatch
        } else {
            MatchClass::NoMatch
        },
        Rule::Numeric => if all_numeric(w) {
            MatchClass::FullMatch
        } else {
            MatchClass::NoMatch
        },
        Rule::Alphabetic => if all_alphabetic(w) {
            MatchClass::FullMatch
        } else {
            MatchClass::NoMatch
        },
        Rule::Whitespace => if all_whitespace(w) {
            MatchClass::FullMatch
        } else {
            MatchClass::NoMatch
        },
        Rule::Value(inner, _) => class_of(*inner, w),
        Rule::Ignore(inner) => class_of(*inner, w),
        Rule::EndsWith(s) => if suffix_of(s@, w) {
            MatchClass::FullMatch
        } else {
            MatchClass::NoMatch
        },
        Rule::Not(inner) => if class_of(*inner, w) is NoMatch {
            MatchClass::FullMatch
        } else {
            MatchClass::NoMatch
        },
        Rule::Only(inner) => class_of(*inner, w),
        Rule::Both(a, b) => if class_of(*a, w) is FullMatch && class_of(*b, w) is FullMatch {
            MatchClass::FullMatch
        } else {
            MatchClass::NoMatch
        },
        Rule::Either(a, b) => match class_of(*a, w) {
            MatchClass::FullMatch => MatchClass::FullMatch,
            MatchClass::PartialMatch => MatchClass::PartialMatch,
            MatchClass::NoMatch => class_of(*b, w),
        },
        Rule::All(rules, _) => class_of_all(rules@, 0, w),
        Rule::Any(rules) => class_of_any(rules@, 0, w),
    }
}

/// Ordered conjunction, walked from position `i`: the first sub-rule that is
/// not a full match decides, a partial match blocking less severely than no
/// match; when every sub-rule fully matches, so does the group.
pub open spec fn class_of_all<F>(rs: Seq<Rule<F>>, i: int, w: Seq<char>) -> MatchClass
    decreases rs, rs.len() - i,
{
    if i < 0 || i >= rs.len() {
        MatchClass::FullMatch
    } else {
        match class_of(rs[i], w) {
            MatchClass::NoMatch => MatchClass::NoMatch,
            MatchClass::PartialMatch => MatchClass::PartialMatch,
            MatchClass::FullMatch => class_of_all(rs, i + 1, w),
        }
    }
}

/// First-match-wins disjunction, walked from position `i`: the first
/// sub-rule that is not rejected decides. A full match is accepted; a
/// partial match means an alternative might still grow into a different
/// match, so the group as a whole rejects the window and the scanner retries
/// with a longer one.
pub open spec fn class_of_any<F>(rs: Seq<Rule<F>>, i: int, w: Seq<char>) -> MatchClass
    decreases rs, rs.len() - i,
{
    if i < 0 || i >= rs.len() {
        MatchClass::NoMatch
    } else {
        match class_of(rs[i], w) {
            MatchClass::FullMatch => MatchClass::FullMatch,
            MatchClass::PartialMatch => MatchClass::NoMatch,
            MatchClass::NoMatch => class_of_any(rs, i + 1, w),
        }
    }
}

/// `v` is a result the extractor `f` can return for a window whose
/// characters are `w`.
pub open spec fn extracts<T, F: Fn(&str) -> T>(f: F, w: Seq<char>, v: T) -> bool {
    exists|ws: &str| ws@ == w && #[trigger] call_ensures(f, (ws,), v)
}

proof fn lemma_extracts<T, F: Fn(&str) -> T>(f: F, ws: &str, v: T)
    requires
        call_ensures(f, (ws,), v),
    ensures
        extracts(f, ws@, v),
{
}

/// The position of the first alternative at or after `i` that does not
/// reject window `w` outright, or `rs.len()` when every one does. This is
/// the alternative whose token a first-match-wins disjunction emits.
pub open spec fn any_first<F>(rs: Seq<Rule<F>>, i: int, w: Seq<char>) -> int
    decreases rs, rs.len() - i,
{
    if i < 0 || i >= rs.len() {
        rs.len() as int
    } else if !(class_of(rs[i], w) is NoMatch) {
        i
    } else {
        any_first(rs, i + 1, w)
    }
}

/// How the value carried by a full match relates to the rule and the window:
/// `Value` and `All` emit their extractor applied to the whole window,
/// `Ignore` and `Only` pass the inner token through, `Either` returns the
/// full match of the alternative that decided (the first, or the second once
/// the first rejects the window outright), `Any` emits the token of the
/// earliest alternative that fully matches with no live earlier prefix
/// candidate, and every other rule carries no value.
pub open spec fn token_rel<T, F: Fn(&str) -> T>(r: Rule<F>, w: Seq<char>, t: Option<T>) -> bool
    decreases r, 1int,
{
    match r {
        Rule::Value(_, f) => t matches Some(v) && extracts(f, w, v),
        Rule::All(_, f) => t matches Some(v) && extracts(f, w, v),
        Rule::Ignore(inner) => token_rel(*inner, w, t),
        Rule::Only(inner) => token_rel(*inner, w, t),
        Rule::Either(a, b) => match class_of(*a, w) {
            MatchClass::FullMatch => token_rel(*a, w, t),
            MatchClass::PartialMatch => t is None,
            MatchClass::NoMatch => token_rel(*b, w, t),
        },
        Rule::Any(rules) => {
            let k = any_first(rules@, 0, w);
            &&& 0 <= k < rules@.len()
            &&& class_of(rules@[k], w) is FullMatch
            &&& token_rel(rules@[k], w, t)
        },
        _ => t is None,
    }
}

/// Every extractor in the tree can be called on any window. Extractors are
/// caller-supplied, so the engine must be told they are total before it may
/// run them.
pub open spec fn extractors_ready<T, F: Fn(&str) -> T>(r: Rule<F>) -> bool
    decreases r, 0int,
{
    match r {
        Rule::Value(inner, f) => (forall|s: &str| call_requires(f, (s,)))
            && extractors_ready::<T, F>(*inner),
        Rule::Ignore(inner) => extractors_ready::<T, F>(*inner),
        Rule::Not(inner) => extractors_ready::<T, F>(*inner),
        Rule::Only(inner) => extractors_ready::<T, F>(*inner),
        Rule::Both(a, b) => extractors_ready::<T, F>(*a) && extractors_ready::<T, F>(*b),
        Rule::Either(a, b) => extractors_ready::<T, F>(*a) && extractors_ready::<T, F>(*b),
        Rule::All(rules, f) => (forall|s: &str| call_requires(f, (s,))) && (forall|i: int|
            0 <= i < rules@.len() ==> extractors_ready::<T, F>(#[trigger] rules@[i])),
        Rule::Any(rules) => forall|i: int|
            0 <= i < rules@.len() ==> extractors_ready::<T, F>(#[trigger] rules@[i]),
        _ => true,
    }
}

/// What `Rule::matches` promises of its result: the result's shape is
/// exactly the classification `class_of` gives the window, and a full
/// match's value satisfies `token_rel`.
pub open spec fn matches_post<T, F: Fn(&str) -> T>(
    r: Rule<F>,
    w: Seq<char>,
    res: MatchResult<T>,
) -> bool {
    match res {
        MatchResult::NoMatch => class_of(r, w) is NoMatch,
        MatchResult::PartialMatch => class_of(r, w) is PartialMatch,
        MatchResult::FullMatch(t) => class_of(r, w) is FullMatch && token_rel(r, w, t),
    }
}

/// A walked prefix of full matches does not change what the conjunction
/// decides: the walk may as well start after it.
proof fn lemma_class_all_prefix<F>(rs: Seq<Rule<F>>, i: int, w: Seq<char>)
    requires
        0 <= i <= rs.len(),
        forall|j: int| 0 <= j < i ==> class_of(#[trigger] rs[j], w) is FullMatch,
    ensures
        class_of_all(rs, 0, w) == class_of_all(rs, i, w),
    decreases i,
{
    if i > 0 {
        lemma_class_all_prefix(rs, i - 1, w);
    }
}

/// A walked prefix of rejected alternatives does not change what the
/// disjunction decides: the walk may as well start after it.
proof fn lemma_class_any_prefix<F>(rs: Seq<Rule<F>>, i: int, w: Seq<char>)
    requires
        0 <= i <= rs.len(),
        forall|j: int| 0 <= j < i ==> class_of(#[trigger] rs[j], w) is NoMatch,
    ensures
        class_of_any(rs, 0, w) == class_of_any(rs, i, w),
    decreases i,
{
    if i > 0 {
        lemma_class_any_prefix(rs, i - 1, w);
    }
}

/// A walked prefix of rejected alternatives does not change which
/// alternative is the first live one.
proof fn lemma_any_first_prefix<F>(rs: Seq<Rule<F>>, i: int, w: Seq<char>)
    requires
        0 <= i <= rs.len(),
        forall|j: int| 0 <= j < i ==> class_of(#[trigger] rs[j], w) is NoMatch,
    ensures
        any_first(rs, 0, w) == any_first(rs, i, w),
    decreases i,
{
    if i > 0 {
        lemma_any_first_prefix(rs, i - 1, w);
    }
}

impl<F> Rule<F> {
    /// Classifies the window `value` against this rule: recursive, total
    /// over the variant set, and a pure function of the window's characters.
    pub fn matches<T>(&self, value: &str) -> (res: MatchResult<T>) where F: Fn(&str) -> T
        requires
            extractors_ready::<T, F>(*self),
        ensures
            matches_post(*self, value@, res),
        decreases *self,
    {
        match self {
            Rule::Literal(literal) => {
                if str_eq(value, literal.as_str()) {
                    MatchResult::FullMatch(None)
                } else if str_prefix_of(value, literal.as_str()) {
                    MatchResult::PartialMatch
                } else {
                    MatchResult::NoMatch
                }
            },
            Rule::Numeric => {
                if str_all_numeric(value) {
                    MatchResult::FullMatch(None)
                } else {
                    MatchResult::NoMatch
                }
            },
            Rule::Alphabetic => {
                if str_all_alphabetic(value) {
                    MatchResult::FullMatch(None)
                } else {
                    MatchResult::NoMatch
                }
            },
            Rule::Whitespace => {
                if str_all_whitespace(value) {
                    MatchResult::FullMatch(None)
                } else {
                    MatchResult::NoMatch
                }
            },
            Rule::Value(inner, f) => {
                match inner.matches::<T>(value) {
                    MatchResult::FullMatch(_) => {
                        let v = f(value);
                        proof {
                            lemma_extracts(*f, value, v);
                        }
                        MatchResult::FullMatch(Some(v))
                    },
                    MatchResult::PartialMatch => MatchResult::PartialMatch,
                    MatchResult::NoMatch => MatchResult::NoMatch,
                }
            },
            Rule::Ignore(inner) => inner.matches::<T>(value),
            Rule::EndsWith(literal) => {
                if str_suffix_of(literal.as_str(), value) {
                    MatchResult::FullMatch(None)
                } else {
                    MatchResult::NoMatch
                }
            },
            Rule::Not(inner) => {
                match inner.matches::<T>(value) {
                    MatchResult::NoMatch => MatchResult::FullMatch(None),
                    _ => MatchResult::NoMatch,
                }
            },
            Rule::Only(inner) => inner.matches::<T>(value),
            Rule::Both(a, b) => {
                match a.matches::<T>(value) {
                    MatchResult::FullMatch(_) => match b.matches::<T>(value) {
                        MatchResult::FullMatch(_) => MatchResult::FullMatch(None),
                        _ => MatchResult::NoMatch,
                    },
                    _ => MatchResult::NoMatch,
                }
            },
            Rule::Either(a, b) => {
                match a.matches::<T>(value) {
                    MatchResult::FullMatch(token) => MatchResult::FullMatch(token),
                    MatchResult::PartialMatch => MatchResult::PartialMatch,
                    MatchResult::NoMatch => b.matches::<T>(value),
                }
            },
            Rule::All(rules, f) => {
                let mut i: usize = 0;
                while i < rules.len()
                    invariant
                        *self matches Rule::All(v, g) && v@ == rules@ && g == *f,
                        extractors_ready::<T, F>(*self),
                        0 <= i <= rules@.len(),
                        forall|j: int|
                            0 <= j < i ==> class_of(#[trigger] rules@[j], value@) is FullMatch,
                    decreases rules@.len() - i,
                {
                    match rules[i].matches::<T>(value) {
                        MatchResult::NoMatch => {
                            proof {
                                lemma_class_all_prefix(rules@, i as int, value@);
                            }
                            return MatchResult::NoMatch;
                        },
                        MatchResult::PartialMatch => {
                            proof {
                                lemma_class_all_prefix(rules@, i as int, value@);
                            }
                            return MatchResult::PartialMatch;
                        },
                        MatchResult::FullMatch(_) => {},
                    }
                    i += 1;
                }
                proof {
                    lemma_class_all_prefix(rules@, rules@.len() as int, value@);
                }
                let v = f(value);
                proof {
                    lemma_extracts(*f, value, v);
                }
                MatchResult::FullMatch(Some(v))
            },
            Rule::Any(rules) => {
                let mut partials: usize = 0;
                let mut i: usize = 0;
                while i < rules.len()
                    invariant
                        *self matches Rule::Any(v) && v@ == rules@,
                        extractors_ready::<T, F>(*self),
                        0 <= i <= rules@.len(),
                        partials <= i,
                        partials == 0 ==> forall|j: int|
                            0 <= j < i ==> class_of(#[trigger] rules@[j], value@) is NoMatch,
                        partials > 0 ==> class_of_any(rules@, 0, value@) is NoMatch,
                    decreases rules@.len() - i,
                {
                    match rules[i].matches::<T>(value) {
                        MatchResult::NoMatch => {},
                        MatchResult::FullMatch(token) => {
                            if partials == 0 {
                                proof {
                                    lemma_class_any_prefix(rules@, i as int, value@);
                                    lemma_any_first_prefix(rules@, i as int, value@);
                                }
                                return MatchResult::FullMatch(token);
                            }
                        },
                        MatchResult::PartialMatch => {
                            proof {
                                if partials == 0 {
                                    lemma_class_any_prefix(rules@, i as int, value@);
                                }
                            }
                            partials += 1;
                        },
                    }
                    i += 1;
                }
                proof {
                    if partials == 0 {
                        lemma_class_any_prefix(rules@, rules@.len() as int, value@);
                    }
                }
                MatchResult::NoMatch
            },
        }
    }
}

/// Law: matching is deterministic. Two results that `Rule::matches` may
/// return for the same rule and the same window contents always carry the
/// same classification, and both carry a value or both carry none. (The
/// values themselves are whatever the caller-supplied extractor returns, so
/// they coincide exactly when the extractor is a function of its input, as
/// the engine's contract with callers demands.)
pub proof fn lemma_matches_deterministic<T, F: Fn(&str) -> T>(
    r: Rule<F>,
    w: Seq<char>,
    r1: MatchResult<T>,
    r2: MatchResult<T>,
)
    requires
        matches_post(r, w, r1),
        matches_post(r, w, r2),
    ensures
        r1 is NoMatch <==> r2 is NoMatch,
        r1 is FullMatch <==> r2 is FullMatch,
        r1 is PartialMatch <==> r2 is PartialMatch,
        r1 is FullMatch && r2 is FullMatch ==> (r1->FullMatch_0 is Some <==> r2->FullMatch_0
            is Some),
{
    match (r1, r2) {
        (MatchResult::FullMatch(t1), MatchResult::FullMatch(t2)) => {
            lemma_token_presence(r, w, t1, t2);
        },
        _ => {},
    }
}

/// Whether a full match carries a value is decided by the rule tree and the
/// window alone, never by the extractors.
proof fn lemma_token_presence<T, F: Fn(&str) -> T>(
    r: Rule<F>,
    w: Seq<char>,
    t1: Option<T>,
    t2: Option<T>,
)
    requires
        token_rel(r, w, t1),
        token_rel(r, w, t2),
    ensures
        t1 is Some <==> t2 is Some,
    decreases r,
{
    match r {
        Rule::Ignore(inner) => lemma_token_presence(*inner, w, t1, t2),
        Rule::Only(inner) => lemma_token_presence(*inner, w, t1, t2),
        Rule::Either(a, b) => {
            if class_of(*a, w) is FullMatch {
                lemma_token_presence(*a, w, t1, t2);
            } else if class_of(*a, w) is NoMatch {
                lemma_token_presence(*b, w, t1, t2);
            }
        },
        Rule::Any(rules) => {
            let k = any_first(rules@, 0, w);
            lemma_token_presence(rules@[k], w, t1, t2);
        },
        _ => {},
    }
}

} // verus!
