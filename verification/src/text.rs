//! Character-level helpers for the rule engine: window/literal comparison and
//! the character classes that the leaf rules test.
use vstd::prelude::*;
use vstd::string::StrSliceExecFns;

verus! {

/// `w` begins `l`: every character of `w` stands at the same place in `l`.
/// The empty window is a prefix of every literal, and a literal is a prefix
/// of itself.
pub open spec fn prefix_of(w: Seq<char>, l: Seq<char>) -> bool {
    w.len() <= l.len() && w == l.subrange(0, w.len() as int)
}

/// `s` ends `w`: the last characters of `w` are exactly `s`.
pub open spec fn suffix_of(s: Seq<char>, w: Seq<char>) -> bool {
    s.len() <= w.len() && s == w.subrange(w.len() - s.len(), w.len() as int)
}

/// What `char::is_numeric` holds of a character; the Unicode numeric classes
/// are too large to restate, so the result only carries a name.
pub uninterp spec fn numeric_char(c: char) -> bool;

/// What `char::is_alphabetic` holds of a character.
pub uninterp spec fn alphabetic_char(c: char) -> bool;

/// What `char::is_whitespace` holds of a character.
pub uninterp spec fn whitespace_char(c: char) -> bool;

/// Relies on char::is_numeric: the result depends on the character alone.
#[verifier::external_body]
fn char_numeric(c: char) -> (r: bool)
    ensures
        r == numeric_char(c),
{
    c.is_numeric()
}

/// Relies on char::is_alphabetic: the result depends on the character alone.
#[verifier::external_body]
fn char_alphabetic(c: char) -> (r: bool)
    ensures
        r == alphabetic_char(c),
{
    c.is_alphabetic()
}

/// Relies on char::is_whitespace: the result depends on the character alone.
#[verifier::external_body]
fn char_whitespace(c: char) -> (r: bool)
    ensures
        r == whitespace_char(c),
{
    c.is_whitespace()
}

/// Every character of `w` is numeric; vacuously true of the empty window.
pub open spec fn all_numeric(w: Seq<char>) -> bool {
    forall|i: int| 0 <= i < w.len() ==> numeric_char(w[i])
}

/// Every character of `w` is alphabetic; vacuously true of the empty window.
pub open spec fn all_alphabetic(w: Seq<char>) -> bool {
    forall|i: int| 0 <= i < w.len() ==> alphabetic_char(w[i])
}

/// Every character of `w` is whitespace; vacuously true of the empty window.
pub open spec fn all_whitespace(w: Seq<char>) -> bool {
    forall|i: int| 0 <= i < w.len() ==> whitespace_char(w[i])
}

pub fn str_eq(a: &str, b: &str) -> (r: bool)
    ensures
        r == (a@ == b@),
{
    let na = a.unicode_len();
    let nb = b.unicode_len();
    if na != nb {
        return false;
    }
    let mut i: usize = 0;
    while i < na
        invariant
            na == a@.len(),
            nb == b@.len(),
            na == nb,
            0 <= i <= na,
            forall|j: int| 0 <= j < i ==> a@[j] == b@[j],
        decreases na - i,
    {
        if a.get_char(i) != b.get_char(i) {
            return false;
        }
        i += 1;
    }
    proof {
        assert(a@ =~= b@);
    }
    true
}

pub fn str_prefix_of(w: &str, l: &str) -> (r: bool)
    ensures
        r == prefix_of(w@, l@),
{
    let nw = w.unicode_len();
    let nl = l.unicode_len();
    if nw > nl {
        return false;
    }
    let mut i: usize = 0;
    while i < nw
        invariant
            nw == w@.len(),
            nl == l@.len(),
            nw <= nl,
            0 <= i <= nw,
            forall|j: int| 0 <= j < i ==> w@[j] == l@[j],
        decreases nw - i,
    {
        if w.get_char(i) != l.get_char(i) {
            proof {
                assert(w@ != l@.subrange(0, w@.len() as int));
            }
            return false;
        }
        i += 1;
    }
    proof {
        assert(w@ =~= l@.subrange(0, w@.len() as int));
    }
    true
}

pub fn str_suffix_of(s: &str, w: &str) -> (r: bool)
    ensures
        r == suffix_of(s@, w@),
{
    let ns = s.unicode_len();
    let nw = w.unicode_len();
    if ns > nw {
        return false;
    }
    let off = nw - ns;
    let mut i: usize = 0;
    while i < ns
        invariant
            ns == s@.len(),
            nw == w@.len(),
            ns <= nw,
            off == nw - ns,
            0 <= i <= ns,
            forall|j: int| 0 <= j < i ==> s@[j] == w@[off + j],
        decreases ns - i,
    {
        if s.get_char(i) != w.get_char(off + i) {
            proof {
                assert(s@ != w@.subrange(w@.len() - s@.len(), w@.len() as int));
            }
            return false;
        }
        i += 1;
    }
    proof {
        assert(s@ =~= w@.subrange(w@.len() - s@.len(), w@.len() as int));
    }
    true
}

pub fn str_all_numeric(w: &str) -> (r: bool)
    ensures
        r == all_numeric(w@),
{
    let n = w.unicode_len();
    let mut i: usize = 0;
    while i < n
        invariant
            n == w@.len(),
            0 <= i <= n,
            forall|j: int| 0 <= j < i ==> numeric_char(w@[j]),
        decreases n - i,
    {
        if !char_numeric(w.get_char(i)) {
            return false;
        }
        i += 1;
    }
    true
}

pub fn str_all_alphabetic(w: &str) -> (r: bool)
    ensures
        r == all_alphabetic(w@),
{
    let n = w.unicode_len();
    let mut i: usize = 0;
    while i < n
        invariant
            n == w@.len(),
            0 <= i <= n,
            forall|j: int| 0 <= j < i ==> alphabetic_char(w@[j]),
        decreases n - i,
    {
        if !char_alphabetic(w.get_char(i)) {
            return false;
        }
        i += 1;
    }
    true
}

pub fn str_all_whitespace(w: &str) -> (r: bool)
    ensures
        r == all_whitespace(w@),
{
    let n = w.unicode_len();
    let mut i: usize = 0;
    while i < n
        invariant
            n == w@.len(),
            0 <= i <= n,
            forall|j: int| 0 <= j < i ==> whitespace_char(w@[j]),
        decreases n - i,
    {
        if !char_whitespace(w.get_char(i)) {
            return false;
        }
        i += 1;
    }
    true
}

} // verus!
