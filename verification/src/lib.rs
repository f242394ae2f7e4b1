//! An incremental tokenizer built from a small, composable grammar of
//! matching rules. The `rule` module holds the tri-state rule engine; this
//! root holds the scanner, which owns an input buffer and a rule tree, grows
//! a candidate window one character at a time, and emits the extracted value
//! whenever the window becomes a full match.
use vstd::prelude::*;

pub mod rule;
pub mod text;

pub use crate::rule::MatchResult;
pub use crate::rule::Rule;
use crate::rule::class_of;
use crate::rule::extractors_ready;
use crate::rule::token_rel;
use vstd::string::StrSliceExecFns;

verus! {

/// Failure conditions the scanner can report.
#[derive(Debug, PartialEq)]
pub enum Error {
    /// Reserved for a richer diagnostic when no error context applies; the
    /// scanner never produces it.
    NoSignal,
    /// The buffer was exhausted: genuine end of stream, or the window grew
    /// to the end of the text without a conclusive decision.
    EndOfInput,
    /// A window that cannot match any rule at all; unreachable from the
    /// matching algorithm, which absorbs rejected windows into "keep
    /// growing" instead.
    UnrecognizedToken(String),
}

/// The scanner: an input buffer, a read-only rule tree, and the `(start,
/// end)` character offsets of the current candidate window. The window text
/// itself is recomputed from the buffer, never stored.
pub struct Lexer<'a, F> {
    pub buffer: &'a str,
    pub rule: Rule<F>,
    pub index: (usize, usize),
}

impl<'a, F> Lexer<'a, F> {
    /// The window bounds are ordered character offsets that never leave the
    /// buffer.
    pub open spec fn wf(&self) -> bool {
        self.index.0 <= self.index.1 <= self.buffer@.len()
    }

    /// A scanner bound to a rule tree and an empty buffer.
    pub fn new(rule: Rule<F>) -> (r: Self)
        ensures
            r.rule == rule,
            r.index == (0usize, 0usize),
            r.buffer@ == Seq::<char>::empty(),
            r.wf(),
    {
        proof {
            reveal_strlit("");
            assert(""@ =~= Seq::<char>::empty());
        }
        Lexer { buffer: "", rule, index: (0, 0) }
    }

    /// A scanner bound to a rule tree and an initial buffer.
    pub fn with_buffer(rule: Rule<F>, buffer: &'a str) -> (r: Self)
        ensures
            r.rule == rule,
            r.index == (0usize, 0usize),
            r.buffer == buffer,
            r.wf(),
    {
        Lexer { buffer, rule, index: (0, 0) }
    }

    /// Replaces the buffer and resets the window to the start; the rule tree
    /// is retained.
    pub fn reset(&mut self, buffer: &'a str)
        ensures
            final(self).rule == old(self).rule,
            final(self).buffer == buffer,
            final(self).index == (0usize, 0usize),
            final(self).wf(),
    {
        self.buffer = buffer;
        self.index = (0, 0);
    }

    /// Advances the scan one character. When the window would grow past the
    /// end of the buffer the scan is over and `EndOfInput` is reported with
    /// the scanner unchanged. Otherwise the window grows by one character
    /// and is evaluated against the rule tree from scratch: a full match is
    /// consumed — the next window starts where this one ended — and its
    /// value (possibly absent, as for ignored whitespace) is returned; any
    /// other classification returns "no token yet" and leaves the window
    /// start alone. Tokens therefore partition the scanned prefix of the
    /// buffer: no character is skipped or counted twice.
    pub fn step<T>(&mut self) -> (r: Result<Option<T>, Error>) where F: Fn(&str) -> T
        requires
            old(self).wf(),
            extractors_ready::<T, F>(old(self).rule),
        ensures
            final(self).wf(),
            final(self).buffer == old(self).buffer,
            final(self).rule == old(self).rule,
            match r {
                Err(e) => {
                    &&& e is EndOfInput
                    &&& old(self).index.1 == old(self).buffer@.len()
                    &&& *final(self) == *old(self)
                },
                Ok(t) => {
                    let w = old(self).buffer@.subrange(
                        old(self).index.0 as int,
                        old(self).index.1 + 1,
                    );
                    &&& old(self).index.1 < old(self).buffer@.len()
                    &&& final(self).index.1 == old(self).index.1 + 1
                    &&& if class_of(old(self).rule, w) is FullMatch {
                        &&& final(self).index.0 == final(self).index.1
                        &&& token_rel(final(self).rule, w, t)
                    } else {
                        &&& final(self).index.0 == old(self).index.0
                        &&& t is None
                    }
                },
            },
    {
        let n = self.buffer.unicode_len();
        if self.index.1 >= n {
            return Err(Error::EndOfInput);
        }
        let start = self.index.0;
        let end = self.index.1 + 1;
        self.index.1 = end;
        let buf = self.buffer;
        let window = buf.substring_char(start, end);
        match self.rule.matches::<T>(window) {
            MatchResult::NoMatch => Ok(None),
            MatchResult::PartialMatch => Ok(None),
            MatchResult::FullMatch(token) => {
                self.index.0 = end;
                Ok(token)
            },
        }
    }
}

} // verus!
