//! The attribute-pattern matching relation.
//!
//! A pattern applies to a field name either exactly, or through the faceting
//! relation: a pattern facets a field when it names the field itself or one of
//! its ancestor path segments (path segments are separated by `.`). A pattern
//! may end in `.*`, in which case it applies to every strict descendant of its
//! base, and the lone pattern `*` applies to every field.

use vstd::prelude::*;
use vstd::string::StrSliceExecFns;

verus! {

/// Outcome of matching one attribute pattern against one field name.
#[derive(Clone, Copy, Debug, PartialEq, Eq, Structural)]
pub enum PatternMatch {
    /// The pattern applies to the field itself or to one of its descendants.
    Match,
    /// The field is a strict ancestor of the names the pattern applies to.
    Parent,
    /// The pattern does not apply to the field.
    NoMatch,
}

/// `field` is faceted by `pattern`: the pattern names the field itself, or an
/// ancestor path segment of it (the pattern is a strict prefix of the field
/// followed by a `.`).
pub open spec fn spec_is_faceted_by(field: Seq<char>, pattern: Seq<char>) -> bool {
    field == pattern || (pattern.len() < field.len()
        && field.subrange(0, pattern.len() as int) == pattern
        && field[pattern.len() as int] == '.')
}

/// The pattern is the lone wildcard `*`.
pub open spec fn spec_is_wildcard(pattern: Seq<char>) -> bool {
    pattern.len() == 1 && pattern[0] == '*'
}

/// The pattern ends in `.*`, restricting it to strict descendants of its base.
pub open spec fn spec_has_wildcard_suffix(pattern: Seq<char>) -> bool {
    pattern.len() >= 2 && pattern[pattern.len() - 2] == '.' && pattern[pattern.len() - 1] == '*'
}

/// How one pattern relates to one field name.
pub open spec fn spec_match_pattern(pattern: Seq<char>, field: Seq<char>) -> PatternMatch {
    if spec_is_wildcard(pattern) {
        PatternMatch::Match
    } else if spec_has_wildcard_suffix(pattern) {
        let base = pattern.subrange(0, pattern.len() - 2);
        if spec_is_faceted_by(base, field) {
            PatternMatch::Parent
        } else if spec_is_faceted_by(field, base) {
            PatternMatch::Match
        } else {
            PatternMatch::NoMatch
        }
    } else {
        if spec_is_faceted_by(field, pattern) {
            PatternMatch::Match
        } else if spec_is_faceted_by(pattern, field) {
            PatternMatch::Parent
        } else {
            PatternMatch::NoMatch
        }
    }
}

/// Whether the first `blen` characters of `b`, taken as a pattern base, facet
/// the first `alen` characters of `a`, taken as a field name.
fn prefix_is_faceted_by(a: &str, alen: usize, b: &str, blen: usize) -> (r: bool)
    requires
        alen <= a@.len(),
        blen <= b@.len(),
    ensures
        r == spec_is_faceted_by(a@.subrange(0, alen as int), b@.subrange(0, blen as int)),
{
    let ghost fa = a@.subrange(0, alen as int);
    let ghost fb = b@.subrange(0, blen as int);
    if alen < blen {
        assert(!spec_is_faceted_by(fa, fb));
        return false;
    }
    let mut i: usize = 0;
    while i < blen
        invariant
            alen <= a@.len(),
            blen <= b@.len(),
            blen <= alen,
            0 <= i <= blen,
            fa == a@.subrange(0, alen as int),
            fb == b@.subrange(0, blen as int),
            forall|j: int| 0 <= j < i ==> a@[j] == b@[j],
        decreases blen - i,
    {
        if a.get_char(i) != b.get_char(i) {
            assert(fa[i as int] == a@[i as int]);
            assert(fb[i as int] == b@[i as int]);
            assert(!spec_is_faceted_by(fa, fb));
            return false;
        }
        i += 1;
    }
    if alen == blen {
        assert(fa =~= fb);
        true
    } else {
        let c = a.get_char(blen);
        proof {
            assert(fa[blen as int] == a@[blen as int]);
            assert(fa.subrange(0, blen as int) =~= fb);
        }
        c == '.'
    }
}

/// `field` is faceted by `pattern`: exact name, or ancestor path segment.
pub fn is_faceted_by(field: &str, pattern: &str) -> (r: bool)
    ensures
        r == spec_is_faceted_by(field@, pattern@),
{
    let flen = field.unicode_len();
    let plen = pattern.unicode_len();
    let r = prefix_is_faceted_by(field, flen, pattern, plen);
    proof {
        assert(field@.subrange(0, flen as int) =~= field@);
        assert(pattern@.subrange(0, plen as int) =~= pattern@);
    }
    r
}

/// Match one pattern against one field name, honouring the `*` wildcard and
/// the `.*` descendant suffix.
pub fn match_pattern(pattern: &str, field: &str) -> (r: PatternMatch)
    ensures
        r == spec_match_pattern(pattern@, field@),
{
    let plen = pattern.unicode_len();
    let flen = field.unicode_len();
    proof {
        assert(field@.subrange(0, flen as int) =~= field@);
        assert(pattern@.subrange(0, plen as int) =~= pattern@);
    }
    if plen == 1 && pattern.get_char(0) == '*' {
        return PatternMatch::Match;
    }
    if plen >= 2 && pattern.get_char(plen - 2) == '.' && pattern.get_char(plen - 1) == '*' {
        let blen = plen - 2;
        if prefix_is_faceted_by(pattern, blen, field, flen) {
            PatternMatch::Parent
        } else if prefix_is_faceted_by(field, flen, pattern, blen) {
            PatternMatch::Match
        } else {
            PatternMatch::NoMatch
        }
    } else {
        if prefix_is_faceted_by(field, flen, pattern, plen) {
            PatternMatch::Match
        } else if prefix_is_faceted_by(pattern, plen, field, flen) {
            PatternMatch::Parent
        } else {
            PatternMatch::NoMatch
        }
    }
}

/// The pattern at `i` classifies the field as a match.
pub open spec fn spec_rule_match(pattern: Seq<char>, field: Seq<char>) -> bool {
    spec_match_pattern(pattern, field) == PatternMatch::Match
}

/// Index of the first pattern at or after `i` that matches `field`.
pub open spec fn spec_first_match_from(patterns: Seq<Seq<char>>, field: Seq<char>, i: int) -> Option<int>
    decreases patterns.len() - i,
{
    if i < 0 || i >= patterns.len() {
        None
    } else if spec_rule_match(patterns[i], field) {
        Some(i)
    } else {
        spec_first_match_from(patterns, field, i + 1)
    }
}

/// Index of the first pattern in the ordered sequence that matches `field`.
pub open spec fn spec_first_match(patterns: Seq<Seq<char>>, field: Seq<char>) -> Option<int> {
    spec_first_match_from(patterns, field, 0)
}

/// Precedence of ordered rule scanning: the selected index is the lowest
/// matching one — every earlier pattern fails to match — and when no index is
/// selected, no pattern matches at all.
pub proof fn lemma_first_match_is_earliest(patterns: Seq<Seq<char>>, field: Seq<char>, i: int)
    requires
        0 <= i <= patterns.len(),
    ensures
        match spec_first_match_from(patterns, field, i) {
            Some(k) => i <= k < patterns.len() && spec_rule_match(patterns[k], field)
                && forall|j: int| i <= j < k ==> !spec_rule_match(patterns[j], field),
            None => forall|j: int| i <= j < patterns.len() ==> !spec_rule_match(patterns[j], field),
        },
    decreases patterns.len() - i,
{
    if i < patterns.len() && !spec_rule_match(patterns[i], field) {
        lemma_first_match_is_earliest(patterns, field, i + 1);
    }
}

/// Scanning may start past a prefix of non-matching patterns without changing
/// the selected rule.
pub proof fn lemma_first_match_skip(patterns: Seq<Seq<char>>, field: Seq<char>, i: int)
    requires
        0 <= i <= patterns.len(),
        forall|j: int| 0 <= j < i ==> !spec_rule_match(patterns[j], field),
    ensures
        spec_first_match(patterns, field) == spec_first_match_from(patterns, field, i),
    decreases i,
{
    if i > 0 {
        lemma_first_match_skip(patterns, field, i - 1);
    }
}

} // verus!
