//! Ordered attribute rules and their payloads.
//!
//! A rule pairs one attribute pattern with a rule-specific payload: feature
//! flags for filterable rules, a set of locale tags for localized rules.
//! Rules live in fixed-order sequences whose order encodes precedence; the
//! first matching rule wins.

use vstd::prelude::*;
use crate::attribute_patterns::{match_pattern, spec_match_pattern, PatternMatch};

verus! {

/// Feature flags carried by a filterable-attributes rule.
#[derive(Clone, Copy, Debug, PartialEq, Eq, Structural)]
pub struct FilterableAttributesFeatures {
    /// The matching fields may appear in filter expressions.
    pub filter: bool,
    /// The matching fields participate in facet search.
    pub facet_search: bool,
}

impl FilterableAttributesFeatures {
    /// The all-disabled feature value: nothing is enabled.
    pub open spec fn spec_no_features() -> FilterableAttributesFeatures {
        FilterableAttributesFeatures { filter: false, facet_search: false }
    }

    /// Build a feature set from its two flags.
    pub fn new(filter: bool, facet_search: bool) -> (r: FilterableAttributesFeatures)
        ensures
            r == (FilterableAttributesFeatures { filter, facet_search }),
    {
        FilterableAttributesFeatures { filter, facet_search }
    }

    /// The feature value of a field that no filterable rule matched.
    pub fn no_features() -> (r: FilterableAttributesFeatures)
        ensures
            r == FilterableAttributesFeatures::spec_no_features(),
    {
        FilterableAttributesFeatures { filter: false, facet_search: false }
    }

    /// Whether the matching fields may appear in filter expressions.
    pub fn is_filterable(&self) -> (r: bool)
        ensures
            r == self.filter,
    {
        self.filter
    }

    /// Whether the matching fields participate in facet search.
    pub fn is_facet_searchable(&self) -> (r: bool)
        ensures
            r == self.facet_search,
    {
        self.facet_search
    }
}

/// One ordered filterable-attributes rule: a pattern and the features granted
/// to the fields it matches.
#[derive(Clone, Debug, PartialEq, Eq)]
pub struct FilterableAttributesRule {
    /// The attribute pattern the rule applies to.
    pub pattern: String,
    /// The features granted to matching fields.
    pub features: FilterableAttributesFeatures,
}

impl FilterableAttributesRule {
    /// Build a rule from its pattern and features.
    pub fn new(pattern: String, features: FilterableAttributesFeatures) -> (r: FilterableAttributesRule)
        ensures
            r.pattern@ == pattern@,
            r.features == features,
    {
        FilterableAttributesRule { pattern, features }
    }

    /// Match the rule's pattern against a field name.
    pub fn match_str(&self, field: &str) -> (r: PatternMatch)
        ensures
            r == spec_match_pattern(self.pattern@, field@),
    {
        match_pattern(self.pattern.as_str(), field)
    }

    /// The features granted to the fields this rule matches.
    pub fn features(&self) -> (r: FilterableAttributesFeatures)
        ensures
            r == self.features,
    {
        self.features
    }
}

/// One ordered localized-attributes rule: a pattern and the locale tags whose
/// text processing applies to the fields it matches.
#[derive(Clone, Debug, PartialEq, Eq)]
pub struct LocalizedAttributesRule {
    /// The attribute pattern the rule applies to.
    pub pattern: String,
    /// The locale tags of the rule.
    pub locales: Vec<String>,
}

impl LocalizedAttributesRule {
    /// Build a rule from its pattern and locale tags.
    pub fn new(pattern: String, locales: Vec<String>) -> (r: LocalizedAttributesRule)
        ensures
            r.pattern@ == pattern@,
            r.locales == locales,
    {
        LocalizedAttributesRule { pattern, locales }
    }

    /// Match the rule's pattern against a field name.
    pub fn match_str(&self, field: &str) -> (r: PatternMatch)
        ensures
            r == spec_match_pattern(self.pattern@, field@),
    {
        match_pattern(self.pattern.as_str(), field)
    }

    /// The locale tags of the rule.
    pub fn locales(&self) -> (r: &Vec<String>)
        ensures
            r == &self.locales,
    {
        &self.locales
    }
}

} // verus!
