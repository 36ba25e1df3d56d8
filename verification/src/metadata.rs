//! Field metadata resolution.
//!
//! A [`MetadataBuilder`] owns the four rule collections loaded from persisted
//! configuration and classifies any field name into a compact, copyable
//! [`Metadata`] record. A [`FieldIdMapWithMetadata`] pairs the name⇄id table
//! with one cached `Metadata` per field id and keeps the two in sync.
//!
//! Rule references are packed as 1-based indexes into the rule sequence the
//! builder was constructed from, so a `Metadata` value never borrows a rule:
//! it is resolved lazily against the live sequence. The 1-based encoding keeps
//! "absent" and "rule 0" distinguishable; it bounds rule sequences to
//! [`MAX_RULE_COUNT`] entries, a configuration-time limit that construction
//! enforces rather than silently truncating.

use vstd::prelude::*;
use vstd::string::StrSliceExecFns;
use crate::attribute_patterns::{
    is_faceted_by, lemma_first_match_is_earliest, lemma_first_match_skip, spec_first_match,
    spec_is_faceted_by, spec_is_wildcard, spec_rule_match, PatternMatch,
};
use crate::fields_ids_map::{
    lemma_index_of_from_properties, spec_index_of, FieldId, FieldsIdsMap, FIELD_COUNT_LIMIT,
};
use crate::rules::{FilterableAttributesFeatures, FilterableAttributesRule, LocalizedAttributesRule};

verus! {

/// Upper bound on the length of a rule sequence: a 1-based rule reference
/// must fit a 16-bit non-zero value.
pub const MAX_RULE_COUNT: usize = 65535;

/// Configuration-time failure of builder construction.
#[derive(Clone, Copy, Debug, PartialEq, Eq, Structural)]
pub enum MetadataError {
    /// The filterable-rule sequence is too long for the compact reference
    /// encoding.
    TooManyFilterableAttributes,
    /// The localized-rule sequence is too long for the compact reference
    /// encoding.
    TooManyLocalizedAttributes,
}

/// Compact, copyable classification of one field.
#[derive(Clone, Copy, Debug, PartialEq, Eq)]
pub struct Metadata {
    /// The field participates in full-text search.
    pub searchable: bool,
    /// The field may appear in sort clauses.
    pub sortable: bool,
    /// 1-based index of the first matching localized rule, or `None`.
    pub localized_attributes_rule_id: Option<u16>,
    /// 1-based index of the first matching filterable rule, or `None`.
    pub filterable_attributes_rule_id: Option<u16>,
}

/// The patterns of a filterable-rule sequence, in rule order.
pub open spec fn filterable_patterns(rules: Seq<FilterableAttributesRule>) -> Seq<Seq<char>> {
    Seq::new(rules.len(), |i: int| rules[i].pattern@)
}

/// The patterns of a localized-rule sequence, in rule order.
pub open spec fn localized_patterns(rules: Seq<LocalizedAttributesRule>) -> Seq<Seq<char>> {
    Seq::new(rules.len(), |i: int| rules[i].pattern@)
}

/// The 1-based compact encoding of an optional rule index.
pub open spec fn encode_rule_ref(m: Option<int>) -> Option<u16> {
    match m {
        None => None,
        Some(i) => Some((i + 1) as u16),
    }
}

/// Whether a field is searchable under an optional ordered pattern
/// collection: unset means every field is searchable.
pub open spec fn spec_searchable(attrs: Option<Seq<Seq<char>>>, field: Seq<char>) -> bool {
    match attrs {
        None => true,
        Some(pats) => spec_any_faceted(pats, field),
    }
}

/// Whether any pattern of the collection facets the field.
pub open spec fn spec_any_faceted(pats: Seq<Seq<char>>, field: Seq<char>) -> bool {
    exists|i: int| 0 <= i < pats.len() && spec_is_faceted_by(field, pats[i])
}

/// What construction makes of the user-defined searchable patterns: a
/// collection containing the `*` wildcard collapses to unset, since both mean
/// that every field is searchable.
pub open spec fn spec_collapse_searchable(attrs: Option<Vec<String>>) -> Option<Seq<Seq<char>>> {
    match attrs {
        None => None,
        Some(v) => if exists|i: int| 0 <= i < v@.len() && spec_is_wildcard(v@[i]@) {
            None
        } else {
            Some(v.deep_view())
        },
    }
}

/// The localized-rule view an optional collection denotes.
pub open spec fn spec_localized_view_of(attrs: Option<Vec<LocalizedAttributesRule>>) -> Option<
    Seq<LocalizedAttributesRule>,
> {
    match attrs {
        None => None,
        Some(v) => Some(v@),
    }
}

impl Metadata {
    /// The compact reference into the localized-rule sequence, if a rule
    /// matched.
    pub open spec fn localized_rule_id(&self) -> Option<u16> {
        self.localized_attributes_rule_id
    }

    /// The compact reference into the filterable-rule sequence, if a rule
    /// matched.
    pub open spec fn filterable_rule_id(&self) -> Option<u16> {
        self.filterable_attributes_rule_id
    }

    /// The localized reference, if present, falls inside a rule sequence of
    /// the given length. Resolving against a shorter sequence is a misuse of
    /// the record.
    pub open spec fn localized_ref_valid(&self, rules_len: int) -> bool {
        match self.localized_rule_id() {
            None => true,
            Some(k) => 1 <= k && k - 1 < rules_len,
        }
    }

    /// The filterable reference, if present, falls inside a rule sequence of
    /// the given length.
    pub open spec fn filterable_ref_valid(&self, rules_len: int) -> bool {
        match self.filterable_rule_id() {
            None => true,
            Some(k) => 1 <= k && k - 1 < rules_len,
        }
    }
}

/// The features the field's first matching filterable rule grants, or the
/// all-disabled value when no rule matched.
pub open spec fn spec_features_of(m: Metadata, rules: Seq<FilterableAttributesRule>) -> FilterableAttributesFeatures {
    match m.filterable_rule_id() {
        None => FilterableAttributesFeatures::spec_no_features(),
        Some(k) => rules[k - 1].features,
    }
}

/// Whether the field participates in any facet-backed database: it is
/// sortable, filterable, or facet-searchable.
pub open spec fn spec_is_faceted(m: Metadata, rules: Seq<FilterableAttributesRule>) -> bool {
    m.sortable || spec_features_of(m, rules).filter || spec_features_of(m, rules).facet_search
}

impl Metadata {
    /// Resolve the localized reference against the rule sequence the builder
    /// used, returning that rule's locale tags.
    ///
    /// Resolving against a shorter sequence than produced the reference is a
    /// misuse of the record, excluded by the precondition; a caller that
    /// violates it anyway fails loudly on the out-of-range index, never with
    /// a silent wrong answer.
    pub fn locales<'a>(&self, rules: &'a Vec<LocalizedAttributesRule>) -> (r: Option<&'a Vec<String>>)
        requires
            self.localized_ref_valid(rules@.len() as int),
        ensures
            match self.localized_rule_id() {
                None => r is None,
                Some(k) => r matches Some(l) && *l == rules@[k - 1].locales,
            },
    {
        match self.localized_attributes_rule_id {
            None => None,
            Some(k) => Some(rules[(k - 1) as usize].locales()),
        }
    }

    /// Resolve the filterable reference against the rule sequence the builder
    /// used, returning the matched rule.
    ///
    /// Resolving against a shorter sequence than produced the reference is a
    /// misuse of the record, excluded by the precondition; a caller that
    /// violates it anyway fails loudly on the out-of-range index, never with
    /// a silent wrong answer.
    pub fn filterable_attributes<'a>(&self, rules: &'a Vec<FilterableAttributesRule>) -> (r: Option<
        &'a FilterableAttributesRule,
    >)
        requires
            self.filterable_ref_valid(rules@.len() as int),
        ensures
            match self.filterable_rule_id() {
                None => r is None,
                Some(k) => r matches Some(rule) && *rule == rules@[k - 1],
            },
    {
        match self.filterable_attributes_rule_id {
            None => None,
            Some(k) => Some(&rules[(k - 1) as usize]),
        }
    }

    /// The features of the matched filterable rule, or the all-disabled value
    /// when no rule matched: both mean "nothing is enabled".
    pub fn filterable_attributes_features(&self, rules: &Vec<FilterableAttributesRule>) -> (r:
        FilterableAttributesFeatures)
        requires
            self.filterable_ref_valid(rules@.len() as int),
        ensures
            r == spec_features_of(*self, rules@),
    {
        match self.filterable_attributes(rules) {
            Some(rule) => rule.features(),
            None => FilterableAttributesFeatures::no_features(),
        }
    }

    /// Whether the field may appear in sort clauses.
    pub fn is_sortable(&self) -> (r: bool)
        ensures
            r == self.sortable,
    {
        self.sortable
    }

    /// Whether the field participates in full-text search.
    pub fn is_searchable(&self) -> (r: bool)
        ensures
            r == self.searchable,
    {
        self.searchable
    }

    /// Whether the field is part of the facet databases: sortable,
    /// filterable, or facet-searchable.
    pub fn is_faceted(&self, rules: &Vec<FilterableAttributesRule>) -> (r: bool)
        requires
            self.filterable_ref_valid(rules@.len() as int),
        ensures
            r == spec_is_faceted(*self, rules@),
    {
        if self.is_sortable() {
            return true;
        }
        let features = self.filterable_attributes_features(rules);
        if features.is_filterable() {
            return true;
        }
        if features.is_facet_searchable() {
            return true;
        }
        false
    }
}

/// Owns the four rule collections and classifies field names against them.
/// Immutable after construction; replacing rules means building a new
/// builder, never patching this one.
#[derive(Clone, Debug)]
pub struct MetadataBuilder {
    searchable_attributes: Option<Vec<String>>,
    filterable_attributes: Vec<FilterableAttributesRule>,
    sortable_attributes: Vec<String>,
    localized_attributes: Option<Vec<LocalizedAttributesRule>>,
}

impl MetadataBuilder {
    /// The searchable patterns, or `None` when every field is searchable.
    pub closed spec fn searchable_view(&self) -> Option<Seq<Seq<char>>> {
        match self.searchable_attributes {
            None => None,
            Some(v) => Some(v.deep_view()),
        }
    }

    /// The ordered filterable-rule sequence.
    pub closed spec fn filterable_view(&self) -> Seq<FilterableAttributesRule> {
        self.filterable_attributes@
    }

    /// The sortable attribute names.
    pub closed spec fn sortable_view(&self) -> Seq<Seq<char>> {
        self.sortable_attributes.deep_view()
    }

    /// The ordered localized-rule sequence, if any was configured.
    pub closed spec fn localized_view(&self) -> Option<Seq<LocalizedAttributesRule>> {
        match self.localized_attributes {
            None => None,
            Some(v) => Some(v@),
        }
    }

    /// The localized-rule sequence an unset collection behaves as: empty.
    pub open spec fn localized_rules_or_empty(&self) -> Seq<LocalizedAttributesRule> {
        match self.localized_view() {
            None => Seq::empty(),
            Some(s) => s,
        }
    }

    /// Well-formedness: both ordered rule sequences fit the compact reference
    /// encoding. Construction establishes this and nothing mutates a builder.
    pub open spec fn wf(&self) -> bool {
        &&& self.filterable_view().len() <= MAX_RULE_COUNT
        &&& self.localized_rules_or_empty().len() <= MAX_RULE_COUNT
    }
}

/// The classification of one field name under a builder's rule collections.
pub open spec fn spec_classify(b: MetadataBuilder, field: Seq<char>) -> Metadata {
    Metadata {
        searchable: spec_searchable(b.searchable_view(), field),
        sortable: spec_any_faceted(b.sortable_view(), field),
        localized_attributes_rule_id: encode_rule_ref(
            spec_first_match(localized_patterns(b.localized_rules_or_empty()), field),
        ),
        filterable_attributes_rule_id: encode_rule_ref(
            spec_first_match(filterable_patterns(b.filterable_view()), field),
        ),
    }
}

/// Whether any pattern of the collection is the `*` wildcard.
fn contains_wildcard(v: &Vec<String>) -> (r: bool)
    ensures
        r == exists|i: int| 0 <= i < v@.len() && spec_is_wildcard(v@[i]@),
{
    let n = v.len();
    let mut i: usize = 0;
    while i < n
        invariant
            n == v@.len(),
            0 <= i <= n,
            forall|j: int| 0 <= j < i ==> !spec_is_wildcard(v@[j]@),
        decreases n - i,
    {
        let s = v[i].as_str();
        if s.unicode_len() == 1 && s.get_char(0) == '*' {
            assert(spec_is_wildcard(v@[i as int]@));
            return true;
        }
        i += 1;
    }
    false
}

/// Whether any pattern of the collection facets the field.
fn any_faceted_by(patterns: &Vec<String>, field: &str) -> (r: bool)
    ensures
        r == spec_any_faceted(patterns.deep_view(), field@),
{
    let n = patterns.len();
    let mut i: usize = 0;
    while i < n
        invariant
            n == patterns@.len(),
            0 <= i <= n,
            forall|j: int| 0 <= j < i ==> !spec_is_faceted_by(field@, patterns.deep_view()[j]),
        decreases n - i,
    {
        assert(patterns.deep_view()[i as int] == patterns@[i as int]@);
        if is_faceted_by(field, patterns[i].as_str()) {
            assert(spec_is_faceted_by(field@, patterns.deep_view()[i as int]));
            return true;
        }
        i += 1;
    }
    false
}

/// The encoded reference of the first filterable rule matching the field.
fn first_matching_filterable(rules: &Vec<FilterableAttributesRule>, field: &str) -> (r: Option<u16>)
    requires
        rules@.len() <= MAX_RULE_COUNT,
    ensures
        r == encode_rule_ref(spec_first_match(filterable_patterns(rules@), field@)),
{
    let ghost pats = filterable_patterns(rules@);
    let n = rules.len();
    let mut i: usize = 0;
    while i < n
        invariant
            rules@.len() <= MAX_RULE_COUNT,
            n == rules@.len(),
            pats == filterable_patterns(rules@),
            0 <= i <= n,
            forall|j: int| 0 <= j < i ==> !spec_rule_match(pats[j], field@),
        decreases n - i,
    {
        assert(pats[i as int] == rules@[i as int].pattern@);
        let m = rules[i].match_str(field);
        if m == PatternMatch::Match {
            proof {
                lemma_first_match_skip(pats, field@, i as int);
            }
            return Some((i + 1) as u16);
        }
        i += 1;
    }
    proof {
        lemma_first_match_skip(pats, field@, n as int);
    }
    None
}

/// The encoded reference of the first localized rule matching the field.
fn first_matching_localized(rules: &Vec<LocalizedAttributesRule>, field: &str) -> (r: Option<u16>)
    requires
        rules@.len() <= MAX_RULE_COUNT,
    ensures
        r == encode_rule_ref(spec_first_match(localized_patterns(rules@), field@)),
{
    let ghost pats = localized_patterns(rules@);
    let n = rules.len();
    let mut i: usize = 0;
    while i < n
        invariant
            rules@.len() <= MAX_RULE_COUNT,
            n == rules@.len(),
            pats == localized_patterns(rules@),
            0 <= i <= n,
            forall|j: int| 0 <= j < i ==> !spec_rule_match(pats[j], field@),
        decreases n - i,
    {
        assert(pats[i as int] == rules@[i as int].pattern@);
        let m = rules[i].match_str(field);
        if m == PatternMatch::Match {
            proof {
                lemma_first_match_skip(pats, field@, i as int);
            }
            return Some((i + 1) as u16);
        }
        i += 1;
    }
    proof {
        lemma_first_match_skip(pats, field@, n as int);
    }
    None
}

impl MetadataBuilder {
    /// Build a metadata builder from the four loaded rule collections.
    ///
    /// A searchable-patterns collection containing the `*` wildcard collapses
    /// to unset. Construction fails — rather than silently truncating — when
    /// an ordered rule sequence exceeds the compact reference encoding.
    pub fn new(
        searchable_attributes: Option<Vec<String>>,
        filterable_attributes: Vec<FilterableAttributesRule>,
        sortable_attributes: Vec<String>,
        localized_attributes: Option<Vec<LocalizedAttributesRule>>,
    ) -> (r: Result<MetadataBuilder, MetadataError>)
        ensures
            match r {
                Ok(b) => {
                    &&& filterable_attributes@.len() <= MAX_RULE_COUNT
                    &&& (localized_attributes matches Some(v) ==> v@.len() <= MAX_RULE_COUNT)
                    &&& b.wf()
                    &&& b.searchable_view() == spec_collapse_searchable(searchable_attributes)
                    &&& b.filterable_view() == filterable_attributes@
                    &&& b.sortable_view() == sortable_attributes.deep_view()
                    &&& b.localized_view() == spec_localized_view_of(localized_attributes)
                },
                Err(MetadataError::TooManyFilterableAttributes) => filterable_attributes@.len()
                    > MAX_RULE_COUNT,
                Err(MetadataError::TooManyLocalizedAttributes) => filterable_attributes@.len()
                    <= MAX_RULE_COUNT && (localized_attributes matches Some(v) && v@.len()
                    > MAX_RULE_COUNT),
            },
    {
        if filterable_attributes.len() > MAX_RULE_COUNT {
            return Err(MetadataError::TooManyFilterableAttributes);
        }
        let localized_too_long = match &localized_attributes {
            Some(v) => v.len() > MAX_RULE_COUNT,
            None => false,
        };
        if localized_too_long {
            return Err(MetadataError::TooManyLocalizedAttributes);
        }
        let searchable_attributes = match searchable_attributes {
            None => None,
            Some(v) => if contains_wildcard(&v) {
                None
            } else {
                Some(v)
            },
        };
        Ok(MetadataBuilder {
            searchable_attributes,
            filterable_attributes,
            sortable_attributes,
            localized_attributes,
        })
    }

    /// Classify one field name. Pure: reads only the immutable rule
    /// collections, so it is safe to call concurrently from readers.
    pub fn metadata_for_field(&self, field: &str) -> (r: Metadata)
        requires
            self.wf(),
        ensures
            r == spec_classify(*self, field@),
            r.searchable == spec_searchable(self.searchable_view(), field@),
            r.sortable == spec_any_faceted(self.sortable_view(), field@),
            r.localized_rule_id() == encode_rule_ref(
                spec_first_match(localized_patterns(self.localized_rules_or_empty()), field@),
            ),
            r.filterable_rule_id() == encode_rule_ref(
                spec_first_match(filterable_patterns(self.filterable_view()), field@),
            ),
            r.localized_ref_valid(self.localized_rules_or_empty().len() as int),
            r.filterable_ref_valid(self.filterable_view().len() as int),
    {
        proof {
            lemma_rule_ref_round_trip(*self, field@);
        }
        let searchable = match &self.searchable_attributes {
            Some(attributes) => any_faceted_by(attributes, field),
            None => true,
        };
        let sortable = any_faceted_by(&self.sortable_attributes, field);
        let localized_attributes_rule_id = match &self.localized_attributes {
            Some(rules) => first_matching_localized(rules, field),
            None => None,
        };
        let filterable_attributes_rule_id = first_matching_filterable(
            &self.filterable_attributes,
            field,
        );
        Metadata { searchable, sortable, localized_attributes_rule_id, filterable_attributes_rule_id }
    }

    /// The searchable patterns, or `None` when every field is searchable.
    pub fn searchable_attributes(&self) -> (r: Option<&Vec<String>>)
        ensures
            match r {
                Some(v) => self.searchable_view() == Some(v.deep_view()),
                None => self.searchable_view() is None,
            },
    {
        self.searchable_attributes.as_ref()
    }

    /// The sortable attribute names.
    pub fn sortable_attributes(&self) -> (r: &Vec<String>)
        ensures
            r.deep_view() == self.sortable_view(),
    {
        &self.sortable_attributes
    }

    /// The ordered filterable-rule sequence.
    pub fn filterable_attributes(&self) -> (r: &Vec<FilterableAttributesRule>)
        ensures
            r@ == self.filterable_view(),
    {
        &self.filterable_attributes
    }

    /// The ordered localized-rule sequence, if any was configured.
    pub fn localized_attributes_rules(&self) -> (r: Option<&Vec<LocalizedAttributesRule>>)
        ensures
            match r {
                Some(v) => self.localized_view() == Some(v@),
                None => self.localized_view() is None,
            },
    {
        self.localized_attributes.as_ref()
    }
}

/// The name⇄id table paired with one cached classification per field id.
/// The two collections are always modified together, never independently.
#[derive(Clone, Debug)]
pub struct FieldIdMapWithMetadata {
    fields_ids_map: FieldsIdsMap,
    builder: MetadataBuilder,
    metadata: Vec<Metadata>,
}

impl FieldIdMapWithMetadata {
    /// The owned name⇄id table.
    pub closed spec fn fields_map(&self) -> FieldsIdsMap {
        self.fields_ids_map
    }

    /// The owned metadata builder.
    pub closed spec fn builder_spec(&self) -> MetadataBuilder {
        self.builder
    }

    /// The cached classifications, in id order.
    pub closed spec fn metadata_seq(&self) -> Seq<Metadata> {
        self.metadata@
    }

    /// The ordered names of the table; a name's position is its id.
    pub open spec fn names(&self) -> Seq<Seq<char>> {
        self.fields_map().names()
    }

    /// Sync invariant: the table and the metadata map hold the same count of
    /// entries, and the entry of every id is the classification of its name
    /// under the owned builder.
    pub open spec fn wf(&self) -> bool {
        &&& self.fields_map().wf()
        &&& self.builder_spec().wf()
        &&& self.metadata_seq().len() == self.names().len()
        &&& forall|i: int|
            0 <= i < self.names().len() ==> self.metadata_seq()[i] == spec_classify(
                self.builder_spec(),
                self.names()[i],
            )
    }

    /// Wrap an existing table, classifying every field it already holds.
    pub fn new(existing_fields_ids_map: FieldsIdsMap, builder: MetadataBuilder) -> (r:
        FieldIdMapWithMetadata)
        requires
            existing_fields_ids_map.wf(),
            builder.wf(),
        ensures
            r.wf(),
            r.names() == existing_fields_ids_map.names(),
            r.builder_spec() == builder,
    {
        let n = existing_fields_ids_map.len();
        let mut metadata: Vec<Metadata> = Vec::new();
        let mut i: usize = 0;
        while i < n
            invariant
                existing_fields_ids_map.wf(),
                builder.wf(),
                n == existing_fields_ids_map.names().len(),
                n <= FIELD_COUNT_LIMIT,
                0 <= i <= n,
                metadata@.len() == i,
                forall|j: int|
                    0 <= j < i ==> metadata@[j] == spec_classify(
                        builder,
                        existing_fields_ids_map.names()[j],
                    ),
            decreases n - i,
        {
            if let Some(name) = existing_fields_ids_map.name(i as u16) {
                metadata.push(builder.metadata_for_field(name));
            } else {
                proof {
                    assert(false);
                }
            }
            i += 1;
        }
        FieldIdMapWithMetadata { fields_ids_map: existing_fields_ids_map, builder, metadata }
    }

    /// The underlying name⇄id table.
    pub fn as_fields_ids_map(&self) -> (r: &FieldsIdsMap)
        ensures
            *r == self.fields_map(),
    {
        &self.fields_ids_map
    }

    /// The number of fields in the map.
    pub fn len(&self) -> (r: usize)
        ensures
            r == self.names().len(),
    {
        self.fields_ids_map.len()
    }

    /// Whether the map holds no field.
    pub fn is_empty(&self) -> (r: bool)
        ensures
            r == (self.names().len() == 0),
    {
        self.fields_ids_map.is_empty()
    }

    /// Insert a field name. A known name keeps its id; a new one receives the
    /// next free id together with a freshly computed classification, and
    /// `None` is returned exactly when the id space is full — a field that
    /// received no id is never classified.
    pub fn insert(&mut self, name: &str) -> (r: Option<FieldId>)
        requires
            old(self).wf(),
        ensures
            final(self).wf(),
            final(self).builder_spec() == old(self).builder_spec(),
            match spec_index_of(old(self).names(), name@) {
                Some(i) => r == Some(i as FieldId) && final(self).names() == old(self).names(),
                None => if old(self).names().len() < FIELD_COUNT_LIMIT {
                    r == Some(old(self).names().len() as FieldId) && final(self).names() == old(
                        self,
                    ).names().push(name@)
                } else {
                    r is None && final(self).names() == old(self).names()
                },
            },
            r matches Some(id) ==> 0 <= id < final(self).names().len() && final(self).names()[
                id as int
            ] == name@ && final(self).metadata_seq()[id as int] == spec_classify(
                old(self).builder_spec(),
                name@,
            ),
    {
        proof {
            lemma_index_of_from_properties(self.fields_ids_map.names(), name@, 0);
        }
        match self.fields_ids_map.insert(name) {
            None => None,
            Some(id) => {
                if id as usize == self.metadata.len() {
                    let m = self.builder.metadata_for_field(name);
                    self.metadata.push(m);
                }
                Some(id)
            },
        }
    }

    /// The id of a field name, if the name is known.
    pub fn id(&self, name: &str) -> (r: Option<FieldId>)
        requires
            self.wf(),
        ensures
            match r {
                Some(id) => spec_index_of(self.names(), name@) == Some(id as int),
                None => spec_index_of(self.names(), name@) is None,
            },
    {
        self.fields_ids_map.id(name)
    }

    /// The id and classification of a field name, if the name is known.
    pub fn id_with_metadata(&self, name: &str) -> (r: Option<(FieldId, Metadata)>)
        requires
            self.wf(),
        ensures
            match r {
                Some((id, m)) => spec_index_of(self.names(), name@) == Some(id as int) && m
                    == spec_classify(self.builder_spec(), self.names()[id as int]),
                None => spec_index_of(self.names(), name@) is None,
            },
    {
        match self.fields_ids_map.id(name) {
            None => None,
            Some(id) => {
                proof {
                    lemma_index_of_from_properties(self.names(), name@, 0);
                }
                match self.metadata(id) {
                    Some(m) => Some((id, m)),
                    None => {
                        proof {
                            assert(false);
                        }
                        None
                    },
                }
            },
        }
    }

    /// The name of a field id, if the id was allocated.
    pub fn name(&self, id: FieldId) -> (r: Option<&str>)
        ensures
            match r {
                Some(s) => (id as int) < self.names().len() && s@ == self.names()[id as int],
                None => (id as int) >= self.names().len(),
            },
    {
        self.fields_ids_map.name(id)
    }

    /// The name and classification of a field id, if the id was allocated.
    pub fn name_with_metadata(&self, id: FieldId) -> (r: Option<(&str, Metadata)>)
        requires
            self.wf(),
        ensures
            match r {
                Some((s, m)) => (id as int) < self.names().len() && s@ == self.names()[id as int]
                    && m == spec_classify(self.builder_spec(), self.names()[id as int]),
                None => (id as int) >= self.names().len(),
            },
    {
        match self.fields_ids_map.name(id) {
            None => None,
            Some(s) => {
                if (id as usize) < self.metadata.len() {
                    Some((s, self.metadata[id as usize]))
                } else {
                    proof {
                        assert(false);
                    }
                    None
                }
            },
        }
    }

    /// The classification of a field id, if the id was allocated.
    pub fn metadata(&self, id: FieldId) -> (r: Option<Metadata>)
        requires
            self.wf(),
        ensures
            match r {
                Some(m) => (id as int) < self.names().len() && m == spec_classify(
                    self.builder_spec(),
                    self.names()[id as int],
                ),
                None => (id as int) >= self.names().len(),
            },
    {
        if (id as usize) < self.metadata.len() {
            Some(self.metadata[id as usize])
        } else {
            None
        }
    }

    /// Every `(id, name, classification)` triple, in id order.
    pub fn iter(&self) -> (r: Vec<(FieldId, String, Metadata)>)
        requires
            self.wf(),
        ensures
            r@.len() == self.names().len(),
            forall|i: int|
                0 <= i < r@.len() ==> (#[trigger] r@[i]).0 == i as FieldId && r@[i].1@
                    == self.names()[i] && r@[i].2 == spec_classify(
                    self.builder_spec(),
                    self.names()[i],
                ),
    {
        let n = self.fields_ids_map.len();
        let mut r: Vec<(FieldId, String, Metadata)> = Vec::new();
        let mut i: usize = 0;
        while i < n
            invariant
                self.wf(),
                n == self.names().len(),
                n <= FIELD_COUNT_LIMIT,
                0 <= i <= n,
                r@.len() == i,
                forall|j: int|
                    0 <= j < i ==> (#[trigger] r@[j]).0 == j as FieldId && r@[j].1@
                        == self.names()[j] && r@[j].2 == spec_classify(
                        self.builder_spec(),
                        self.names()[j],
                    ),
            decreases n - i,
        {
            if let Some(name) = self.fields_ids_map.name(i as u16) {
                r.push((i as u16, name.to_owned(), self.metadata[i]));
            } else {
                proof {
                    assert(false);
                }
            }
            i += 1;
        }
        r
    }

    /// Every `(id, classification)` pair, in id order.
    pub fn iter_id_metadata(&self) -> (r: Vec<(FieldId, Metadata)>)
        requires
            self.wf(),
        ensures
            r@.len() == self.names().len(),
            forall|i: int|
                0 <= i < r@.len() ==> (#[trigger] r@[i]).0 == i as FieldId && r@[i].1
                    == spec_classify(self.builder_spec(), self.names()[i]),
    {
        let n = self.metadata.len();
        let mut r: Vec<(FieldId, Metadata)> = Vec::new();
        let mut i: usize = 0;
        while i < n
            invariant
                self.wf(),
                n == self.names().len(),
                n <= FIELD_COUNT_LIMIT,
                0 <= i <= n,
                r@.len() == i,
                forall|j: int|
                    0 <= j < i ==> (#[trigger] r@[j]).0 == j as FieldId && r@[j].1 == spec_classify(
                        self.builder_spec(),
                        self.names()[j],
                    ),
            decreases n - i,
        {
            r.push((i as u16, self.metadata[i]));
            i += 1;
        }
        r
    }

    /// Every classification, in id order.
    pub fn iter_metadata(&self) -> (r: Vec<Metadata>)
        requires
            self.wf(),
        ensures
            r@.len() == self.names().len(),
            forall|i: int|
                0 <= i < r@.len() ==> #[trigger] r@[i] == spec_classify(
                    self.builder_spec(),
                    self.names()[i],
                ),
    {
        let n = self.metadata.len();
        let mut r: Vec<Metadata> = Vec::new();
        let mut i: usize = 0;
        while i < n
            invariant
                self.wf(),
                n == self.names().len(),
                0 <= i <= n,
                r@.len() == i,
                forall|j: int|
                    0 <= j < i ==> #[trigger] r@[j] == spec_classify(
                        self.builder_spec(),
                        self.names()[j],
                    ),
            decreases n - i,
        {
            r.push(self.metadata[i]);
            i += 1;
        }
        r
    }

    /// The owned metadata builder.
    pub fn metadata_builder(&self) -> (r: &MetadataBuilder)
        ensures
            *r == self.builder_spec(),
    {
        &self.builder
    }
}

/// Precedence: a classification references the lowest-indexed matching rule
/// of an ordered rule sequence — every rule before the referenced one fails
/// to match — and an absent reference means no rule matches at all.
pub proof fn lemma_classify_precedence(b: MetadataBuilder, field: Seq<char>)
    requires
        b.wf(),
    ensures
        match spec_classify(b, field).filterable_rule_id() {
            Some(k) => 1 <= k <= b.filterable_view().len() && spec_rule_match(
                b.filterable_view()[k - 1].pattern@,
                field,
            ) && forall|j: int|
                0 <= j < k - 1 ==> !spec_rule_match(b.filterable_view()[j].pattern@, field),
            None => forall|j: int|
                0 <= j < b.filterable_view().len() ==> !spec_rule_match(
                    b.filterable_view()[j].pattern@,
                    field,
                ),
        },
        match spec_classify(b, field).localized_rule_id() {
            Some(k) => 1 <= k <= b.localized_rules_or_empty().len() && spec_rule_match(
                b.localized_rules_or_empty()[k - 1].pattern@,
                field,
            ) && forall|j: int|
                0 <= j < k - 1 ==> !spec_rule_match(
                    b.localized_rules_or_empty()[j].pattern@,
                    field,
                ),
            None => forall|j: int|
                0 <= j < b.localized_rules_or_empty().len() ==> !spec_rule_match(
                    b.localized_rules_or_empty()[j].pattern@,
                    field,
                ),
        },
{
    let fpats = filterable_patterns(b.filterable_view());
    let lpats = localized_patterns(b.localized_rules_or_empty());
    lemma_first_match_is_earliest(fpats, field, 0);
    lemma_first_match_is_earliest(lpats, field, 0);
    if let Some(i) = spec_first_match(fpats, field) {
        assert(0 <= i < fpats.len() <= MAX_RULE_COUNT);
        assert((i + 1) as u16 == i + 1);
        assert(spec_rule_match(b.filterable_view()[i].pattern@, field));
        assert forall|j: int| 0 <= j < i implies !spec_rule_match(
            b.filterable_view()[j].pattern@,
            field,
        ) by {
            assert(fpats[j] == b.filterable_view()[j].pattern@);
        }
    } else {
        assert forall|j: int| 0 <= j < b.filterable_view().len() implies !spec_rule_match(
            b.filterable_view()[j].pattern@,
            field,
        ) by {
            assert(fpats[j] == b.filterable_view()[j].pattern@);
        }
    }
    if let Some(i) = spec_first_match(lpats, field) {
        assert(0 <= i < lpats.len() <= MAX_RULE_COUNT);
        assert((i + 1) as u16 == i + 1);
        assert(spec_rule_match(b.localized_rules_or_empty()[i].pattern@, field));
        assert forall|j: int| 0 <= j < i implies !spec_rule_match(
            b.localized_rules_or_empty()[j].pattern@,
            field,
        ) by {
            assert(lpats[j] == b.localized_rules_or_empty()[j].pattern@);
        }
    } else {
        assert forall|j: int| 0 <= j < b.localized_rules_or_empty().len() implies !spec_rule_match(
            b.localized_rules_or_empty()[j].pattern@,
            field,
        ) by {
            assert(lpats[j] == b.localized_rules_or_empty()[j].pattern@);
        }
    }
}

/// Wildcard collapse: when the searchable-patterns collection is unset — as
/// construction makes it whenever any configured pattern is `*` — every field
/// is searchable.
pub proof fn lemma_wildcard_all_searchable(b: MetadataBuilder, field: Seq<char>)
    requires
        b.searchable_view() is None,
    ensures
        spec_classify(b, field).searchable,
{
}

/// A configured searchable-patterns collection holding the `*` wildcard in
/// any position collapses to the unset collection at construction.
pub proof fn lemma_wildcard_collapses_to_unset(attrs: Option<Vec<String>>, i: int)
    requires
        attrs matches Some(v) && 0 <= i < v@.len() && spec_is_wildcard(v@[i]@),
    ensures
        spec_collapse_searchable(attrs) is None,
{
}

/// No features by default: with no matching filterable rule the resolved
/// features are the all-disabled value, and the field is faceted exactly when
/// it is sortable.
pub proof fn lemma_no_features_by_default(m: Metadata, rules: Seq<FilterableAttributesRule>)
    requires
        m.filterable_rule_id() is None,
    ensures
        spec_features_of(m, rules) == FilterableAttributesFeatures::spec_no_features(),
        spec_is_faceted(m, rules) == m.sortable,
{
}

/// Reference round-trip: a present compact reference is valid for the rule
/// sequence it was computed from, and resolving it there names exactly the
/// first matching rule of that sequence.
pub proof fn lemma_rule_ref_round_trip(b: MetadataBuilder, field: Seq<char>)
    requires
        b.wf(),
    ensures
        spec_classify(b, field).filterable_ref_valid(b.filterable_view().len() as int),
        spec_classify(b, field).filterable_rule_id() matches Some(k) ==> spec_first_match(
            filterable_patterns(b.filterable_view()),
            field,
        ) == Some(k - 1),
        spec_classify(b, field).localized_ref_valid(b.localized_rules_or_empty().len() as int),
        spec_classify(b, field).localized_rule_id() matches Some(k) ==> spec_first_match(
            localized_patterns(b.localized_rules_or_empty()),
            field,
        ) == Some(k - 1),
{
    lemma_first_match_is_earliest(filterable_patterns(b.filterable_view()), field, 0);
    lemma_first_match_is_earliest(localized_patterns(b.localized_rules_or_empty()), field, 0);
}

/// Sync invariant: the id table and the metadata map always hold the same
/// count of entries, and every allocated id resolves to the classification of
/// its name.
pub proof fn lemma_map_table_in_sync(m: FieldIdMapWithMetadata)
    requires
        m.wf(),
    ensures
        m.metadata_seq().len() == m.names().len(),
        forall|i: int|
            0 <= i < m.names().len() ==> m.metadata_seq()[i] == spec_classify(
                m.builder_spec(),
                m.names()[i],
            ),
{
}

} // verus!
