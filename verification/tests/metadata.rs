use milli::attribute_patterns::{is_faceted_by, match_pattern};
use milli::{
    FieldIdMapWithMetadata, FieldsIdsMap, FilterableAttributesFeatures, FilterableAttributesRule,
    LocalizedAttributesRule, MetadataBuilder, MetadataError, PatternMatch,
};

fn filter_rule(pattern: &str, filter: bool, facet_search: bool) -> FilterableAttributesRule {
    FilterableAttributesRule::new(
        pattern.to_string(),
        FilterableAttributesFeatures::new(filter, facet_search),
    )
}

fn localized_rule(pattern: &str, locales: &[&str]) -> LocalizedAttributesRule {
    LocalizedAttributesRule::new(
        pattern.to_string(),
        locales.iter().map(|l| l.to_string()).collect(),
    )
}

fn strings(v: &[&str]) -> Vec<String> {
    v.iter().map(|s| s.to_string()).collect()
}

#[test]
fn pattern_match_wildcard_and_suffix() {
    assert_eq!(match_pattern("*", "anything"), PatternMatch::Match);
    assert_eq!(match_pattern("tags.*", "tags.color"), PatternMatch::Match);
    assert_eq!(match_pattern("tags.*", "tags.color.hue"), PatternMatch::Match);
    assert_eq!(match_pattern("tags.*", "tags"), PatternMatch::Parent);
    assert_eq!(match_pattern("tags.*", "author"), PatternMatch::NoMatch);
    assert_eq!(match_pattern("title", "title"), PatternMatch::Match);
    assert_eq!(match_pattern("title", "title.fr"), PatternMatch::Match);
    assert_eq!(match_pattern("title.fr", "title"), PatternMatch::Parent);
    assert_eq!(match_pattern("title", "subtitle"), PatternMatch::NoMatch);
}

#[test]
fn faceting_relation() {
    assert!(is_faceted_by("tags.color", "tags"));
    assert!(is_faceted_by("tags", "tags"));
    assert!(!is_faceted_by("tags", "tags.color"));
    assert!(!is_faceted_by("tagsandmore", "tags"));
    assert!(!is_faceted_by("author", "tags"));
}

#[test]
fn classify_nested_filterable_field() {
    let rules = vec![filter_rule("title", true, false), filter_rule("tags.*", true, false)];
    let builder =
        MetadataBuilder::new(None, rules.clone(), strings(&["price"]), None).unwrap();

    let m = builder.metadata_for_field("tags.color");
    assert!(m.searchable);
    assert!(!m.sortable);
    assert_eq!(m.filterable_attributes_rule_id, Some(2));
    let matched = m.filterable_attributes(&rules).unwrap();
    assert_eq!(matched.pattern, "tags.*");
    assert!(m.is_faceted(&rules));

    let price = builder.metadata_for_field("price");
    assert!(price.sortable);
    assert_eq!(price.filterable_attributes_rule_id, None);
}

#[test]
fn wildcard_collapses_searchable_patterns() {
    let builder = MetadataBuilder::new(
        Some(strings(&["title", "*"])),
        Vec::new(),
        Vec::new(),
        None,
    )
    .unwrap();
    assert!(builder.searchable_attributes().is_none());
    assert!(builder.metadata_for_field("anything").searchable);
}

#[test]
fn wildcard_collapses_in_any_position() {
    for pats in [
        vec!["*"],
        vec!["*", "title"],
        vec!["title", "*", "tags"],
    ] {
        let builder = MetadataBuilder::new(
            Some(strings(&pats)),
            vec![filter_rule("title", true, false)],
            strings(&["price"]),
            Some(vec![localized_rule("name_fr", &["fr"])]),
        )
        .unwrap();
        assert!(builder.searchable_attributes().is_none());
        assert!(builder.metadata_for_field("anything").searchable);
        assert!(builder.metadata_for_field("price").searchable);
    }
}

#[test]
fn explicit_searchable_patterns_restrict() {
    let builder = MetadataBuilder::new(
        Some(strings(&["title"])),
        Vec::new(),
        Vec::new(),
        None,
    )
    .unwrap();
    assert_eq!(builder.searchable_attributes().map(|v| v.len()), Some(1));
    assert!(builder.metadata_for_field("title").searchable);
    assert!(builder.metadata_for_field("title.fr").searchable);
    assert!(!builder.metadata_for_field("price").searchable);
}

#[test]
fn localized_rules_resolve_locales() {
    let rules = vec![localized_rule("name_fr", &["fr"])];
    let builder =
        MetadataBuilder::new(None, Vec::new(), Vec::new(), Some(rules.clone())).unwrap();

    let m_fr = builder.metadata_for_field("name_fr");
    assert_eq!(m_fr.localized_attributes_rule_id, Some(1));
    assert_eq!(m_fr.locales(&rules), Some(&strings(&["fr"])));

    let m_en = builder.metadata_for_field("name_en");
    assert_eq!(m_en.localized_attributes_rule_id, None);
    assert_eq!(m_en.locales(&rules), None);
}

#[test]
fn first_matching_rule_wins() {
    // Both rules match "title"; the lowest-indexed one must be referenced.
    let rules = vec![filter_rule("title", true, true), filter_rule("title", false, false)];
    let builder = MetadataBuilder::new(None, rules.clone(), Vec::new(), None).unwrap();
    let m = builder.metadata_for_field("title");
    assert_eq!(m.filterable_attributes_rule_id, Some(1));
    let features = m.filterable_attributes_features(&rules);
    assert!(features.is_filterable());
    assert!(features.is_facet_searchable());
}

#[test]
fn no_matching_rule_means_no_features() {
    let rules = vec![filter_rule("title", true, true)];
    let builder =
        MetadataBuilder::new(None, rules.clone(), strings(&["price"]), None).unwrap();

    // Not sortable, no matching filterable rule: nothing is enabled.
    let m = builder.metadata_for_field("author");
    assert_eq!(m.filterable_attributes(&rules), None);
    assert_eq!(
        m.filterable_attributes_features(&rules),
        FilterableAttributesFeatures::no_features()
    );
    assert!(!m.is_faceted(&rules));

    // Sortable but still without a matching filterable rule: faceted anyway.
    let m = builder.metadata_for_field("price");
    assert_eq!(
        m.filterable_attributes_features(&rules),
        FilterableAttributesFeatures::no_features()
    );
    assert!(m.is_faceted(&rules));
}

#[test]
fn too_many_filterable_rules_are_rejected() {
    let rules: Vec<FilterableAttributesRule> =
        (0..65536).map(|_| filter_rule("x", false, false)).collect();
    let r = MetadataBuilder::new(None, rules, Vec::new(), None);
    assert_eq!(r.unwrap_err(), MetadataError::TooManyFilterableAttributes);
}

#[test]
fn too_many_localized_rules_are_rejected() {
    let rules: Vec<LocalizedAttributesRule> =
        (0..65536).map(|_| localized_rule("x", &[])).collect();
    let r = MetadataBuilder::new(None, Vec::new(), Vec::new(), Some(rules));
    assert_eq!(r.unwrap_err(), MetadataError::TooManyLocalizedAttributes);
}

#[test]
fn fields_ids_map_round_trip() {
    let mut map = FieldsIdsMap::new();
    assert!(map.is_empty());
    let a = map.insert("title").unwrap();
    let b = map.insert("price").unwrap();
    assert_eq!((a, b), (0, 1));
    assert_eq!(map.insert("title"), Some(0));
    assert_eq!(map.len(), 2);
    assert_eq!(map.id("price"), Some(1));
    assert_eq!(map.id("missing"), None);
    assert_eq!(map.name(0), Some("title"));
    assert_eq!(map.name(7), None);
    let entries = map.iter();
    assert_eq!(entries, vec![(0, "title".to_string()), (1, "price".to_string())]);
}

#[test]
fn map_and_metadata_stay_in_sync() {
    let rules = vec![filter_rule("tags.*", true, false)];
    let builder =
        MetadataBuilder::new(None, rules.clone(), strings(&["price"]), None).unwrap();
    let mut map = FieldIdMapWithMetadata::new(FieldsIdsMap::new(), builder);

    for (i, name) in ["title", "tags.color", "price"].iter().enumerate() {
        let id = map.insert(name).unwrap();
        assert_eq!(id as usize, i);
        // Every id yielded by insert has retrievable metadata immediately.
        assert!(map.metadata(id).is_some());
        assert_eq!(map.len(), i + 1);
        assert_eq!(map.iter_id_metadata().len(), map.len());
        assert_eq!(map.iter_metadata().len(), map.len());
    }

    // Re-inserting keeps the id and the counts.
    assert_eq!(map.insert("tags.color"), Some(1));
    assert_eq!(map.len(), 3);
    assert_eq!(map.iter_id_metadata().len(), 3);

    let m = map.metadata(1).unwrap();
    assert_eq!(m.filterable_attributes_rule_id, Some(1));
    assert!(m.is_faceted(&rules));

    let (id, m2) = map.id_with_metadata("tags.color").unwrap();
    assert_eq!(id, 1);
    assert_eq!(m2, m);
    let (name, m3) = map.name_with_metadata(1).unwrap();
    assert_eq!(name, "tags.color");
    assert_eq!(m3, m);
    assert_eq!(map.name(1), Some("tags.color"));
    assert_eq!(map.id("tags.color"), Some(1));

    let triples = map.iter();
    assert_eq!(triples.len(), 3);
    assert_eq!(triples[1].0, 1);
    assert_eq!(triples[1].1, "tags.color");
    assert_eq!(triples[1].2, m);

    assert_eq!(map.as_fields_ids_map().len(), 3);
    assert!(map.metadata_builder().searchable_attributes().is_none());
}

#[test]
fn preexisting_fields_are_classified_on_wrap() {
    let mut table = FieldsIdsMap::new();
    table.insert("title").unwrap();
    table.insert("price").unwrap();
    let rules = vec![filter_rule("price", true, false)];
    let builder =
        MetadataBuilder::new(None, rules.clone(), Vec::new(), None).unwrap();
    let map = FieldIdMapWithMetadata::new(table, builder);
    assert_eq!(map.len(), 2);
    assert_eq!(map.metadata(0).unwrap().filterable_attributes_rule_id, None);
    assert_eq!(map.metadata(1).unwrap().filterable_attributes_rule_id, Some(1));
}

#[test]
fn builder_accessors_expose_rule_collections() {
    let frules = vec![filter_rule("a", true, false)];
    let lrules = vec![localized_rule("b", &["en"])];
    let builder = MetadataBuilder::new(
        Some(strings(&["title"])),
        frules.clone(),
        strings(&["price"]),
        Some(lrules.clone()),
    )
    .unwrap();
    assert_eq!(builder.searchable_attributes(), Some(&strings(&["title"])));
    assert_eq!(builder.sortable_attributes(), &strings(&["price"]));
    assert_eq!(builder.filterable_attributes(), &frules);
    assert_eq!(builder.localized_attributes_rules(), Some(&lrules));
}
