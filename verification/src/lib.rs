//! Schema/metadata layer of a persistent, versioned document index.
//!
//! Two subsystems live here. Field metadata resolution classifies every field
//! of every document into searchable/sortable/filterable/localized categories
//! by matching ordered attribute-pattern rules, and caches one compact
//! [`Metadata`] record per field id. The versioned upgrade pipeline orders
//! migration steps by target version and selects the subsequence needed to
//! bring a persisted store from its recorded version to the current one, one
//! transaction per step.

pub mod attribute_patterns;
pub mod fields_ids_map;
pub mod metadata;
pub mod rules;
pub mod upgrade;

pub use attribute_patterns::PatternMatch;
pub use fields_ids_map::FieldId;
pub use fields_ids_map::FieldsIdsMap;
pub use metadata::FieldIdMapWithMetadata;
pub use metadata::Metadata;
pub use metadata::MetadataBuilder;
pub use metadata::MetadataError;
pub use rules::FilterableAttributesFeatures;
pub use rules::FilterableAttributesRule;
pub use rules::LocalizedAttributesRule;
pub use upgrade::IndexVersion;
pub use upgrade::UpgradeAction;
pub use upgrade::Latest_V1_13_To_Latest_V1_14;
pub use upgrade::UpgradePipeline;
