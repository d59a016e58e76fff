//! Data-driven entity construction: named bundles of components, described
//! as untyped values, resolved once through a registry of component decoders
//! and then spawned onto entities any number of times.

mod bundle_file;
mod bundle_registry;
mod bundler;
mod component_registry;
mod error;
mod laws;
mod name_map;
mod plugin;
mod value;

pub use bundle_file::BundleFile;
pub use bundle_registry::{
    all_total, built, bundle_name, component_fields, has_unknown, name_index, name_key,
    rejected_at, resolved, BundleRegistry,
};
pub use bundler::{applied, attaches, copied, Bundler, EntityContext, Inserter};
pub use component_registry::{total, ComponentRegistry};
pub use error::BundleError;
pub use laws::{
    carries_decoded, def_name, lemma_last_load_wins, lemma_spawn_carries_component,
    lemma_spawn_keeps_declaration_order,
};
pub use name_map::NameMap;
pub use plugin::AssetPlugin;
pub use value::json_string;
