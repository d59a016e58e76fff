use crate::name_map::NameMap;
use vstd::prelude::*;

verus! {

/// A parsed bundle definition: field name to untyped value, in the order the
/// fields were declared. A repeated field keeps its first position and takes
/// the later value.
pub type BundleFile = NameMap<serde_json::Value>;

} // verus!
