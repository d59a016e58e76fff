use vstd::prelude::*;

verus! {

/// Why a bundle could not be loaded or spawned.
#[derive(Clone, Copy, Debug, PartialEq, Eq, Structural)]
pub enum BundleError {
    /// A component name has no decoder registered under it.
    UnknownComponent,
    /// A bundle name was never loaded.
    UnknownBundle,
    /// A decoder rejected the value given for its component.
    DecodeError,
    /// The definition has no `"name"` field, or that field is not a string.
    SchemaError,
}

} // verus!
