use crate::component_registry::ComponentRegistry;
use vstd::prelude::*;

verus! {

/// Startup configuration: the component decoders to install, gathered one
/// registration at a time.
#[derive(Clone)]
pub struct AssetPlugin<F> {
    pub registry: ComponentRegistry<F>,
}

impl<F> AssetPlugin<F> {
    /// A configuration with no component registered.
    pub fn new() -> (r: Self)
        ensures
            r.registry.wf(),
            r.registry@ == Map::<Seq<char>, F>::empty(),
    {
        AssetPlugin { registry: ComponentRegistry::new() }
    }

    /// Registers `decoder` under the component name `name`, replacing an
    /// earlier registration of that name.
    pub fn add(self, name: &str, decoder: F) -> (r: Self)
        requires
            self.registry.wf(),
        ensures
            r.registry.wf(),
            r.registry@ == self.registry@.insert(name@, decoder),
    {
        let mut plugin = self;
        plugin.registry.insert(name, decoder);
        plugin
    }
}

} // verus!
