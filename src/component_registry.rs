use crate::bundler::Inserter;
use crate::error::BundleError;
use crate::name_map::NameMap;
use vstd::prelude::*;

verus! {

/// `f` may be called on every untyped value.
pub open spec fn total<C, F: Fn(&serde_json::Value) -> Option<C>>(f: F) -> bool {
    forall|v: &serde_json::Value| #[trigger] f.requires((v,))
}

/// Component decoders by component name. A decoder turns an untyped value into
/// a component, or rejects it with `None` when the value does not have the
/// component's shape.
#[derive(Clone)]
pub struct ComponentRegistry<F> {
    factories: NameMap<F>,
}

impl<F> View for ComponentRegistry<F> {
    type V = Map<Seq<char>, F>;

    closed spec fn view(&self) -> Map<Seq<char>, F> {
        self.factories@
    }
}

impl<F> ComponentRegistry<F> {
    pub fn new() -> (r: Self)
        ensures
            r.wf(),
            r@ == Map::<Seq<char>, F>::empty(),
    {
        ComponentRegistry { factories: NameMap::new() }
    }

    pub closed spec fn wf(&self) -> bool {
        self.factories.wf()
    }

    /// Registers `decoder` under `name`, replacing any decoder registered
    /// there before.
    pub fn insert(&mut self, name: &str, decoder: F)
        requires
            old(self).wf(),
        ensures
            final(self).wf(),
            final(self)@ == old(self)@.insert(name@, decoder),
    {
        self.factories.insert(name, decoder);
    }

    /// Whether a decoder is registered under `name`.
    pub fn contains(&self, name: &str) -> (r: bool)
        requires
            self.wf(),
        ensures
            r == self@.contains_key(name@),
    {
        self.factories.contains(name)
    }

    /// The decoder registered under `name`.
    pub fn get(&self, name: &str) -> (r: Result<&F, BundleError>)
        requires
            self.wf(),
        ensures
            match r {
                Ok(f) => self@.contains_key(name@) && *f == self@[name@],
                Err(e) => !self@.contains_key(name@) && e == BundleError::UnknownComponent,
            },
    {
        match self.factories.get(name) {
            Some(f) => Ok(f),
            None => Err(BundleError::UnknownComponent),
        }
    }

    /// Decodes `value` as the component registered under `name` and returns
    /// the inserter that attaches it.
    pub fn decode<C>(&self, name: &str, value: &serde_json::Value) -> (r: Result<
        Inserter<C>,
        BundleError,
    >) where F: Fn(&serde_json::Value) -> Option<C>
        requires
            self.wf(),
            self@.contains_key(name@) ==> total(self@[name@]),
        ensures
            !self@.contains_key(name@) <==> r == Err::<Inserter<C>, BundleError>(
                BundleError::UnknownComponent,
            ),
            self@.contains_key(name@) ==> match r {
                Ok(ins) => ins is Component && self@[name@].ensures(
                    (value,),
                    Some(ins->Component_0),
                ),
                Err(e) => e == BundleError::DecodeError && self@[name@].ensures(
                    (value,),
                    None,
                ),
            },
    {
        let f = self.get(name)?;
        match f(value) {
            Some(c) => Ok(Inserter::Component(c)),
            None => Err(BundleError::DecodeError),
        }
    }
}

} // verus!
