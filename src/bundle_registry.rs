use crate::bundle_file::BundleFile;
use crate::bundler::{applied, copied, Bundler, EntityContext, Inserter};
use crate::component_registry::{total, ComponentRegistry};
use crate::error::BundleError;
use crate::name_map::NameMap;
use crate::value::{json_string, string_value};
use vstd::prelude::*;

verus! {

/// The reserved field that holds a bundle's name.
pub open spec fn name_key() -> Seq<char> {
    seq!['n', 'a', 'm', 'e']
}

/// The bundle name a definition declares: its `"name"` field, when that field
/// is a string.
pub open spec fn bundle_name(def: BundleFile) -> Option<Seq<char>> {
    if def@.contains_key(name_key()) {
        json_string(def@[name_key()])
    } else {
        None
    }
}

/// Where the `"name"` field stands among a definition's fields.
pub open spec fn name_index(def: BundleFile) -> int {
    choose|i: int| 0 <= i < def.fields().len() && def.fields()[i].0 == name_key()
}

/// The component fields of a definition, in declaration order: every field
/// but `"name"`.
pub open spec fn component_fields(def: BundleFile) -> Seq<(Seq<char>, serde_json::Value)> {
    if def@.contains_key(name_key()) {
        def.fields().remove(name_index(def))
    } else {
        def.fields()
    }
}

/// Every decoder registered in `reg` can be called on any value.
pub open spec fn all_total<C, F: Fn(&serde_json::Value) -> Option<C>>(
    reg: Map<Seq<char>, F>,
) -> bool {
    forall|k: Seq<char>| #[trigger] reg.contains_key(k) ==> total(reg[k])
}

/// `comps` are, one for one, components that the registered decoders produced
/// from `fields`.
pub open spec fn resolved<C, F: Fn(&serde_json::Value) -> Option<C>>(
    reg: Map<Seq<char>, F>,
    fields: Seq<(Seq<char>, serde_json::Value)>,
    comps: Seq<Inserter<C>>,
) -> bool {
    &&& comps.len() == fields.len()
    &&& forall|j: int|
        0 <= j < fields.len() ==> {
            &&& #[trigger] reg.contains_key(fields[j].0)
            &&& comps[j] is Component
            &&& reg[fields[j].0].ensures((&fields[j].1,), Some(comps[j]->Component_0))
        }
}

/// `chain` is what loading `def` through `reg` builds: the tag of the bundle's
/// name, then one decoded component per component field, in declaration order.
pub open spec fn built<C, F: Fn(&serde_json::Value) -> Option<C>>(
    reg: Map<Seq<char>, F>,
    def: BundleFile,
    chain: Seq<Inserter<C>>,
) -> bool {
    &&& bundle_name(def) is Some
    &&& chain.len() >= 1
    &&& chain[0] is Name
    &&& chain[0]->Name_0@ == bundle_name(def)->Some_0
    &&& resolved(reg, component_fields(def), chain.skip(1))
}

/// Some field of `fields` names no registered decoder.
pub open spec fn has_unknown<F>(reg: Map<Seq<char>, F>, fields: Seq<(Seq<char>, serde_json::Value)>) -> bool {
    exists|k: int| 0 <= k < fields.len() && !#[trigger] reg.contains_key(fields[k].0)
}

/// The fields before position `k` decoded, and the decoder of field `k`
/// rejected its value.
pub open spec fn rejected_at<C, F: Fn(&serde_json::Value) -> Option<C>>(
    reg: Map<Seq<char>, F>,
    fields: Seq<(Seq<char>, serde_json::Value)>,
    k: int,
) -> bool {
    &&& 0 <= k < fields.len()
    &&& exists|comps: Seq<Inserter<C>>| resolved(reg, fields.take(k), comps)
    &&& reg.contains_key(fields[k].0)
    &&& reg[fields[k].0].ensures((&fields[k].1,), None)
}

/// Built bundles by bundle name. A later load under the same name replaces
/// the earlier bundle.
#[derive(Clone)]
pub struct BundleRegistry<C> {
    bundles: NameMap<Bundler<C>>,
}

impl<C> View for BundleRegistry<C> {
    type V = Map<Seq<char>, Bundler<C>>;

    closed spec fn view(&self) -> Map<Seq<char>, Bundler<C>> {
        self.bundles@
    }
}

impl<C: Clone> BundleRegistry<C> {
    pub closed spec fn wf(&self) -> bool {
        self.bundles.wf()
    }

    pub fn new() -> (r: Self)
        ensures
            r.wf(),
            r@ == Map::<Seq<char>, Bundler<C>>::empty(),
    {
        BundleRegistry { bundles: NameMap::new() }
    }

    /// The bundle loaded under `name`.
    pub fn get(&self, name: &str) -> (r: Option<&Bundler<C>>)
        requires
            self.wf(),
        ensures
            match r {
                Some(b) => self@.contains_key(name@) && *b == self@[name@],
                None => !self@.contains_key(name@),
            },
    {
        self.bundles.get(name)
    }

    /// Spawns the bundle loaded under `name` onto `ctx`. An unknown name
    /// leaves `ctx` as it was.
    pub fn spawn(&self, name: &str, ctx: &mut EntityContext<C>) -> (r: Result<(), BundleError>)
        requires
            self.wf(),
        ensures
            self@.contains_key(name@) <==> r is Ok,
            r is Ok ==> applied(old(ctx).attached@, self@[name@]@, final(ctx).attached@),
            r is Err ==> r == Err::<(), BundleError>(BundleError::UnknownBundle)
                && final(ctx).attached@ == old(ctx).attached@,
    {
        match self.bundles.get(name) {
            Some(b) => {
                b.spawn(ctx);
                Ok(())
            },
            None => Err(BundleError::UnknownBundle),
        }
    }

    /// Builds the bundle that `def` describes and stores it under its name,
    /// replacing any bundle of that name. The chain starts with the name tag,
    /// then one inserter per component field in declaration order. On any
    /// error nothing is stored.
    pub fn load<F: Fn(&serde_json::Value) -> Option<C>>(
        &mut self,
        component_registry: &ComponentRegistry<F>,
        bundle_file: BundleFile,
    ) -> (r: Result<Bundler<C>, BundleError>)
        requires
            old(self).wf(),
            component_registry.wf(),
            all_total(component_registry@),
            bundle_file.wf(),
        ensures
            final(self).wf(),
            bundle_name(bundle_file) is None <==> r == Err::<Bundler<C>, BundleError>(
                BundleError::SchemaError,
            ),
            bundle_name(bundle_file) is Some && has_unknown(
                component_registry@,
                component_fields(bundle_file),
            ) <==> r == Err::<Bundler<C>, BundleError>(BundleError::UnknownComponent),
            r is Err ==> final(self)@ == old(self)@,
            r is Err ==> r->Err_0 != BundleError::UnknownBundle,
            r == Err::<Bundler<C>, BundleError>(BundleError::DecodeError) ==> exists|k: int|
                rejected_at(component_registry@, component_fields(bundle_file), k),
            r is Ok ==> {
                let name = bundle_name(bundle_file)->Some_0;
                &&& bundle_name(bundle_file) is Some
                &&& final(self)@.contains_key(name)
                &&& final(self)@ == old(self)@.insert(name, final(self)@[name])
                &&& built(component_registry@, bundle_file, final(self)@[name]@)
                &&& copied(final(self)@[name]@, r->Ok_0@)
            },
    {
        let mut def = bundle_file;
        proof {
            reveal_strlit("name");
            assert("name"@ =~= name_key());
            def.lemma_fields();
        }
        let name_value = def.remove("name");
        let name = match name_value {
            None => {
                return Err(BundleError::SchemaError);
            },
            Some(v) => match string_value(&v) {
                None => {
                    return Err(BundleError::SchemaError);
                },
                Some(s) => s,
            },
        };
        proof {
            let k = choose|i: int|
                0 <= i < bundle_file.fields().len() && bundle_file.fields()[i].0 == name_key()
                    && def.fields() == bundle_file.fields().remove(i);
            assert(0 <= k < bundle_file.fields().len() && bundle_file.fields()[k].0 == name_key());
            let n = name_index(bundle_file);
            assert(0 <= n < bundle_file.fields().len() && bundle_file.fields()[n].0 == name_key());
            assert(n == k);
            assert(def.fields() == component_fields(bundle_file));
        }
        let ghost fields = component_fields(bundle_file);
        let mut i: usize = 0;
        while i < def.len()
            invariant
                self.wf(),
                self@ == old(self)@,
                bundle_name(bundle_file) == Some(name@),
                def.fields() == fields,
                fields == component_fields(bundle_file),
                component_registry.wf(),
                i <= fields.len(),
                forall|j: int| 0 <= j < i ==> #[trigger] component_registry@.contains_key(fields[j].0),
            decreases fields.len() - i,
        {
            if !component_registry.contains(def.name_at(i).as_str()) {
                assert(!component_registry@.contains_key(fields[i as int].0));
                return Err(BundleError::UnknownComponent);
            }
            i = i + 1;
        }
        let mut bundler: Bundler<C> = Bundler::new();
        bundler.insert(Inserter::Name(name.clone()));
        i = 0;
        while i < def.len()
            invariant
                self.wf(),
                self@ == old(self)@,
                def.wf(),
                def.fields() == fields,
                fields == component_fields(bundle_file),
                forall|j: int| 0 <= j < fields.len() ==> #[trigger] component_registry@.contains_key(fields[j].0),
                i <= fields.len(),
                component_registry.wf(),
                all_total(component_registry@),
                bundle_name(bundle_file) == Some(name@),
                bundler@.len() == i + 1,
                bundler@[0] is Name,
                bundler@[0]->Name_0@ == name@,
                resolved(component_registry@, fields.take(i as int), bundler@.skip(1)),
            decreases fields.len() - i,
        {
            let ghost before = bundler@;
            let key = def.name_at(i);
            let value = def.value_at(i);
            let ins = match component_registry.decode(key.as_str(), value) {
                Ok(ins) => ins,
                Err(e) => {
                    assert(component_registry@.contains_key(fields[i as int].0));
                    assert(rejected_at(component_registry@, fields, i as int));
                    return Err(e);
                },
            };
            bundler.insert(ins);
            proof {
                let comps = bundler@.skip(1);
                let done = fields.take(i + 1);
                assert(comps =~= before.skip(1).push(ins));
                assert(done =~= fields.take(i as int).push(fields[i as int]));
                assert forall|j: int| 0 <= j < done.len() implies {
                    &&& #[trigger] component_registry@.contains_key(done[j].0)
                    &&& comps[j] is Component
                    &&& component_registry@[done[j].0].ensures(
                        (&done[j].1,),
                        Some(comps[j]->Component_0),
                    )
                } by {
                    if j < i {
                        assert(done[j] == fields.take(i as int)[j]);
                        assert(comps[j] == before.skip(1)[j]);
                    } else {
                        assert(done[j] == fields[i as int]);
                        assert(comps[j] == ins);
                    }
                }
                assert(resolved(component_registry@, done, comps));
            }
            i = i + 1;
        }
        proof {
            assert(fields.take(i as int) =~= fields);
        }
        let out = bundler.copy();
        self.bundles.insert(name.as_str(), bundler);
        Ok(out)
    }
}

} // verus!
