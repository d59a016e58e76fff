use crate::bundle_file::BundleFile;
use crate::bundle_registry::{built, component_fields};
use crate::bundler::{applied, attaches, Bundler, Inserter};
use vstd::prelude::*;

verus! {

/// `ins` attaches a clone of a component that the decoder registered under
/// `field`'s name produced from `field`'s value.
pub open spec fn carries_decoded<C: Clone, F: Fn(&serde_json::Value) -> Option<C>>(
    reg: Map<Seq<char>, F>,
    field: (Seq<char>, serde_json::Value),
    ins: Inserter<C>,
) -> bool {
    &&& reg.contains_key(field.0)
    &&& ins is Component
    &&& exists|c: C| reg[field.0].ensures((&field.1,), Some(c)) && cloned(c, ins->Component_0)
}

/// Where spawning `chain` onto a context put the component of field `j`.
proof fn lemma_position<C: Clone, F: Fn(&serde_json::Value) -> Option<C>>(
    reg: Map<Seq<char>, F>,
    def: BundleFile,
    chain: Seq<Inserter<C>>,
    before: Seq<Inserter<C>>,
    after: Seq<Inserter<C>>,
    j: int,
)
    requires
        built(reg, def, chain),
        applied(before, chain, after),
        0 <= j < component_fields(def).len(),
    ensures
        before.len() + 1 + j < after.len(),
        carries_decoded(reg, component_fields(def)[j], after[before.len() + 1 + j]),
{
    let fields = component_fields(def);
    let comps = chain.skip(1);
    assert(comps[j] == chain[j + 1]);
    assert(attaches(chain[j + 1], after[before.len() + (j + 1)]));
    assert(reg.contains_key(fields[j].0));
    let c = comps[j]->Component_0;
    assert(reg[fields[j].0].ensures((&fields[j].1,), Some(c)));
    assert(cloned(c, after[before.len() + 1 + j]->Component_0));
}

/// Spawning a loaded bundle attaches, for a component field `N: V` whose
/// decoder accepted `V`, a clone of the decoded component; the bundle's name
/// tag is attached first.
pub proof fn lemma_spawn_carries_component<C: Clone, F: Fn(&serde_json::Value) -> Option<C>>(
    reg: Map<Seq<char>, F>,
    def: BundleFile,
    chain: Seq<Inserter<C>>,
    before: Seq<Inserter<C>>,
    after: Seq<Inserter<C>>,
    j: int,
)
    requires
        built(reg, def, chain),
        applied(before, chain, after),
        0 <= j < component_fields(def).len(),
    ensures
        after[before.len() as int] is Name,
        after[before.len() as int]->Name_0@ == def_name(def),
        exists|p: int|
            before.len() <= p < after.len() && carries_decoded(
                reg,
                component_fields(def)[j],
                #[trigger] after[p],
            ),
{
    lemma_position(reg, def, chain, before, after, j);
    assert(attaches(chain[0], after[before.len() as int + 0]));
    let p = before.len() + 1 + j;
    assert(carries_decoded(reg, component_fields(def)[j], after[p]));
}

/// The name a loadable definition declares.
pub open spec fn def_name(def: BundleFile) -> Seq<char> {
    crate::bundle_registry::bundle_name(def)->Some_0
}

/// Spawning applies the component fields in declaration order: the component
/// of an earlier field is attached before that of a later one.
pub proof fn lemma_spawn_keeps_declaration_order<
    C: Clone,
    F: Fn(&serde_json::Value) -> Option<C>,
>(
    reg: Map<Seq<char>, F>,
    def: BundleFile,
    chain: Seq<Inserter<C>>,
    before: Seq<Inserter<C>>,
    after: Seq<Inserter<C>>,
    a: int,
    b: int,
)
    requires
        built(reg, def, chain),
        applied(before, chain, after),
        0 <= a < b < component_fields(def).len(),
    ensures
        exists|pa: int, pb: int|
            before.len() <= pa < pb < after.len() && carries_decoded(
                reg,
                component_fields(def)[a],
                #[trigger] after[pa],
            ) && carries_decoded(reg, component_fields(def)[b], #[trigger] after[pb]),
{
    lemma_position(reg, def, chain, before, after, a);
    lemma_position(reg, def, chain, before, after, b);
    let pa = before.len() + 1 + a;
    let pb = before.len() + 1 + b;
    assert(carries_decoded(reg, component_fields(def)[a], after[pa]));
    assert(carries_decoded(reg, component_fields(def)[b], after[pb]));
}

/// Two loads under one name leave the registry as if only the second had
/// happened, and a spawn of that name applies the second bundle alone.
pub proof fn lemma_last_load_wins<C: Clone>(
    start: Map<Seq<char>, Bundler<C>>,
    mid: Map<Seq<char>, Bundler<C>>,
    end: Map<Seq<char>, Bundler<C>>,
    name: Seq<char>,
    first: Bundler<C>,
    second: Bundler<C>,
    before: Seq<Inserter<C>>,
    after: Seq<Inserter<C>>,
)
    requires
        mid == start.insert(name, first),
        end == mid.insert(name, second),
        applied(before, end[name]@, after),
    ensures
        end == start.insert(name, second),
        applied(before, second@, after),
{
    assert(end =~= start.insert(name, second));
}

} // verus!
