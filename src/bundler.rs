use vstd::prelude::*;

verus! {

/// One unit of work that attaches something to an entity: the name tag of the
/// bundle it came from, or one decoded component.
#[derive(Clone, Debug)]
pub enum Inserter<C> {
    Name(String),
    Component(C),
}

/// `b` is what applying `a` attaches: the same name, or a clone of the
/// same component.
pub open spec fn attaches<C: Clone>(a: Inserter<C>, b: Inserter<C>) -> bool {
    match a {
        Inserter::Name(x) => b is Name && b->Name_0@ == x@,
        Inserter::Component(x) => b is Component && cloned(x, b->Component_0),
    }
}

/// `after` is `before` followed by what each of `ops` attaches, in order.
pub open spec fn applied<C: Clone>(
    before: Seq<Inserter<C>>,
    ops: Seq<Inserter<C>>,
    after: Seq<Inserter<C>>,
) -> bool {
    &&& after.len() == before.len() + ops.len()
    &&& after.subrange(0, before.len() as int) == before
    &&& forall|i: int| 0 <= i < ops.len() ==> #[trigger] attaches(ops[i], after[before.len() + i])
}

/// `b` holds, position by position, what `a` attaches.
pub open spec fn copied<C: Clone>(a: Seq<Inserter<C>>, b: Seq<Inserter<C>>) -> bool {
    &&& b.len() == a.len()
    &&& forall|i: int| 0 <= i < a.len() ==> #[trigger] attaches(a[i], b[i])
}

/// The mutation context of one entity: every attach made through it, oldest
/// first. The host replays them onto its own entity storage.
pub struct EntityContext<C> {
    pub attached: Vec<Inserter<C>>,
}

impl<C> EntityContext<C> {
    pub fn new() -> (r: Self)
        ensures
            r.attached@ == Seq::<Inserter<C>>::empty(),
    {
        EntityContext { attached: Vec::new() }
    }
}

impl<C: Clone> Inserter<C> {
    /// Attaches this inserter's tag or component to `ctx`.
    pub fn apply(&self, ctx: &mut EntityContext<C>)
        ensures
            applied(old(ctx).attached@, seq![*self], final(ctx).attached@),
    {
        let item = match self {
            Inserter::Name(n) => Inserter::Name(n.clone()),
            Inserter::Component(c) => Inserter::Component(c.clone()),
        };
        ctx.attached.push(item);
        assert(ctx.attached@.subrange(0, old(ctx).attached@.len() as int) =~= old(ctx).attached@);
    }
}

/// An ordered chain of inserters; spawning applies them in the order in which
/// they were appended.
#[derive(Clone, Debug)]
pub struct Bundler<C> {
    inserters: Vec<Inserter<C>>,
}

impl<C> View for Bundler<C> {
    type V = Seq<Inserter<C>>;

    closed spec fn view(&self) -> Seq<Inserter<C>> {
        self.inserters@
    }
}

impl<C: Clone> Default for Bundler<C> {
    fn default() -> (r: Self)
        ensures
            r@ == Seq::<Inserter<C>>::empty(),
    {
        Bundler::new()
    }
}

impl<C: Clone> Bundler<C> {
    /// An empty chain: spawning it changes nothing.
    pub fn new() -> (r: Self)
        ensures
            r@ == Seq::<Inserter<C>>::empty(),
    {
        Bundler { inserters: Vec::new() }
    }

    /// Appends one inserter at the end of the chain.
    pub fn insert(&mut self, inserter: Inserter<C>)
        ensures
            final(self)@ == old(self)@.push(inserter),
    {
        self.inserters.push(inserter);
    }

    /// Applies every inserter of the chain to `ctx`, in append order.
    pub fn spawn(&self, ctx: &mut EntityContext<C>)
        ensures
            applied(old(ctx).attached@, self@, final(ctx).attached@),
    {
        let ghost before = ctx.attached@;
        let mut i: usize = 0;
        assert(before.subrange(0, before.len() as int) =~= before);
        while i < self.inserters.len()
            invariant
                i <= self@.len(),
                applied(before, self@.subrange(0, i as int), ctx.attached@),
            decreases self@.len() - i,
        {
            let ghost mid = ctx.attached@;
            self.inserters[i].apply(ctx);
            proof {
                let ops = self@.subrange(0, i + 1);
                assert(ctx.attached@.subrange(0, before.len() as int) =~= mid.subrange(
                    0,
                    before.len() as int,
                ));
                assert forall|j: int| 0 <= j < ops.len() implies #[trigger] attaches(
                    ops[j],
                    ctx.attached@[before.len() + j],
                ) by {
                    if j < i {
                        assert(self@.subrange(0, i as int)[j] == ops[j]);
                        assert(ctx.attached@[before.len() + j] == mid[before.len() + j]);
                    } else {
                        let one = seq![self@[i as int]];
                        assert(one[0] == ops[j]);
                        assert(attaches(one[0], ctx.attached@[mid.len() as int + 0]));
                    }
                }
            }
            i = i + 1;
        }
        assert(self@.subrange(0, i as int) =~= self@);
    }

    /// A second handle on the same chain: each inserter is carried over with
    /// its name or a clone of its component.
    pub fn copy(&self) -> (r: Self)
        ensures
            copied(self@, r@),
    {
        let mut ctx = EntityContext::new();
        self.spawn(&mut ctx);
        proof {
            assert forall|i: int| 0 <= i < self@.len() implies #[trigger] attaches(
                self@[i],
                ctx.attached@[i],
            ) by {
                assert(attaches(self@[i], ctx.attached@[0 + i]));
            }
        }
        Bundler { inserters: ctx.attached }
    }
}

} // verus!
