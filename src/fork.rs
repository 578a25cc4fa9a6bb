use vstd::prelude::*;
use itertools::Itertools;
use crate::builtins::{ExitCode, TransientContext};
use crate::context::{Context, CtxObj, Value, lemma_views_of};
use crate::text::{uuid_v5_url, uuid_v5_url_of};

verus! {

/// The number of tuples in the cartesian product of ranges of these sizes.
pub open spec fn product_count(sizes: Seq<usize>) -> nat
    decreases sizes.len(),
{
    if sizes.len() == 0 {
        1
    } else {
        product_count(sizes.drop_last()) * (sizes.last() as nat)
    }
}

/// The `k`-th tuple of the cartesian product of ranges of these sizes, in
/// lexicographic order: the last position varies fastest.
pub open spec fn index_tuple(sizes: Seq<usize>, k: int) -> Seq<usize>
    decreases sizes.len(),
{
    if sizes.len() == 0 {
        Seq::empty()
    } else {
        let n = sizes.last() as int;
        index_tuple(sizes.drop_last(), k / n).push((k % n) as usize)
    }
}

/// Relies on itertools::Itertools::multi_cartesian_product: every tuple of the
/// product, in lexicographic order; one empty tuple when there is no range.
#[verifier::external_body]
fn index_product(sizes: &Vec<usize>) -> (r: Vec<Vec<usize>>)
    ensures
        r@.len() == product_count(sizes@),
        forall|k: int| 0 <= k < r@.len() ==> (#[trigger] r@[k])@ == index_tuple(sizes@, k),
{
    sizes.iter().map(|&n| 0..n).multi_cartesian_product().collect()
}

/// The key of a context with exactly one key.
pub open spec fn single_key_of(c: Map<Seq<char>, Value>) -> Option<Seq<char>> {
    if exists|k: Seq<char>| c.dom() == set![k] {
        Some(choose|k: Seq<char>| c.dom() == set![k])
    } else {
        None
    }
}

/// The key of a context with exactly one key, if it has one key.
pub fn single_key(ctx: &Context) -> (r: Option<String>)
    ensures
        r matches Some(k) ==> single_key_of(ctx@) == Some(k@),
        r is None ==> single_key_of(ctx@) is None,
{
    let keys = ctx.keys();
    if keys.len() == 1 {
        let k = keys[0].clone();
        proof {
            assert(ctx@.dom() =~= set![k@]);
            let c = choose|c: Seq<char>| ctx@.dom() == set![c];
            assert(set![c].contains(c));
            assert(c == k@);
        }
        Some(k)
    } else {
        proof {
            if exists|c: Seq<char>| ctx@.dom() == set![c] {
                let c = choose|c: Seq<char>| ctx@.dom() == set![c];
                assert(ctx@.contains_key(c));
                if keys@.len() == 0 {
                    assert(false);
                } else {
                    assert(ctx@.contains_key(keys@[0]@));
                    assert(ctx@.contains_key(keys@[1]@));
                    assert(keys@[0]@ != keys@[1]@);
                    assert(false);
                }
            }
        }
        None
    }
}

/// One axis of a parameter grid: a name and the values it ranges over.
pub open spec fn axis_of(c: Map<Seq<char>, Value>) -> Option<(Seq<char>, Seq<Value>)> {
    match single_key_of(c) {
        Some(k) => if c[k] is Array {
            Some((k, c[k]->Array_0))
        } else {
            None
        },
        None => None,
    }
}

/// The axes of a grid, in declaration order: each entry that maps a single
/// name to an array. Other entries take no part.
pub open spec fn grid_axes(grid: Seq<Map<Seq<char>, Value>>) -> Seq<(Seq<char>, Seq<Value>)>
    decreases grid.len(),
{
    if grid.len() == 0 {
        Seq::empty()
    } else {
        let rest = grid_axes(grid.drop_last());
        match axis_of(grid.last()) {
            Some(a) => rest.push(a),
            None => rest,
        }
    }
}

/// The number of combinations of a list of axes: the product of their sizes.
pub open spec fn combination_count(axes: Seq<(Seq<char>, Seq<Value>)>) -> nat
    decreases axes.len(),
{
    if axes.len() == 0 {
        1
    } else {
        combination_count(axes.drop_last()) * axes.last().1.len()
    }
}

/// The bindings of one combination: each axis name bound to the value that
/// the index tuple picks; a later axis wins over an earlier one of the same name.
pub open spec fn combination(axes: Seq<(Seq<char>, Seq<Value>)>, idx: Seq<usize>) -> Map<Seq<char>, Value>
    decreases axes.len(),
{
    if axes.len() == 0 {
        Map::empty()
    } else {
        combination(axes.drop_last(), idx.drop_last()).insert(
            axes.last().0,
            axes.last().1[idx.last() as int],
        )
    }
}

/// The views of a list of contexts.
pub open spec fn context_views(v: Seq<Context>) -> Seq<Map<Seq<char>, Value>> {
    v.map_values(|c: Context| c@)
}

/// The sizes of a list of axes.
pub open spec fn axis_sizes(axes: Seq<(Seq<char>, Seq<Value>)>) -> Seq<usize> {
    axes.map_values(|a: (Seq<char>, Seq<Value>)| a.1.len() as usize)
}

proof fn lemma_counts_agree(axes: Seq<(Seq<char>, Seq<Value>)>)
    requires
        forall|i: int| 0 <= i < axes.len() ==> (#[trigger] axes[i]).1.len() <= usize::MAX,
    ensures
        product_count(axis_sizes(axes)) == combination_count(axes),
    decreases axes.len(),
{
    if axes.len() > 0 {
        lemma_counts_agree(axes.drop_last());
        assert(axis_sizes(axes).drop_last() =~= axis_sizes(axes.drop_last()));
    }
}

proof fn lemma_tuple_len(sizes: Seq<usize>, k: int)
    ensures
        index_tuple(sizes, k).len() == sizes.len(),
    decreases sizes.len(),
{
    if sizes.len() > 0 {
        let n = sizes.last() as int;
        lemma_tuple_len(sizes.drop_last(), k / n);
    }
}

/// A separate value for each combination of the grid: the parameter space.
///
/// There is one context per combination, in lexicographic order of the index
/// tuples, so there are as many as the product of the axis sizes.
pub fn param_space(grid: &Vec<Context>) -> (r: Vec<Context>)
    ensures
        r@.len() == combination_count(grid_axes(context_views(grid@))),
        forall|k: int| 0 <= k < r@.len() ==> (#[trigger] r@[k])@ == combination(
            grid_axes(context_views(grid@)),
            index_tuple(axis_sizes(grid_axes(context_views(grid@))), k),
        ),
{
    let ghost gv = context_views(grid@);
    let mut names: Vec<String> = Vec::new();
    let mut values: Vec<&Vec<CtxObj>> = Vec::new();
    let mut sizes: Vec<usize> = Vec::new();
    let mut i: usize = 0;
    while i < grid.len()
        invariant
            0 <= i <= grid@.len(),
            gv == context_views(grid@),
            names@.len() == values@.len(),
            sizes@.len() == values@.len(),
            names@.len() == grid_axes(gv.subrange(0, i as int)).len(),
            forall|j: int| 0 <= j < names@.len() ==> {
                let a = #[trigger] grid_axes(gv.subrange(0, i as int))[j];
                &&& names@[j]@ == a.0
                &&& values@[j]@.len() == a.1.len()
                &&& sizes@[j] == values@[j]@.len()
                &&& forall|t: int| 0 <= t < a.1.len() ==> a.1[t] == (#[trigger] values@[j]@[t])@
            },
        decreases grid@.len() - i,
    {
        let c = &grid[i];
        let ghost pre = gv.subrange(0, i as int);
        let ghost post = gv.subrange(0, i + 1);
        proof {
            assert(post.drop_last() =~= pre);
            assert(post.last() == c@);
        }
        match single_key(c) {
            Some(k) => {
                match c.get(k.as_str()) {
                    Some(CtxObj::Array(items)) => {
                        proof {
                            lemma_views_of(items, items@.len() as int);
                        }
                        names.push(k);
                        sizes.push(items.len());
                        values.push(items);
                    },
                    _ => {},
                }
            },
            None => {},
        }
        proof {
            assert(grid_axes(post) == match axis_of(c@) {
                Some(a) => grid_axes(pre).push(a),
                None => grid_axes(pre),
            });
        }
        i = i + 1;
    }
    let ghost axes = grid_axes(gv);
    proof {
        assert(gv.subrange(0, grid@.len() as int) =~= gv);
        assert(sizes@ =~= axis_sizes(axes));
        lemma_counts_agree(axes);
    }
    let tuples = index_product(&sizes);
    let mut out: Vec<Context> = Vec::new();
    let mut t: usize = 0;
    while t < tuples.len()
        invariant
            0 <= t <= tuples@.len(),
            tuples@.len() == product_count(sizes@),
            forall|k: int| 0 <= k < tuples@.len() ==> (#[trigger] tuples@[k])@ == index_tuple(sizes@, k),
            sizes@ == axis_sizes(axes),
            names@.len() == axes.len(),
            values@.len() == axes.len(),
            sizes@.len() == axes.len(),
            forall|j: int| 0 <= j < axes.len() ==> {
                let a = #[trigger] axes[j];
                &&& names@[j]@ == a.0
                &&& values@[j]@.len() == a.1.len()
                &&& sizes@[j] == values@[j]@.len()
                &&& forall|u: int| 0 <= u < a.1.len() ==> a.1[u] == (#[trigger] values@[j]@[u])@
            },
            out@.len() == t,
            forall|k: int| 0 <= k < t ==> (#[trigger] out@[k])@ == combination(axes, index_tuple(sizes@, k)),
        decreases tuples@.len() - t,
    {
        let idx = &tuples[t];
        proof {
            lemma_tuple_len(sizes@, t as int);
            lemma_tuple_in_range(sizes@, t as int);
        }
        let mut local = Context::new();
        let mut j: usize = 0;
        while j < idx.len()
            invariant
                0 <= j <= idx@.len(),
                idx@ == index_tuple(sizes@, t as int),
                idx@.len() == axes.len(),
                forall|q: int| 0 <= q < idx@.len() ==> (#[trigger] idx@[q]) < sizes@[q],
                names@.len() == axes.len(),
                values@.len() == axes.len(),
                sizes@.len() == axes.len(),
                forall|q: int| 0 <= q < axes.len() ==> {
                    let a = #[trigger] axes[q];
                    &&& names@[q]@ == a.0
                    &&& values@[q]@.len() == a.1.len()
                    &&& sizes@[q] == values@[q]@.len()
                    &&& forall|u: int| 0 <= u < a.1.len() ==> a.1[u] == (#[trigger] values@[q]@[u])@
                },
                local@ == combination(axes.subrange(0, j as int), idx@.subrange(0, j as int)),
            decreases idx@.len() - j,
        {
            let pick = idx[j];
            proof {
                let a = axes[j as int];
                assert(sizes@[j as int] == values@[j as int]@.len());
                assert(pick < sizes@[j as int]);
            }
            let v = values[j][pick].duplicate();
            local = local.set(names[j].as_str(), v);
            proof {
                let a2 = axes.subrange(0, j + 1);
                let i2 = idx@.subrange(0, j + 1);
                assert(a2.drop_last() =~= axes.subrange(0, j as int));
                assert(i2.drop_last() =~= idx@.subrange(0, j as int));
                assert(a2.last() == axes[j as int]);
                assert(i2.last() == pick);
            }
            j = j + 1;
        }
        proof {
            assert(axes.subrange(0, axes.len() as int) =~= axes);
            assert(idx@.subrange(0, idx@.len() as int) =~= idx@);
        }
        out.push(local);
        t = t + 1;
    }
    out
}

proof fn lemma_tuple_in_range(sizes: Seq<usize>, k: int)
    requires
        0 <= k < product_count(sizes),
    ensures
        forall|q: int| 0 <= q < sizes.len() ==> (#[trigger] index_tuple(sizes, k)[q]) < sizes[q],
    decreases sizes.len(),
{
    if sizes.len() > 0 {
        let n = sizes.last() as int;
        let rest = sizes.drop_last();
        let c = product_count(rest) as int;
        assert(product_count(sizes) == c * n);
        assert(n > 0) by (nonlinear_arith)
            requires
                0 <= k < c * n,
                c >= 0,
                n >= 0,
        ;
        assert(0 <= k / n < c) by (nonlinear_arith)
            requires
                0 <= k < c * n,
                n > 0,
        ;
        lemma_tuple_in_range(rest, k / n);
        lemma_tuple_len(rest, k / n);
        assert(0 <= k % n < n) by (nonlinear_arith)
            requires
                n > 0,
        ;
        assert forall|q: int| 0 <= q < sizes.len() implies (#[trigger] index_tuple(sizes, k)[q]) < sizes[q] by {
            if q < sizes.len() - 1 {
                assert(index_tuple(sizes, k)[q] == index_tuple(rest, k / n)[q]);
                assert(rest[q] == sizes[q]);
            }
        }
    }
}

/// How one forked child ended, as the parent saw it.
#[derive(Debug, Clone, Copy, PartialEq, Eq, Structural)]
pub enum ChildOutcome {
    /// The child exited with this status.
    Exited(i32),
    /// The child was killed by a signal.
    Signaled,
    /// The parent could not wait for the child.
    Lost,
}

/// The code of a fork: `ErrSys` when a child could not be spawned or waited
/// for, else `Success` when every child exited with status 0, else `ErrTask`.
pub open spec fn fork_exit(spawn_failed: bool, outcomes: Seq<ChildOutcome>) -> ExitCode {
    if spawn_failed || exists|i: int| 0 <= i < outcomes.len() && outcomes[i] == ChildOutcome::Lost {
        ExitCode::ErrSys
    } else if forall|i: int| 0 <= i < outcomes.len() ==> outcomes[i] == ChildOutcome::Exited(0) {
        ExitCode::Success
    } else {
        ExitCode::ErrTask
    }
}

/// The parent's result of a fork, from how its children ended.
pub fn fork_outcome(spawn_failed: bool, outcomes: &Vec<ChildOutcome>) -> (r: TransientContext)
    ensures
        r == TransientContext::Diverging(fork_exit(spawn_failed, outcomes@)),
        r == TransientContext::Diverging(ExitCode::Success) <==> !spawn_failed && forall|i: int|
            0 <= i < outcomes@.len() ==> outcomes@[i] == ChildOutcome::Exited(0),
        spawn_failed ==> r == TransientContext::Diverging(ExitCode::ErrSys),
        (!spawn_failed && (forall|i: int| 0 <= i < outcomes@.len() ==> outcomes@[i] != ChildOutcome::Lost)
            && exists|i: int| 0 <= i < outcomes@.len() && outcomes@[i] != ChildOutcome::Exited(0)) ==> r
            == TransientContext::Diverging(ExitCode::ErrTask),
{
    if spawn_failed {
        return TransientContext::Diverging(ExitCode::ErrSys);
    }
    let mut lost = false;
    let mut all_ok = true;
    let mut i: usize = 0;
    while i < outcomes.len()
        invariant
            0 <= i <= outcomes@.len(),
            lost <==> exists|j: int| 0 <= j < i && outcomes@[j] == ChildOutcome::Lost,
            all_ok <==> forall|j: int| 0 <= j < i ==> outcomes@[j] == ChildOutcome::Exited(0),
        decreases outcomes@.len() - i,
    {
        match outcomes[i] {
            ChildOutcome::Exited(0) => {},
            ChildOutcome::Lost => {
                lost = true;
                all_ok = false;
            },
            _ => {
                all_ok = false;
            },
        }
        proof {
            assert(outcomes@[i as int] == outcomes[i as int]);
            if lost {
                if outcomes@[i as int] == ChildOutcome::Lost {
                    assert(exists|j: int| 0 <= j < i + 1 && outcomes@[j] == ChildOutcome::Lost);
                } else {
                    let j = choose|j: int| 0 <= j < i && outcomes@[j] == ChildOutcome::Lost;
                    assert(0 <= j < i + 1 && outcomes@[j] == ChildOutcome::Lost);
                }
            }
            if !all_ok {
                if outcomes@[i as int] != ChildOutcome::Exited(0) {
                    assert(!(outcomes@[i as int] == ChildOutcome::Exited(0)));
                } else {
                    let j = choose|j: int| 0 <= j < i && !(outcomes@[j] == ChildOutcome::Exited(0));
                    assert(0 <= j < i + 1 && !(outcomes@[j] == ChildOutcome::Exited(0)));
                }
            }
        }
        i = i + 1;
    }
    if lost {
        TransientContext::Diverging(ExitCode::ErrSys)
    } else if all_ok {
        TransientContext::Diverging(ExitCode::Success)
    } else {
        TransientContext::Diverging(ExitCode::ErrTask)
    }
}

/// The state a forked child starts from: its combination, the `_exit` marker,
/// and `fork_uuid`, the version-5 UUID of the combination's printed form.
pub fn fork_child(combo: &Context, printed: &str) -> (r: Context)
    ensures
        r@ == combo@.insert("_exit"@, Value::Bool(true)).insert("fork_uuid"@, Value::Str(uuid_v5_url_of(printed@))),
{
    let id = uuid_v5_url(printed);
    combo.set("_exit", CtxObj::Bool(true)).set("fork_uuid", CtxObj::Str(id))
}

/// The resource pool of a fork: the name of the resource class and the
/// identifiers that children take in turn.
pub struct ResourcePool {
    pub name: String,
    pub items: Vec<CtxObj>,
}

/// What a fork runs: one child per combination of the grid, at most as many
/// at once as the pool has resources when there is a pool.
pub struct ForkPlan {
    pub combinations: Vec<Context>,
    pub pool: Option<ResourcePool>,
}

/// The resource class and identifiers of a fork step, when `resource` maps a
/// single name: to an array, a pool; to anything else, an error.
pub open spec fn pool_of(ctx: Map<Seq<char>, Value>) -> Option<Option<(Seq<char>, Seq<Value>)>> {
    if ctx.contains_key("resource"@) && ctx["resource"@] is Context {
        let res = ctx["resource"@]->Context_0;
        match single_key_of(res) {
            Some(k) => if res[k] is Array {
                Some(Some((k, res[k]->Array_0)))
            } else {
                None
            },
            None => Some(None),
        }
    } else {
        Some(None)
    }
}

/// The `sys_fork` built-in, as what it runs: the parameter space of `grid` and
/// the resource pool. Without a `grid` array of contexts, or with a resource
/// class that is not an array, the step fails with `ErrYML`.
pub fn fork(ctx: &Context) -> (r: Result<ForkPlan, ExitCode>)
    ensures
        r is Err <==> !(ctx@.contains_key("grid"@) && ctx@["grid"@] is Array && crate::context::all_contexts(
            ctx@["grid"@]->Array_0,
        )) || pool_of(ctx@) is None,
        r matches Err(e) ==> e == ExitCode::ErrYML,
        r matches Ok(plan) ==> exists|grid: Seq<Context>|
            {
                &&& ctx@["grid"@]->Array_0 == grid.map_values(|c: Context| Value::Context(c@))
                &&& plan.combinations@.len() == combination_count(grid_axes(context_views(grid)))
                &&& forall|k: int|
                    0 <= k < plan.combinations@.len() ==> (#[trigger] plan.combinations@[k])@ == combination(
                        grid_axes(context_views(grid)),
                        index_tuple(axis_sizes(grid_axes(context_views(grid))), k),
                    )
            },
        r matches Ok(plan) ==> match pool_of(ctx@) {
            Some(Some(p)) => plan.pool matches Some(pool) && pool.name@ == p.0 && pool.items@.len() == p.1.len()
                && forall|i: int| 0 <= i < p.1.len() ==> p.1[i] == (#[trigger] pool.items@[i])@,
            _ => plan.pool is None,
        },
{
    let grid = match ctx.list_contexts("grid") {
        Some(g) => g,
        None => {
            return Err(ExitCode::ErrYML);
        },
    };
    let ghost gs = ctx@["grid"@]->Array_0;
    proof {
        assert(gs =~= grid@.map_values(|c: Context| Value::Context(c@)));
    }
    let pool = match ctx.subcontext("resource") {
        Some(resources) => match single_key(&resources) {
            Some(name) => match resources.get(name.as_str()) {
                Some(CtxObj::Array(items)) => {
                    let mut copies: Vec<CtxObj> = Vec::new();
                    let mut i: usize = 0;
                    while i < items.len()
                        invariant
                            0 <= i <= items@.len(),
                            copies@.len() == i,
                            forall|j: int| 0 <= j < i ==> (#[trigger] copies@[j])@ == items@[j]@,
                        decreases items@.len() - i,
                    {
                        copies.push(items[i].duplicate());
                        i = i + 1;
                    }
                    proof {
                        lemma_views_of(items, items@.len() as int);
                    }
                    Some(ResourcePool { name, items: copies })
                },
                _ => {
                    return Err(ExitCode::ErrYML);
                },
            },
            None => None,
        },
        None => None,
    };
    let combinations = param_space(&grid);
    Ok(ForkPlan { combinations, pool })
}

/// The slots of a resource pool that no running child holds.
pub struct SlotPool {
    free: Vec<usize>,
    size: usize,
}

impl SlotPool {
    /// Whether the free slots are distinct slots of the pool.
    pub closed spec fn wf(&self) -> bool {
        &&& forall|i: int| 0 <= i < self.free@.len() ==> self.free@[i] < self.size
        &&& forall|i: int, j: int| 0 <= i < j < self.free@.len() ==> self.free@[i] != self.free@[j]
    }

    /// The free slots.
    pub closed spec fn free_slots(&self) -> Set<usize> {
        self.free@.to_set()
    }

    /// The number of slots.
    pub closed spec fn capacity(&self) -> usize {
        self.size
    }

    /// A pool of `size` slots, all free.
    pub fn new(size: usize) -> (r: SlotPool)
        ensures
            r.wf(),
            r.capacity() == size,
            r.free_slots() == Set::new(|s: usize| s < size),
    {
        let mut free: Vec<usize> = Vec::new();
        let mut i: usize = 0;
        while i < size
            invariant
                0 <= i <= size,
                free@.len() == i,
                forall|j: int| 0 <= j < i ==> free@[j] == j,
            decreases size - i,
        {
            free.push(i);
            i = i + 1;
        }
        let r = SlotPool { free, size };
        proof {
            assert forall|s: usize| #[trigger] r.free_slots().contains(s) <==> s < size by {
                if s < size {
                    assert(r.free@[s as int] == s);
                }
            }
            assert(r.free_slots() =~= Set::new(|s: usize| s < size));
        }
        r
    }

    /// Takes a free slot, if there is one.
    pub fn acquire(&mut self) -> (r: Option<usize>)
        requires
            old(self).wf(),
        ensures
            final(self).wf(),
            final(self).capacity() == old(self).capacity(),
            r is None <==> old(self).free_slots().is_empty(),
            r matches Some(s) ==> old(self).free_slots().contains(s) && final(self).free_slots() == old(
                self,
            ).free_slots().remove(s),
            r is None ==> final(self).free_slots() == old(self).free_slots(),
    {
        match self.free.pop() {
            Some(s) => {
                proof {
                    let o = old(self).free@;
                    assert(o == self.free@.push(s));
                    assert(o[o.len() - 1] == s);
                    assert(o.to_set().contains(s));
                    assert forall|x: usize| #[trigger] self.free@.to_set().contains(x) <==> o.to_set().remove(s).contains(x) by {
                        if o.to_set().remove(s).contains(x) {
                            let k = choose|k: int| 0 <= k < o.len() && o[k] == x;
                            assert(k != o.len() - 1);
                            assert(self.free@[k] == x);
                        }
                        if self.free@.to_set().contains(x) {
                            let k = choose|k: int| 0 <= k < self.free@.len() && self.free@[k] == x;
                            assert(o[k] == x);
                            assert(x != s);
                        }
                    }
                    assert(self.free@.to_set() =~= o.to_set().remove(s));
                }
                Some(s)
            },
            None => {
                proof {
                    assert(old(self).free@.len() == 0);
                    assert(old(self).free_slots() =~= Set::<usize>::empty());
                }
                None
            },
        }
    }

    /// Gives a slot back.
    pub fn release(&mut self, slot: usize)
        requires
            old(self).wf(),
            slot < old(self).capacity(),
            !old(self).free_slots().contains(slot),
        ensures
            final(self).wf(),
            final(self).capacity() == old(self).capacity(),
            final(self).free_slots() == old(self).free_slots().insert(slot),
    {
        let ghost o = self.free@;
        self.free.push(slot);
        proof {
            assert forall|i: int| 0 <= i < o.len() implies o[i] != slot by {
                assert(o.to_set().contains(o[i]));
            }
            assert forall|x: usize| #[trigger] self.free@.to_set().contains(x) <==> o.to_set().insert(slot).contains(x) by {
                if o.to_set().insert(slot).contains(x) {
                    if x == slot {
                        assert(self.free@[o.len() as int] == x);
                    } else {
                        let k = choose|k: int| 0 <= k < o.len() && o[k] == x;
                        assert(self.free@[k] == x);
                    }
                }
                if self.free@.to_set().contains(x) {
                    let k = choose|k: int| 0 <= k < self.free@.len() && self.free@[k] == x;
                    if k < o.len() {
                        assert(o[k] == x);
                    }
                }
            }
            assert(self.free@.to_set() =~= o.to_set().insert(slot));
        }
    }
}

} // verus!
