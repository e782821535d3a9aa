//! The plan: the resources to reconcile, their dependency order, and the run that
//! brings the cloud and the datastore in line with it.

use crate::dag::{blocked, dag_add_edge, dag_add_node, dag_edges, dag_new, dag_nodes, dag_toposort};
use crate::datastore::DatastoreError;
use crate::graph::{
    cyclic, edges_within, has_edge, lemma_topological_order_acyclic, is_prefix, is_topological_order, lemma_closing_edge_makes_cycle,
    lemma_has_edge_append, lemma_has_edge_prefix, is_path, position_of,
};
use crate::manager::{makes_absent, ManagerError, ResourceManager};
use crate::registry::ResourceType;
pub use crate::resource::item_as_resource;
use crate::resource::{
    deps_distinct, resource_id, share_arc, ResourceError, ResourceState, SharedResource,
};
use std::sync::Arc;
use vstd::rwlock::RwLock;
use vstd::prelude::*;

verus! {

/// What the plan needs to know of a resource to order and reconcile it.
#[derive(Debug, Clone)]
pub struct PlanItem {
    pub id: String,
    pub state: ResourceState,
    pub dependencies: Vec<String>,
}

/// Why a plan could not be built, ordered or carried out.
#[derive(Debug)]
pub enum PlanError {
    ResourceAlreadyExists(String),
    DependencyNotFound(String),
    DagCreationError(String),
    ResourceError(ResourceError),
    DatastoreError(DatastoreError),
}

/// The resources of a plan, by the name they were added under, in the order they were added.
/// `R` is the handle through which the caller reaches each resource.
pub struct Plan<R> {
    resources: Vec<(String, R)>,
}

impl<R> Plan<R> {
    /// No two resources were added under the same name.
    #[verifier::type_invariant]
    closed spec fn names_distinct(self) -> bool {
        forall|i: int, j: int|
            0 <= i < self.resources@.len() && 0 <= j < self.resources@.len() && i != j
                ==> #[trigger] self.resources@[i].0@ != #[trigger] self.resources@[j].0@
    }

    /// The names of the resources, in the order they were added.
    pub closed spec fn names(self) -> Seq<Seq<char>> {
        self.resources@.map_values(|e: (String, R)| e.0@)
    }

    /// The handles of the resources, in the order they were added.
    pub closed spec fn handles(self) -> Seq<R> {
        self.resources@.map_values(|e: (String, R)| e.1)
    }

    /// An empty plan.
    pub fn new() -> (p: Self)
        ensures
            p.names() == Seq::<Seq<char>>::empty(),
            p.handles() == Seq::<R>::empty(),
    {
        let p = Plan { resources: Vec::new() };
        assert(p.names() =~= Seq::<Seq<char>>::empty());
        assert(p.handles() =~= Seq::<R>::empty());
        p
    }

    /// The number of resources.
    pub fn len(&self) -> (n: usize)
        ensures
            n == self.names().len(),
            n == self.handles().len(),
    {
        self.resources.len()
    }

    /// The handle of the `i`-th resource.
    pub fn handle(&self, i: usize) -> (h: &R)
        requires
            i < self.handles().len(),
        ensures
            *h == self.handles()[i as int],
    {
        &self.resources[i].1
    }

    /// Whether a resource was added under `name`.
    pub fn contains(&self, name: &String) -> (b: bool)
        ensures
            b == self.names().contains(name@),
    {
        let mut i: usize = 0;
        while i < self.resources.len()
            invariant
                i <= self.resources@.len(),
                forall|j: int| 0 <= j < i ==> (#[trigger] self.resources@[j]).0@ != name@,
            decreases self.resources@.len() - i,
        {
            if self.resources[i].0 == *name {
                assert(self.names()[i as int] == name@);
                return true;
            }
            i = i + 1;
        }
        proof {
            if self.names().contains(name@) {
                let j = choose|j: int| 0 <= j < self.names().len() && self.names()[j] == name@;
                assert(self.resources@[j].0@ == name@);
            }
        }
        false
    }

    /// Adds the resource `resource` under `name`, which no resource of the plan may have.
    pub fn add_item(&mut self, name: &String, resource: R) -> (r: Result<(), PlanError>)
        ensures
            old(self).names().contains(name@) ==> (r matches Err(
                PlanError::ResourceAlreadyExists(n),
            ) && n@ == name@),
            old(self).names().contains(name@) ==> final(self).names() == old(self).names()
                && final(self).handles() == old(self).handles(),
            !old(self).names().contains(name@) ==> r is Ok && final(self).names() == old(
                self,
            ).names().push(name@) && final(self).handles() == old(self).handles().push(resource),
    {
        proof {
            use_type_invariant(&*self);
        }
        if self.contains(name) {
            return Err(PlanError::ResourceAlreadyExists(name.clone()));
        }
        let ghost old_res = self.resources@;
        assert(forall|i: int, j: int|
            0 <= i < old_res.len() && 0 <= j < old_res.len() && i != j ==> #[trigger] old_res[i].0@
                != #[trigger] old_res[j].0@);
        let ghost old_names = self.names();
        assert(!old_names.contains(name@));
        assert(old_names == old_res.map_values(|e: (String, R)| e.0@));
        let mut resources: Vec<(String, R)> = Vec::new();
        std::mem::swap(&mut resources, &mut self.resources);
        resources.push((name.clone(), resource));
        proof {
            let s = resources@;
            assert(s[old_res.len() as int].0@ == name@);
            assert forall|i: int, j: int|
                0 <= i < s.len() && 0 <= j < s.len() && i != j implies #[trigger] s[i].0@
                != #[trigger] s[j].0@ by {
                if i == old_res.len() {
                    assert(s[j] == old_res[j]);
                    assert(old_names[j] == s[j].0@);
                    assert(old_names.contains(old_names[j]));
                } else if j == old_res.len() {
                    assert(s[i] == old_res[i]);
                    assert(old_names[i] == s[i].0@);
                    assert(old_names.contains(old_names[i]));
                } else {
                    assert(s[i] == old_res[i] && s[j] == old_res[j]);
                    assert(old_res[i].0@ != old_res[j].0@);
                }
            }
        }
        self.resources = resources;
        proof {
            assert(self.names() =~= old(self).names().push(name@));
            assert(self.handles() =~= old(self).handles().push(resource));
        }
        Ok(())
    }
}

impl<R> Plan<R> {
    /// Adds the resource named `id` of type `resource_type`, wanted in `state`, to be brought
    /// about by `manager` from `input` (see `SharedResource::new_resource`), and returns it.
    /// The plan keeps the handle `into_item` makes of it under `id`, which no resource of
    /// the plan may have.
    pub fn add_resource<Input, Output, F: Fn(SharedResource<Input, Output>) -> R>(
        &mut self,
        resource_type: ResourceType,
        manager: Option<Arc<dyn ResourceManager<Input, Output>>>,
        id: &str,
        state: ResourceState,
        input: Input,
        into_item: F,
    ) -> (r: Result<SharedResource<Input, Output>, PlanError>)
        requires
            forall|s: SharedResource<Input, Output>| #[trigger] into_item.requires((s,)),
        ensures
            old(self).names().contains(id@) ==> (r matches Err(
                PlanError::ResourceAlreadyExists(n),
            ) && n@ == id@),
            old(self).names().contains(id@) ==> final(self).names() == old(self).names()
                && final(self).handles() == old(self).handles(),
            !old(self).names().contains(id@) ==> (r matches Ok(res) && res.spec_id()
                == resource_id(resource_type, id@) && res.spec_name() == id@
                && res.spec_resource_type() == resource_type && res.spec_manager() == manager
                && res.created_from().state == state
                && res.created_from().input == input && res.created_from().output is None
                && res.created_from().dependencies@.len() == 0 && res.created_from().bindings@.len()
                == 0 && final(self).names() == old(self).names().push(id@) && final(self).handles().len() == old(self).handles().len() + 1
                && final(self).handles().drop_last() == old(self).handles() && into_item.ensures(
                (res,),
                final(self).handles().last(),
            )),
    {
        let name = id.to_owned();
        if self.contains(&name) {
            return Err(PlanError::ResourceAlreadyExists(name));
        }
        let resource = SharedResource::new_resource(resource_type, manager, id, input, state);
        let item = into_item(resource.clone());
        let added = self.add_item(&name, item);
        proof {
            assert(self.handles().drop_last() =~= old(self).handles());
        }
        match added {
            Ok(()) => Ok(resource),
            Err(err) => Err(err),
        }
    }
}

/// What the plan does with a resource whatever its input and output types.
pub trait ResourceItem {
    /// The id of the resource.
    spec fn item_id(&self) -> Seq<char>;

    fn resource_type(&self) -> ResourceType;

    fn id(&self) -> (s: String)
        ensures
            s@ == self.item_id(),
    ;

    fn name(&self) -> String;
    fn state(&self) -> ResourceState;
    fn set_state(&self, state: ResourceState);
    fn dependencies(&self) -> Vec<String>;
    fn ensure_absent(&self) -> Result<bool, ResourceError>;
    fn apply_bindings(&self) -> Result<(), ResourceError>;
}

impl<Input: Clone, Output> ResourceItem for SharedResource<Input, Output> {
    open spec fn item_id(&self) -> Seq<char> {
        self.spec_id()
    }

    fn resource_type(&self) -> (rt: ResourceType)
        ensures
            rt == self.spec_resource_type(),
    {
        SharedResource::resource_type(self)
    }

    fn id(&self) -> (s: String) {
        match SharedResource::id(self) {
            Ok(s) => s,
            Err(_) => String::new(),
        }
    }

    fn name(&self) -> (name: String)
        ensures
            name@ == self.spec_name(),
    {
        SharedResource::name(self)
    }

    fn state(&self) -> (state: ResourceState) {
        match SharedResource::state(self) {
            Ok(state) => state,
            Err(_) => ResourceState::Present,
        }
    }

    fn set_state(&self, state: ResourceState) {
        SharedResource::set_state(self, state)
    }

    fn dependencies(&self) -> (deps: Vec<String>)
        ensures
            deps_distinct(deps@),
    {
        SharedResource::dependencies(self)
    }

    fn ensure_absent(&self) -> (r: Result<bool, ResourceError>)
        ensures
            !self.spec_has_manager() ==> r == Ok::<bool, ResourceError>(false) || r matches Err(
                ResourceError::ManagerNotSet,
            ),
            self.spec_has_manager() ==> r is Ok || r matches Err(ResourceError::ManagerError(_)),
            self.spec_manager() matches Some(m) ==> r == Ok::<bool, ResourceError>(false) || exists|
                o: Output,
                a: Result<bool, ManagerError>,
            |
                #[trigger] makes_absent(&*m, o, a) && r == match a {
                    Ok(deleted) => Ok::<bool, ResourceError>(deleted),
                    Err(e) => Err(ResourceError::ManagerError(e)),
                },
    {
        SharedResource::ensure_absent(self)
    }

    fn apply_bindings(&self) -> (r: Result<(), ResourceError>) {
        SharedResource::apply_bindings(self)
    }
}

/// Every plan is acceptable to a shared plan's lock.
pub open spec fn any_plan<R>() -> spec_fn(Plan<R>) -> bool {
    |p: Plan<R>| true
}

/// A plan shared by everyone who adds resources to it.
#[verifier::reject_recursive_types(R)]
pub struct SharedPlan<R> {
    inner: Arc<RwLock<Plan<R>, spec_fn(Plan<R>) -> bool>>,
}

impl<R> SharedPlan<R> {
    #[verifier::type_invariant]
    closed spec fn lock_accepts_any_plan(self) -> bool {
        (*self.inner).pred() == any_plan::<R>()
    }

    /// A shared empty plan.
    pub fn new() -> (p: Self) {
        let lock = RwLock::new(Plan::new(), Ghost(any_plan::<R>()));
        SharedPlan { inner: Arc::new(lock) }
    }

    /// Adds a resource to the plan (see `Plan::add_resource`). Whether a resource named `id`
    /// was there already depends on what every holder of the plan added before.
    pub fn resource<Input, Output, F: Fn(SharedResource<Input, Output>) -> R>(
        &self,
        rtype: ResourceType,
        mngr: Option<Arc<dyn ResourceManager<Input, Output>>>,
        id: &str,
        state: ResourceState,
        input: Input,
        into_item: F,
    ) -> (r: Result<SharedResource<Input, Output>, PlanError>)
        requires
            forall|s: SharedResource<Input, Output>| #[trigger] into_item.requires((s,)),
        ensures
            r matches Ok(res) ==> res.spec_id() == resource_id(rtype, id@) && res.spec_name()
                == id@ && res.spec_resource_type() == rtype && res.spec_manager() == mngr
                && res.created_from().state == state
                && res.created_from().input == input && res.created_from().output is None
                && res.created_from().dependencies@.len() == 0
                && res.created_from().bindings@.len() == 0,
            r matches Err(err) ==> (err matches PlanError::ResourceAlreadyExists(n) && n@ == id@),
            r matches Ok(res) ==> exists|h: R| #[trigger] into_item.ensures((res,), h),
    {
        proof {
            use_type_invariant(self);
        }
        let (mut plan, handle) = self.inner.acquire_write();
        let r = plan.add_resource(rtype, mngr, id, state, input, into_item);
        handle.release_write(plan);
        r
    }

    /// The handles of the resources of the plan as it is now, in the order they were added.
    pub fn handles(&self) -> (hs: Vec<R>) where R: Clone {
        let handle = self.inner.acquire_read();
        let plan = handle.borrow();
        let mut hs: Vec<R> = Vec::new();
        let mut i: usize = 0;
        while i < plan.len()
            invariant
                i <= plan.handles().len(),
            decreases plan.handles().len() - i,
        {
            hs.push(plan.handle(i).clone());
            i = i + 1;
        }
        handle.release_read();
        hs
    }
}

impl<R> Clone for SharedPlan<R> {
    /// Another handle on the same plan.
    fn clone(&self) -> (p: Self)
        ensures
            p == *self,
    {
        proof {
            use_type_invariant(self);
        }
        SharedPlan { inner: share_arc(&self.inner) }
    }
}

/// `j` is the last position of an item with id `d`.
pub open spec fn is_last_with_id(items: Seq<PlanItem>, d: Seq<char>, j: int) -> bool {
    &&& 0 <= j < items.len()
    &&& items[j].id@ == d
    &&& forall|k: int| j < k < items.len() ==> (#[trigger] items[k]).id@ != d
}

/// The node that stands for id `d`: the last item with that id, or -1 when there is none
/// (a later item with the same id takes the place of an earlier one).
pub open spec fn id_index(items: Seq<PlanItem>, d: Seq<char>) -> int {
    if exists|j: int| is_last_with_id(items, d, j) {
        choose|j: int| is_last_with_id(items, d, j)
    } else {
        -1
    }
}

/// The `k`-th dependency of item `i`.
pub open spec fn dep_of(items: Seq<PlanItem>, i: int, k: int) -> Seq<char> {
    items[i].dependencies@[k]@
}

/// The edges contributed by the first `k` dependencies of item `i`: one from the node of each
/// dependency that names an item to the node of item `i`; a dependency naming no item has none.
pub open spec fn dep_edges_of(items: Seq<PlanItem>, i: int, k: int) -> Seq<(usize, usize)>
    decreases k,
{
    if k <= 0 {
        Seq::empty()
    } else {
        let prev = dep_edges_of(items, i, k - 1);
        let j = id_index(items, dep_of(items, i, k - 1));
        if j >= 0 {
            prev.push((j as usize, id_index(items, items[i].id@) as usize))
        } else {
            prev
        }
    }
}

/// The edges contributed by the first `i` items, in the order of the items and of their
/// dependencies.
pub open spec fn edges_upto(items: Seq<PlanItem>, i: int) -> Seq<(usize, usize)>
    decreases i,
{
    if i <= 0 {
        Seq::empty()
    } else {
        edges_upto(items, i - 1) + dep_edges_of(items, i - 1, items[i - 1].dependencies@.len() as int)
    }
}

/// The dependency graph of the items: an edge from each dependency to its dependent.
pub open spec fn dependency_edges(items: Seq<PlanItem>) -> Seq<(usize, usize)> {
    edges_upto(items, items.len() as int)
}

/// Every dependency of every item names an item.
pub open spec fn all_deps_found(items: Seq<PlanItem>) -> bool {
    forall|i: int, k: int|
        0 <= i < items.len() && 0 <= k < items[i].dependencies@.len() ==> id_index(
            items,
            #[trigger] dep_of(items, i, k),
        ) >= 0
}

/// The items can be ordered: every dependency names an item and the dependencies form no
/// cycle.
pub open spec fn orderable(items: Seq<PlanItem>) -> bool {
    all_deps_found(items) && !cyclic(dependency_edges(items))
}

/// `e` is an error that ordering the items may report: a dependency that names no item, or
/// a cycle among the dependencies.
pub open spec fn ordering_error(items: Seq<PlanItem>, e: PlanError) -> bool {
    &&& !orderable(items)
    &&& match e {
        PlanError::DependencyNotFound(d) => exists|i: int, k: int|
            0 <= i < items.len() && 0 <= k < items[i].dependencies@.len() && #[trigger] dep_of(
                items,
                i,
                k,
            ) == d@ && id_index(items, d@) == -1,
        PlanError::DagCreationError(_) => cyclic(dependency_edges(items)),
        _ => false,
    }
}

/// The first problem met when the dependency graph of the items is built, dependency by
/// dependency from dependency `k` of item `i` on: a dependency that names no item, an edge the
/// graph refuses as it would close a cycle (see `blocked`); past the last item, a cycle left
/// in the graph, or none.
pub enum OrderingProblem {
    Missing(Seq<char>),
    WouldCycle,
    CycleLeft,
    NoProblem,
}

/// See `OrderingProblem`.
pub open spec fn problem_from(items: Seq<PlanItem>, i: int, k: int) -> OrderingProblem
    decreases (items.len() - i) as nat, (items[i].dependencies@.len() - k) as nat,
{
    if i < 0 || i >= items.len() {
        if cyclic(dependency_edges(items)) {
            OrderingProblem::CycleLeft
        } else {
            OrderingProblem::NoProblem
        }
    } else if k < 0 || k >= items[i].dependencies@.len() {
        problem_from(items, i + 1, 0)
    } else if id_index(items, dep_of(items, i, k)) < 0 {
        OrderingProblem::Missing(dep_of(items, i, k))
    } else if blocked(
        edges_upto(items, i) + dep_edges_of(items, i, k),
        id_index(items, dep_of(items, i, k)),
        id_index(items, items[i].id@),
    ) {
        OrderingProblem::WouldCycle
    } else {
        problem_from(items, i, k + 1)
    }
}

/// The error that ordering the items reports for `problem`, if any.
pub open spec fn reports(problem: OrderingProblem, r: Result<Vec<usize>, PlanError>) -> bool {
    match problem {
        OrderingProblem::Missing(d) => r matches Err(PlanError::DependencyNotFound(x)) && x@ == d,
        OrderingProblem::WouldCycle => r matches Err(PlanError::DagCreationError(m)) && m@
            == "WouldCycle\n"@,
        OrderingProblem::CycleLeft => r matches Err(PlanError::DagCreationError(_)),
        OrderingProblem::NoProblem => r is Ok,
    }
}

/// No items can always be ordered.
pub proof fn lemma_no_items_orderable(items: Seq<PlanItem>)
    requires
        items.len() == 0,
    ensures
        orderable(items),
{
    assert(dependency_edges(items) == Seq::<(usize, usize)>::empty());
    assert forall|p: Seq<int>| #[trigger] is_path(dependency_edges(items), p) && p.len() >= 2 implies p[0]
        != p.last() by {
        assert(has_edge(dependency_edges(items), p[0], p[1]));
    }
}

/// The number of dependencies listed by the first `i` items.
pub open spec fn total_deps(items: Seq<PlanItem>, i: int) -> int
    decreases i,
{
    if i <= 0 {
        0
    } else {
        total_deps(items, i - 1) + items[i - 1].dependencies@.len()
    }
}

/// The graph of the items fits the `u32` node and edge indices of the graph type.
pub open spec fn within_graph_limits(items: Seq<PlanItem>) -> bool {
    items.len() < u32::MAX && total_deps(items, items.len() as int) < u32::MAX
}

proof fn lemma_dep_edges_of_len(items: Seq<PlanItem>, i: int, k: int)
    requires
        k >= 0,
    ensures
        dep_edges_of(items, i, k).len() <= k,
    decreases k,
{
    if k > 0 {
        lemma_dep_edges_of_len(items, i, k - 1);
    }
}

proof fn lemma_edges_upto_len(items: Seq<PlanItem>, i: int)
    requires
        0 <= i <= items.len(),
    ensures
        edges_upto(items, i).len() <= total_deps(items, i),
        total_deps(items, i) >= 0,
    decreases i,
{
    if i > 0 {
        lemma_edges_upto_len(items, i - 1);
        lemma_dep_edges_of_len(items, i - 1, items[i - 1].dependencies@.len() as int);
    }
}

/// Whether the graph of the items fits the index types of the graph (see `within_graph_limits`).
pub fn fits_graph_limits(items: &Vec<PlanItem>) -> (b: bool)
    ensures
        b == within_graph_limits(items@),
{
    if items.len() >= 0xffff_ffff {
        return false;
    }
    let mut total: usize = 0;
    let mut i: usize = 0;
    while i < items.len()
        invariant
            i <= items.len(),
            total == total_deps(items@, i as int),
            total < u32::MAX,
        decreases items.len() - i,
    {
        let d = items[i].dependencies.len();
        if d >= 0xffff_ffff - total {
            proof {
                lemma_total_deps_monotone(items@, i as int + 1, items.len() as int);
            }
            return false;
        }
        total = total + d;
        i = i + 1;
    }
    true
}

/// Appending an item adds its dependencies to the count.
pub proof fn lemma_total_deps_push(items: Seq<PlanItem>, item: PlanItem)
    ensures
        total_deps(items.push(item), items.len() + 1 as int) == total_deps(items, items.len() as int)
            + item.dependencies@.len(),
{
    lemma_total_deps_prefix(items, item, items.len() as int);
}

proof fn lemma_total_deps_prefix(items: Seq<PlanItem>, item: PlanItem, i: int)
    requires
        0 <= i <= items.len(),
    ensures
        total_deps(items.push(item), i) == total_deps(items, i),
    decreases i,
{
    if i > 0 {
        lemma_total_deps_prefix(items, item, i - 1);
        assert(items.push(item)[i - 1] == items[i - 1]);
    }
}

proof fn lemma_total_deps_monotone(items: Seq<PlanItem>, i: int, m: int)
    requires
        0 <= i <= m <= items.len(),
    ensures
        total_deps(items, i) <= total_deps(items, m),
    decreases m - i,
{
    if i < m {
        lemma_total_deps_monotone(items, i, m - 1);
    }
}

proof fn lemma_last_with_id_unique(items: Seq<PlanItem>, d: Seq<char>, j: int)
    requires
        is_last_with_id(items, d, j),
    ensures
        id_index(items, d) == j,
{
    let c = choose|c: int| is_last_with_id(items, d, c);
    if c < j {
        assert(items[j].id@ != d);
    }
    if j < c {
        assert(items[c].id@ != d);
    }
}

proof fn lemma_dep_edges_within(items: Seq<PlanItem>, i: int, k: int)
    requires
        0 <= i < items.len(),
        items.len() <= usize::MAX,
        k >= 0,
    ensures
        edges_within(dep_edges_of(items, i, k), items.len()),
    decreases k,
{
    if k > 0 {
        lemma_dep_edges_within(items, i, k - 1);
        lemma_id_index_range(items, dep_of(items, i, k - 1));
        lemma_id_index_range(items, items[i].id@);
        lemma_last_exists(items, items[i].id@, i);
        let prev = dep_edges_of(items, i, k - 1);
        let e = dep_edges_of(items, i, k);
        assert forall|m: int| 0 <= m < e.len() implies (#[trigger] e[m]).0 < items.len()
            && e[m].1 < items.len() by {
            if m < prev.len() {
                assert(e[m] == prev[m]);
            }
        }
    }
}

proof fn lemma_edges_upto_within(items: Seq<PlanItem>, i: int)
    requires
        0 <= i <= items.len(),
        items.len() <= usize::MAX,
    ensures
        edges_within(edges_upto(items, i), items.len()),
    decreases i,
{
    if i > 0 {
        lemma_edges_upto_within(items, i - 1);
        let len = items[i - 1].dependencies@.len() as int;
        lemma_dep_edges_within(items, i - 1, len);
        let a = edges_upto(items, i - 1);
        let b = dep_edges_of(items, i - 1, len);
        let e = edges_upto(items, i);
        assert(e == a + b);
        assert forall|m: int| 0 <= m < e.len() implies (#[trigger] e[m]).0 < items.len()
            && e[m].1 < items.len() by {
            if m < a.len() {
                assert(e[m] == a[m]);
            } else {
                assert(e[m] == b[m - a.len()]);
            }
        }
    }
}

/// Law: the plan items that `toposort_items` orders have no dependency cycle: a
/// topological order of their dependency graph rules one out.
pub proof fn law_ordered_items_have_no_cycle(items: Seq<PlanItem>, order: Seq<usize>)
    requires
        items.len() <= usize::MAX,
        is_topological_order(order, items.len(), dependency_edges(items)),
    ensures
        !cyclic(dependency_edges(items)),
{
    lemma_edges_upto_within(items, items.len() as int);
    lemma_topological_order_acyclic(order, items.len(), dependency_edges(items));
}

pub proof fn lemma_id_index_range(items: Seq<PlanItem>, d: Seq<char>)
    ensures
        -1 <= id_index(items, d) < items.len(),
        id_index(items, d) >= 0 ==> items[id_index(items, d)].id@ == d,
{
}

proof fn lemma_dep_edges_of_prefix(items: Seq<PlanItem>, i: int, k: int, m: int)
    requires
        0 <= k <= m,
    ensures
        is_prefix(dep_edges_of(items, i, k), dep_edges_of(items, i, m)),
    decreases m - k,
{
    if k < m {
        lemma_dep_edges_of_prefix(items, i, k, m - 1);
        let a = dep_edges_of(items, i, k);
        let b = dep_edges_of(items, i, m - 1);
        let c = dep_edges_of(items, i, m);
        assert forall|x: int| 0 <= x < a.len() implies a[x] == #[trigger] c[x] by {
            assert(a[x] == b[x]);
        }
    }
}

proof fn lemma_edges_upto_prefix(items: Seq<PlanItem>, i: int, m: int)
    requires
        0 <= i <= m,
    ensures
        is_prefix(edges_upto(items, i), edges_upto(items, m)),
    decreases m - i,
{
    if i < m {
        lemma_edges_upto_prefix(items, i, m - 1);
        let a = edges_upto(items, i);
        let b = edges_upto(items, m - 1);
        let c = edges_upto(items, m);
        assert forall|x: int| 0 <= x < a.len() implies a[x] == #[trigger] c[x] by {
            assert(a[x] == b[x]);
            assert(c[x] == b[x]);
        }
    }
}

/// What is added while item `i` is at its `k`-th dependency is a prefix of the whole graph.
proof fn lemma_partial_edges_prefix(items: Seq<PlanItem>, i: int, k: int)
    requires
        0 <= i < items.len(),
        0 <= k <= items[i].dependencies@.len(),
    ensures
        is_prefix(edges_upto(items, i) + dep_edges_of(items, i, k), dependency_edges(items)),
{
    let len = items[i].dependencies@.len() as int;
    lemma_dep_edges_of_prefix(items, i, k, len);
    lemma_edges_upto_prefix(items, i + 1, items.len() as int);
    let a = edges_upto(items, i) + dep_edges_of(items, i, k);
    let b = edges_upto(items, i + 1);
    let c = dependency_edges(items);
    assert(b == edges_upto(items, i) + dep_edges_of(items, i, len));
    assert forall|x: int| 0 <= x < a.len() implies a[x] == #[trigger] c[x] by {
        assert(a[x] == b[x]);
    }
}

/// Finds the node that stands for `id`: the last item with that id.
fn find_id(items: &Vec<PlanItem>, id: &String) -> (r: Option<usize>)
    ensures
        match r {
            Some(j) => j as int == id_index(items@, id@),
            None => id_index(items@, id@) == -1,
        },
{
    let mut j = items.len();
    while j > 0
        invariant
            j <= items.len(),
            forall|k: int| j <= k < items.len() ==> (#[trigger] items@[k]).id@ != id@,
        decreases j,
    {
        j = j - 1;
        if items[j].id == *id {
            proof {
                assert(is_last_with_id(items@, id@, j as int));
                lemma_last_with_id_unique(items@, id@, j as int);
            }
            return Some(j);
        }
    }
    assert(!exists|c: int| is_last_with_id(items@, id@, c));
    None
}

/// Orders the items so that each comes after the items it depends on, by building the
/// dependency graph in a `StableDag` and sorting it topologically. The result lists item
/// positions. A dependency that names no item is reported as `DependencyNotFound`; an edge
/// that would close a cycle, or a cycle found by the sort, as `DagCreationError`. Which of the
/// two comes first depends on the order of the items and of their dependencies.
pub fn toposort_items(items: &Vec<PlanItem>) -> (r: Result<Vec<usize>, PlanError>)
    requires
        within_graph_limits(items@),
    ensures
        r matches Ok(order) ==> all_deps_found(items@) && is_topological_order(
            order@,
            items.len() as nat,
            dependency_edges(items@),
        ),
        r matches Err(PlanError::DependencyNotFound(d)) ==> exists|i: int, k: int|
            0 <= i < items.len() && 0 <= k < items@[i].dependencies@.len() && #[trigger] dep_of(
                items@,
                i,
                k,
            ) == d@ && id_index(items@, d@) == -1,
        r matches Err(PlanError::DagCreationError(_)) ==> cyclic(dependency_edges(items@)),
        r is Ok <==> all_deps_found(items@) && !cyclic(dependency_edges(items@)),
        r is Ok || r matches Err(PlanError::DependencyNotFound(_)) || r matches Err(
            PlanError::DagCreationError(_),
        ),
        r matches Err(e) ==> ordering_error(items@, e),
        reports(problem_from(items@, 0, 0), r),
{
    proof {
        lemma_edges_upto_len(items@, items.len() as int);
    }
    let n = items.len();
    let mut dag = dag_new();
    for i in 0..n
        invariant
            n == items.len(),
            n < u32::MAX,
            dag_nodes(dag).len() == i,
            dag_edges(dag) == Seq::<(usize, usize)>::empty(),
    {
        dag_add_node(&mut dag, i);
    }
    assert(edges_upto(items@, 0) == Seq::<(usize, usize)>::empty());
    for i in 0..n
        invariant
            n == items.len(),
            dag_nodes(dag).len() == n,
            dag_edges(dag) == edges_upto(items@, i as int),
            dependency_edges(items@).len() < u32::MAX,
            problem_from(items@, 0, 0) == problem_from(items@, i as int, 0),
            forall|i2: int, k2: int|
                0 <= i2 < i && 0 <= k2 < items@[i2].dependencies@.len() ==> id_index(
                    items@,
                    #[trigger] dep_of(items@, i2, k2),
                ) >= 0,
    {
        let item = &items[i];
        let ndeps = item.dependencies.len();
        assert(edges_upto(items@, i as int) + dep_edges_of(items@, i as int, 0) == edges_upto(
            items@,
            i as int,
        ));
        for k in 0..ndeps
            invariant
                n == items.len(),
                0 <= i < n,
                item == items@[i as int],
                ndeps == item.dependencies@.len(),
                dag_nodes(dag).len() == n,
                dag_edges(dag) == edges_upto(items@, i as int) + dep_edges_of(
                    items@,
                    i as int,
                    k as int,
                ),
                dependency_edges(items@).len() < u32::MAX,
                problem_from(items@, 0, 0) == problem_from(items@, i as int, k as int),
                forall|i2: int, k2: int|
                    0 <= i2 < i && 0 <= k2 < items@[i2].dependencies@.len() ==> id_index(
                        items@,
                        #[trigger] dep_of(items@, i2, k2),
                    ) >= 0,
                forall|k2: int|
                    0 <= k2 < k ==> id_index(items@, #[trigger] dep_of(items@, i as int, k2)) >= 0,
        {
            let dep = &item.dependencies[k];
            assert(dep@ == dep_of(items@, i as int, k as int));
            match find_id(items, dep) {
                None => {
                    return Err(PlanError::DependencyNotFound(dep.clone()));
                },
                Some(j) => {
                    let target = find_id(items, &item.id);
                    proof {
                        assert(is_last_with_id(items@, item.id@, i as int)
                            || exists|c: int| is_last_with_id(items@, item.id@, c)) by {
                            assert(items@[i as int].id@ == item.id@);
                            lemma_last_exists(items@, item.id@, i as int);
                        }
                    }
                    let target = target.unwrap();
                    proof {
                        lemma_id_index_range(items@, dep@);
                        lemma_id_index_range(items@, item.id@);
                        lemma_partial_edges_prefix(items@, i as int, k as int + 1);
                    }
                    let ghost before = dag_edges(dag);
                    match dag_add_edge(&mut dag, j, target) {
                        Err(msg) => {
                            proof {
                                let after = before.push((j, target));
                                assert(after == edges_upto(items@, i as int) + dep_edges_of(
                                    items@,
                                    i as int,
                                    k as int + 1,
                                ));
                                assert(has_edge(after, j as int, target as int)) by {
                                    assert(after[before.len() as int] == (j, target));
                                }
                                lemma_has_edge_prefix(
                                    after,
                                    dependency_edges(items@),
                                    j as int,
                                    target as int,
                                );
                                assert(is_prefix(before, dependency_edges(items@)));
                                lemma_closing_edge_makes_cycle(
                                    before,
                                    dependency_edges(items@),
                                    j as int,
                                    target as int,
                                );
                            }
                            return Err(PlanError::DagCreationError(msg));
                        },
                        Ok(()) => {},
                    }
                },
            }
        }
        assert(edges_upto(items@, i as int + 1) == edges_upto(items@, i as int) + dep_edges_of(
            items@,
            i as int,
            ndeps as int,
        ));
    }
    match dag_toposort(&dag) {
        Ok(order) => {
            proof {
                law_ordered_items_have_no_cycle(items@, order@);
            }
            Ok(order)
        },
        Err(msg) => Err(PlanError::DagCreationError(msg)),
    }
}

/// No two items share an id.
pub open spec fn ids_distinct(items: Seq<PlanItem>) -> bool {
    forall|i: int, j: int|
        0 <= i < items.len() && 0 <= j < items.len() && i != j ==> #[trigger] items[i].id@
            != #[trigger] items[j].id@
}

/// When no two items share an id, the id of item `x` stands for item `x`.
pub proof fn lemma_id_index_of_distinct(items: Seq<PlanItem>, x: int)
    requires
        ids_distinct(items),
        0 <= x < items.len(),
    ensures
        id_index(items, items[x].id@) == x,
{
    assert forall|k: int| x < k < items.len() implies (#[trigger] items[k]).id@ != items[x].id@ by {
        assert(items[k].id@ != items[x].id@);
    }
    assert(is_last_with_id(items, items[x].id@, x));
    lemma_last_with_id_unique(items, items[x].id@, x);
}

proof fn lemma_dep_edge_listed(items: Seq<PlanItem>, i: int, k: int, m: int)
    requires
        items.len() <= usize::MAX,
        0 <= i < items.len(),
        0 <= k < m <= items[i].dependencies@.len(),
        id_index(items, dep_of(items, i, k)) >= 0,
    ensures
        has_edge(
            dep_edges_of(items, i, m),
            id_index(items, dep_of(items, i, k)),
            id_index(items, items[i].id@),
        ),
    decreases m,
{
    let j = id_index(items, dep_of(items, i, k));
    let t = id_index(items, items[i].id@);
    lemma_id_index_range(items, dep_of(items, i, k));
    lemma_last_exists(items, items[i].id@, i);
    lemma_id_index_range(items, items[i].id@);
    assert(t >= 0);
    if m == k + 1 {
        let e = dep_edges_of(items, i, m);
        assert(e == dep_edges_of(items, i, k).push((j as usize, t as usize)));
        assert(e[e.len() - 1] == (j as usize, t as usize));
        assert(has_edge(e, j, t));
    } else {
        lemma_dep_edge_listed(items, i, k, m - 1);
        lemma_dep_edges_of_prefix(items, i, m - 1, m);
        lemma_has_edge_prefix(dep_edges_of(items, i, m - 1), dep_edges_of(items, i, m), j, t);
    }
}

/// Law: when no two items share an id, an order that `toposort_items` returns puts every
/// item after each item that it depends on.
pub proof fn law_dependencies_come_first(items: Seq<PlanItem>, order: Seq<usize>, i: int, k: int)
    requires
        items.len() <= usize::MAX,
        ids_distinct(items),
        is_topological_order(order, items.len(), dependency_edges(items)),
        0 <= i < items.len(),
        0 <= k < items[i].dependencies@.len(),
        id_index(items, dep_of(items, i, k)) >= 0,
    ensures
        position_of(order, id_index(items, dep_of(items, i, k))) < position_of(order, i),
        order[position_of(order, id_index(items, dep_of(items, i, k)))] == id_index(
            items,
            dep_of(items, i, k),
        ),
        order[position_of(order, i)] == i,
{
    let j = id_index(items, dep_of(items, i, k));
    lemma_id_index_range(items, dep_of(items, i, k));
    assert(is_last_with_id(items, items[i].id@, i));
    lemma_last_with_id_unique(items, items[i].id@, i);
    let len = items[i].dependencies@.len() as int;
    lemma_dep_edge_listed(items, i, k, len);
    lemma_partial_edges_prefix(items, i, len);
    assert(edges_upto(items, i) + dep_edges_of(items, i, len) == edges_upto(items, i + 1));
    lemma_has_edge_append(edges_upto(items, i), dep_edges_of(items, i, len), j, i);
    lemma_edges_upto_prefix(items, i + 1, items.len() as int);
    lemma_has_edge_prefix(edges_upto(items, i + 1), dependency_edges(items), j, i);
    assert(order.contains(j as usize));
    assert(order.contains(i as usize));
    let pj = position_of(order, j);
    let pi = position_of(order, i);
    assert(has_edge(dependency_edges(items), order[pj] as int, order[pi] as int));
}

proof fn lemma_last_exists(items: Seq<PlanItem>, d: Seq<char>, j: int)
    requires
        0 <= j < items.len(),
        items[j].id@ == d,
    ensures
        exists|c: int| is_last_with_id(items, d, c),
    decreases items.len() - j,
{
    if !is_last_with_id(items, d, j) {
        let k = choose|k: int| j < k < items.len() && (#[trigger] items[k]).id@ == d;
        lemma_last_exists(items, d, k);
    }
}

} // verus!
