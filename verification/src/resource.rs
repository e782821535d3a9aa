//! A planned cloud resource: its identity, desired state, dependencies and the
//! input and output of its manager; and the shared handle through which the plan,
//! the bindings of other resources and the user all reach it.

use crate::manager::{makes_absent, makes_present, share_manager, ManagerError, ResourceManager};
use crate::registry::ResourceType;
use std::sync::Arc;
use vstd::prelude::*;
use vstd::rwlock::RwLock;

verus! {

/// Whether a resource should exist in the cloud.
#[derive(Debug, Clone, Copy, PartialEq, Eq, Structural)]
pub enum ResourceState {
    Absent,
    Present,
}

impl Default for ResourceState {
    /// A resource is wanted present unless said otherwise.
    fn default() -> (s: Self)
        ensures
            s == ResourceState::Present,
    {
        ResourceState::Present
    }
}

/// Why an operation on a resource failed.
#[derive(Debug)]
pub enum ResourceError {
    BindingFail(String),
    LockFail(String),
    DependencyOutputIsMissing(String),
    ManagerNotSet,
    ManagerError(ManagerError),
}

/// Copies what a resource needs from the output of one of its dependencies into its input.
/// Supplied by the user of the library when binding two resources.
pub trait Binding<Input> {
    /// Applying the binding to the input `before` can leave `after`, with outcome `r`. A
    /// binding that says nothing of itself may leave anything.
    open spec fn binds(&self, before: Input, after: Input, r: Result<(), ResourceError>) -> bool {
        true
    }

    fn apply(&self, input: &mut Input) -> (r: Result<(), ResourceError>)
        ensures
            self.binds(*old(input), *final(input), r),
    ;
}

/// The outcome of a binding whose dependency has no output yet.
pub open spec fn output_missing(r: Result<(), ResourceError>) -> bool {
    r matches Err(ResourceError::DependencyOutputIsMissing(m)) && m@ == "Output is not ready"@
}

/// `r` is the error of a read of an output that does not exist yet.
pub open spec fn output_missing_error<T>(r: Result<T, ResourceError>) -> bool {
    r matches Err(ResourceError::DependencyOutputIsMissing(m)) && m@ == "Output is not ready"@
}

/// Applying the bindings `bs`, in order and each with success, to the input `before` can
/// leave `after`.
pub open spec fn binds_all<Input>(bs: Seq<Bind<Input>>, before: Input, after: Input) -> bool
    decreases bs.len(),
{
    if bs.len() == 0 {
        after == before
    } else {
        exists|mid: Input, r: Result<(), ResourceError>|
            binds_all(bs.drop_last(), before, mid) && r is Ok && #[trigger] bs.last().dep_fn.0.binds(
                mid,
                after,
                r,
            )
    }
}

/// A shared binding function; a clone is another handle on the same function.
#[verifier::reject_recursive_types(Input)]
pub struct BindingFn<Input>(pub Arc<dyn Binding<Input>>);

/// A binding of a resource to the dependency with id `dep_id`.
#[verifier::reject_recursive_types(Input)]
pub struct Bind<Input> {
    pub dep_id: String,
    pub dep_fn: BindingFn<Input>,
}

/// The id of a resource named `name` of type `rt`: provider, region, type and name
/// joined by slashes.
pub open spec fn resource_id(rt: ResourceType, name: Seq<char>) -> Seq<char> {
    rt.rprovider.name@ + "/"@ + rt.rprovider.region@ + "/"@ + rt.rtype.name@ + "/"@ + name
}

/// A resource of the plan, with the input of its manager and, once it exists, the output.
#[verifier::reject_recursive_types(Input)]
#[verifier::reject_recursive_types(Output)]
pub struct Resource<Input, Output> {
    pub resource_type: ResourceType,
    pub id: String,
    pub name: String,
    pub input: Input,
    pub output: Option<Output>,
    pub state: ResourceState,
    pub dependencies: Vec<String>,
    pub bindings: Vec<Bind<Input>>,
    pub manager: Option<Arc<dyn ResourceManager<Input, Output>>>,
}

/// `deps` lists `id`.
pub open spec fn lists(deps: Seq<String>, id: Seq<char>) -> bool {
    exists|k: int| 0 <= k < deps.len() && (#[trigger] deps[k])@ == id
}

impl<Input, Output> Resource<Input, Output> {
    /// A new resource named `id`, wanted in `state`, to be brought about by `manager` from
    /// `input`; its id joins provider, region, type and name.
    pub fn new(
        resource_type: ResourceType,
        manager: Option<Arc<dyn ResourceManager<Input, Output>>>,
        id: &str,
        input: Input,
        state: ResourceState,
    ) -> (r: Self)
        ensures
            r.id@ == resource_id(resource_type, id@),
            r.name@ == id@,
            r.resource_type == resource_type,
            r.input == input,
            r.output is None,
            r.state == state,
            r.dependencies@.len() == 0,
            r.bindings@.len() == 0,
            r.manager == manager,
    {
        let name = id.to_owned();
        let mut rid = resource_type.rprovider.name.clone();
        rid.append("/");
        rid.append(resource_type.rprovider.region.as_str());
        rid.append("/");
        rid.append(resource_type.rtype.name.as_str());
        rid.append("/");
        rid.append(name.as_str());
        Resource {
            resource_type,
            id: rid,
            name,
            input,
            output: None,
            state,
            dependencies: Vec::new(),
            bindings: Vec::new(),
            manager,
        }
    }

    /// Asks the manager to make the resource exist as its input describes, starting from
    /// `latest`, the output recorded for it before; records the output it reports.
    pub fn ensure_present(&mut self, latest: Option<&Output>) -> (r: Result<(), ResourceError>)
        ensures
            old(self).manager is None ==> r matches Err(ResourceError::ManagerNotSet),
            r matches Err(ResourceError::ManagerNotSet) ==> old(self).manager is None,
            r is Err ==> r matches Err(ResourceError::ManagerNotSet) || r matches Err(
                ResourceError::ManagerError(_),
            ),
            r is Ok ==> final(self).output is Some,
            r is Err ==> final(self).output == old(self).output,
            old(self).manager is None ==> final(self).input == old(self).input,
            old(self).manager matches Some(m) ==> exists|a: Result<Output, ManagerError>|
                #[trigger] makes_present(&*m, latest, old(self).input, final(self).input, a)
                    && match a {
                    Ok(o) => r is Ok && final(self).output == Some(o),
                    Err(e) => r == Err::<(), ResourceError>(ResourceError::ManagerError(e))
                        && final(self).output == old(self).output,
                },
            final(self).id == old(self).id,
            final(self).name == old(self).name,
            final(self).resource_type == old(self).resource_type,
            final(self).state == old(self).state,
            final(self).dependencies == old(self).dependencies,
            final(self).bindings == old(self).bindings,
            final(self).manager == old(self).manager,
    {
        match &self.manager {
            Some(manager) => {
                let ghost before = self.input;
                let answer = manager.ensure_present(latest, &mut self.input);
                proof {
                    assert(makes_present(&**manager, latest, before, self.input, answer));
                    assert(old(self).manager == Some(*manager));
                    assert(makes_present(
                        &*old(self).manager->0,
                        latest,
                        old(self).input,
                        self.input,
                        answer,
                    ));
                }
                let ghost a = answer;
                match answer {
                    Ok(output) => {
                        self.output = Some(output);
                        assert(makes_present(
                            &*old(self).manager->0,
                            latest,
                            old(self).input,
                            self.input,
                            a,
                        ));
                        Ok(())
                    },
                    Err(err) => Err(ResourceError::ManagerError(err)),
                }
            },
            None => Err(ResourceError::ManagerNotSet),
        }
    }

    /// Asks the manager to make the resource not exist. A resource that was never created
    /// (it has no output) is left alone: `Ok(false)`.
    pub fn ensure_absent(&self) -> (r: Result<bool, ResourceError>)
        ensures
            self.output is None ==> r == Ok::<bool, ResourceError>(false),
            self.output is Some && self.manager is None ==> r matches Err(
                ResourceError::ManagerNotSet,
            ),
            self.output is Some && self.manager is Some ==> r is Ok || r matches Err(
                ResourceError::ManagerError(_),
            ),
            self.output matches Some(o) ==> (self.manager matches Some(m) ==> exists|
                a: Result<bool, ManagerError>,
            |
                #[trigger] makes_absent(&*m, o, a) && r == match a {
                    Ok(deleted) => Ok::<bool, ResourceError>(deleted),
                    Err(e) => Err(ResourceError::ManagerError(e)),
                }),
    {
        let output = match &self.output {
            Some(output) => output,
            None => return Ok(false),
        };
        match &self.manager {
            Some(manager) => {
                let answer = manager.ensure_absent(output);
                proof {
                    assert(makes_absent(&**manager, *output, answer));
                }
                match answer {
                    Ok(deleted) => Ok(deleted),
                    Err(err) => Err(ResourceError::ManagerError(err)),
                }
            },
            None => Err(ResourceError::ManagerNotSet),
        }
    }

    /// Runs the bindings in order on a copy of the input, which replaces the input only
    /// when all of them succeed; the first that fails ends the run with its error.
    pub fn apply_bindings(&mut self) -> (r: Result<(), ResourceError>) where Input: Clone
        ensures
            r is Ok ==> exists|copy: Input|
                #![trigger binds_all(old(self).bindings@, copy, final(self).input)]
                cloned(old(self).input, copy) && binds_all(
                    old(self).bindings@,
                    copy,
                    final(self).input,
                ),
            r is Err ==> exists|copy: Input, k: int, mid: Input, out: Input|
                #![trigger old(self).bindings@[k].dep_fn.0.binds(mid, out, r), cloned(old(self).input, copy)]
                cloned(old(self).input, copy) && 0 <= k < old(self).bindings@.len() && binds_all(
                    old(self).bindings@.take(k),
                    copy,
                    mid,
                ) && old(self).bindings@[k].dep_fn.0.binds(mid, out, r),
            r is Err ==> final(self).input == old(self).input,
            final(self).id == old(self).id,
            final(self).name == old(self).name,
            final(self).resource_type == old(self).resource_type,
            final(self).output == old(self).output,
            final(self).state == old(self).state,
            final(self).dependencies == old(self).dependencies,
            final(self).bindings == old(self).bindings,
            final(self).manager == old(self).manager,
    {
        let mut input = self.input.clone();
        let ghost copy = input;
        assert(cloned(self.input, copy));
        let mut i: usize = 0;
        while i < self.bindings.len()
            invariant
                i <= self.bindings@.len(),
                binds_all(self.bindings@.take(i as int), copy, input),
                cloned(old(self).input, copy),
                *self == *old(self),
            decreases self.bindings@.len() - i,
        {
            let ghost before = input;
            let applied = self.bindings[i].dep_fn.0.apply(&mut input);
            match applied {
                Ok(()) => {},
                Err(err) => {
                    proof {
                        assert(self.bindings@[i as int].dep_fn.0.binds(before, input, Err(err)));
                    }
                    return Err(err);
                },
            }
            proof {
                let next = self.bindings@.take(i + 1);
                assert(next.drop_last() =~= self.bindings@.take(i as int));
                assert(next.last() == self.bindings@[i as int]);
                assert(next.last().dep_fn.0.binds(before, input, applied));
            }
            i = i + 1;
        }
        assert(self.bindings@.take(i as int) =~= self.bindings@);
        self.input = input;
        assert(binds_all(old(self).bindings@, copy, self.input));
        Ok(())
    }

    /// Makes the resource depend on the resource `dep_id`, which is wanted in `dep_state`:
    /// the dependency is listed (once), the binding added, and a resource that depends on
    /// one wanted absent is wanted absent too.
    pub fn bind(&mut self, binding: Bind<Input>, dep_state: ResourceState)
        ensures
            lists(final(self).dependencies@, binding.dep_id@),
            lists(old(self).dependencies@, binding.dep_id@) ==> final(self).dependencies@ == old(
                self,
            ).dependencies@,
            !lists(old(self).dependencies@, binding.dep_id@) ==> final(self).dependencies@.len() == old(
                self,
            ).dependencies@.len() + 1 && final(self).dependencies@.drop_last() == old(
                self,
            ).dependencies@ && final(self).dependencies@.last()@ == binding.dep_id@,
            final(self).state == (if dep_state == ResourceState::Absent {
                ResourceState::Absent
            } else {
                old(self).state
            }),
            final(self).bindings@.len() == old(self).bindings@.len() + 1,
            final(self).bindings@.drop_last() == old(self).bindings@,
            final(self).bindings@.last() == binding,
            final(self).id == old(self).id,
            final(self).name == old(self).name,
            final(self).resource_type == old(self).resource_type,
            final(self).input == old(self).input,
            final(self).output == old(self).output,
            final(self).manager == old(self).manager,
    {
        let mut listed = false;
        let mut k: usize = 0;
        while k < self.dependencies.len()
            invariant
                k <= self.dependencies@.len(),
                listed == exists|j: int| 0 <= j < k && (#[trigger] self.dependencies@[j])@ == binding.dep_id@,
            decreases self.dependencies@.len() - k,
        {
            if self.dependencies[k] == binding.dep_id {
                listed = true;
            }
            k = k + 1;
        }
        if !listed {
            self.dependencies.push(binding.dep_id.clone());
            proof {
                assert(self.dependencies@.drop_last() == old(self).dependencies@);
                assert(self.dependencies@[self.dependencies@.len() - 1]@ == binding.dep_id@);
            }
        }
        if dep_state == ResourceState::Absent {
            self.state = ResourceState::Absent;
        }
        self.bindings.push(binding);
        proof {
            assert(self.bindings@.drop_last() == old(self).bindings@);
        }
    }
}

/// No id occurs twice among `deps`: the dependencies of a resource form a set.
pub open spec fn deps_distinct(deps: Seq<String>) -> bool {
    forall|i: int, j: int| 0 <= i < j < deps.len() ==> (#[trigger] deps[i])@ != (#[trigger] deps[j])@
}

/// `o` can be the output of a resource created with the output `created` and brought about by
/// `manager`: the output it was created with, or one that the manager answered when asked to
/// make the resource present.
pub open spec fn may_output<Input, Output>(
    created: Option<Output>,
    manager: Option<Arc<dyn ResourceManager<Input, Output>>>,
    o: Output,
) -> bool {
    ||| created == Some(o)
    ||| manager matches Some(m) && exists|latest: Option<&Output>, before: Input, after: Input|
        #[trigger] makes_present(&*m, latest, before, after, Ok::<Output, ManagerError>(o))
}

/// What holds of a shared resource whatever is done to it: its identity (id, name, type and
/// manager), which no change alters; that it lists no dependency twice; and that its output, if
/// any, is one it can have (see `may_output`) given the output `created` it was created with.
pub open spec fn keeps_identity<Input, Output>(
    identity: (Seq<char>, Seq<char>, ResourceType, Option<Arc<dyn ResourceManager<Input, Output>>>),
    created: Option<Output>,
) -> spec_fn(Resource<Input, Output>) -> bool {
    |r: Resource<Input, Output>|
        r.id@ == identity.0 && r.name@ == identity.1 && r.resource_type == identity.2
            && r.manager == identity.3 && deps_distinct(r.dependencies@) && (r.output matches Some(
            o,
        ) ==> may_output(created, identity.3, o))
}

/// A handle on a resource shared between the plan, the resources bound to it and the user;
/// every holder sees the changes made through any other. What the resource is (its id, name
/// and type) never changes; its state, input, output and dependencies may, at any time,
/// through another holder.
#[verifier::reject_recursive_types(Input)]
#[verifier::reject_recursive_types(Output)]
pub struct SharedResource<Input, Output> {
    resource: Arc<RwLock<Resource<Input, Output>, spec_fn(Resource<Input, Output>) -> bool>>,
    identity: Ghost<(Seq<char>, Seq<char>, ResourceType, Option<Arc<dyn ResourceManager<Input, Output>>>)>,
    created: Ghost<Resource<Input, Output>>,
}

impl<Input, Output> SharedResource<Input, Output> {
    #[verifier::type_invariant]
    closed spec fn identity_kept(self) -> bool {
        (*self.resource).pred() == keeps_identity::<Input, Output>(self.identity@, self.created@.output)
    }

    /// The id of the resource.
    pub closed spec fn spec_id(&self) -> Seq<char> {
        self.identity@.0
    }

    /// The name of the resource.
    pub closed spec fn spec_name(&self) -> Seq<char> {
        self.identity@.1
    }

    /// The type of the resource.
    pub closed spec fn spec_resource_type(&self) -> ResourceType {
        self.identity@.2
    }

    /// The manager of the resource, if it has one.
    pub closed spec fn spec_manager(&self) -> Option<Arc<dyn ResourceManager<Input, Output>>> {
        self.identity@.3
    }

    /// Whether the resource has a manager.
    pub open spec fn spec_has_manager(&self) -> bool {
        self.spec_manager() is Some
    }

    /// The resource as it was when it was shared, before any holder changed it.
    pub closed spec fn created_from(&self) -> Resource<Input, Output> {
        self.created@
    }

    /// `o` can be the output of the resource: the output it was created with, or one that its
    /// manager answered when asked to make it present (see `may_output`).
    pub open spec fn can_output(&self, o: Output) -> bool {
        may_output(self.created_from().output, self.spec_manager(), o)
    }

    /// Shares `resource`, whose dependencies form a set.
    pub fn new(resource: Resource<Input, Output>) -> (s: Self)
        requires
            deps_distinct(resource.dependencies@),
        ensures
            s.spec_id() == resource.id@,
            s.spec_name() == resource.name@,
            s.spec_resource_type() == resource.resource_type,
            s.spec_manager() == resource.manager,
            s.created_from() == resource,
    {
        let ghost identity = (
            resource.id@,
            resource.name@,
            resource.resource_type,
            resource.manager,
        );
        let ghost created = resource;
        let lock = RwLock::new(resource, Ghost(keeps_identity::<Input, Output>(identity, created.output)));
        SharedResource { resource: Arc::new(lock), identity: Ghost(identity), created: Ghost(created) }
    }

    /// Creates the resource named `id` (see `Resource::new`) and shares it.
    pub fn new_resource(
        resource_type: ResourceType,
        manager: Option<Arc<dyn ResourceManager<Input, Output>>>,
        id: &str,
        input: Input,
        state: ResourceState,
    ) -> (s: Self)
        ensures
            s.spec_id() == resource_id(resource_type, id@),
            s.spec_name() == id@,
            s.spec_resource_type() == resource_type,
            s.spec_manager() == manager,
            s.created_from().state == state,
            s.created_from().input == input,
            s.created_from().output is None,
            s.created_from().dependencies@.len() == 0,
            s.created_from().bindings@.len() == 0,
            s.created_from().manager == manager,
    {
        Self::new(Resource::new(resource_type, manager, id, input, state))
    }

    /// The id of the resource; never an error, as the lock cannot be poisoned.
    pub fn id(&self) -> (r: Result<String, ResourceError>)
        ensures
            r matches Ok(id) && id@ == self.spec_id(),
    {
        proof {
            use_type_invariant(self);
        }
        let handle = self.resource.acquire_read();
        let id = handle.borrow().id.clone();
        handle.release_read();
        Ok(id)
    }

    /// The name of the resource.
    pub fn name(&self) -> (name: String)
        ensures
            name@ == self.spec_name(),
    {
        proof {
            use_type_invariant(self);
        }
        let handle = self.resource.acquire_read();
        let name = handle.borrow().name.clone();
        handle.release_read();
        name
    }

    /// The type of the resource.
    pub fn resource_type(&self) -> (rt: ResourceType)
        ensures
            rt == self.spec_resource_type(),
    {
        proof {
            use_type_invariant(self);
        }
        let handle = self.resource.acquire_read();
        let rt = clone_resource_type(&handle.borrow().resource_type);
        handle.release_read();
        rt
    }

    /// The state the resource is currently wanted in.
    pub fn state(&self) -> (r: Result<ResourceState, ResourceError>)
        ensures
            r is Ok,
    {
        let handle = self.resource.acquire_read();
        let state = handle.borrow().state;
        handle.release_read();
        Ok(state)
    }

    /// Sets the state the resource is wanted in.
    pub fn set_state(&self, state: ResourceState) {
        proof {
            use_type_invariant(self);
        }
        let (mut resource, handle) = self.resource.acquire_write();
        resource.state = state;
        handle.release_write(resource);
    }

    /// Replaces the input of the resource.
    pub fn set_input(&self, input: Input) {
        proof {
            use_type_invariant(self);
        }
        let (mut resource, handle) = self.resource.acquire_write();
        resource.input = input;
        handle.release_write(resource);
    }

    /// The dependencies of the resource, by id; none is listed twice.
    pub fn dependencies(&self) -> (deps: Vec<String>)
        ensures
            deps_distinct(deps@),
    {
        proof {
            use_type_invariant(self);
        }
        let handle = self.resource.acquire_read();
        let listed = &handle.borrow().dependencies;
        let deps = listed.clone();
        proof {
            assert(deps_distinct(listed@));
            assert forall|i: int| 0 <= i < deps@.len() implies deps@[i] == listed@[i] by {
                assert(cloned(listed[i], deps[i]));
            }
            assert(deps@ =~= listed@);
        }
        handle.release_read();
        deps
    }

    /// The current output of the resource, if it exists.
    pub fn output(&self) -> (r: Result<Option<Output>, ResourceError>) where Output: Clone
        ensures
            r is Ok,
    {
        let handle = self.resource.acquire_read();
        let output = match &handle.borrow().output {
            Some(output) => Some(output.clone()),
            None => None,
        };
        handle.release_read();
        Ok(output)
    }

    /// The current input of the resource.
    pub fn input(&self) -> (input: Input) where Input: Clone
    {
        let handle = self.resource.acquire_read();
        let input = handle.borrow().input.clone();
        handle.release_read();
        input
    }

    /// Runs `apply` on the output of the resource; an error when it has none yet.
    pub fn with_output<F: Fn(&Output)>(&self, apply: F) -> (r: Result<(), ResourceError>)
        requires
            forall|o: &Output| #[trigger] apply.requires((o,)),
        ensures
            r is Ok || (r matches Err(ResourceError::DependencyOutputIsMissing(msg)) && msg@
                == "Output is not ready"@),
            r is Ok ==> exists|o: &Output| #[trigger] apply.ensures((o,), ()),
    {
        let handle = self.resource.acquire_read();
        let r = match &handle.borrow().output {
            Some(output) => {
                apply(output);
                Ok(())
            },
            None => Err(ResourceError::DependencyOutputIsMissing("Output is not ready".to_string())),
        };
        handle.release_read();
        r
    }

    /// What `read` takes from the output of the resource as it is now; an error when it has
    /// none yet, as `with_output`. The output read is one the resource can have (see
    /// `can_output`).
    pub fn read_output<T, F: Fn(&Output) -> T>(&self, read: F) -> (r: Result<T, ResourceError>)
        requires
            forall|o: &Output| #[trigger] read.requires((o,)),
        ensures
            r is Ok || output_missing_error(r),
            r matches Ok(t) ==> exists|o: Output| read.ensures((&o,), t) && #[trigger] self.can_output(o),
    {
        proof {
            use_type_invariant(self);
        }
        let handle = self.resource.acquire_read();
        let current = handle.borrow();
        proof {
            assert(keeps_identity::<Input, Output>(self.identity@, self.created@.output)(*current));
        }
        match &current.output {
            Some(output) => {
                let t = read(output);
                proof {
                    let o: Output = *output;
                    assert(read.ensures((&o,), t) && self.can_output(o));
                }
                handle.release_read();
                Ok(t)
            },
            None => {
                handle.release_read();
                Err(ResourceError::DependencyOutputIsMissing("Output is not ready".to_string()))
            },
        }
    }

    /// Binds the resource to `dependency`: it is listed among the dependencies, the binding
    /// `dep_fn` is added, and if the dependency is wanted absent so is this resource.
    pub fn bind<I2, O2>(&self, dependency: &SharedResource<I2, O2>, dep_fn: BindingFn<Input>) -> (r:
        Result<(), ResourceError>)
        ensures
            r is Ok,
    {
        proof {
            use_type_invariant(self);
        }
        let other_id = match dependency.id() {
            Ok(id) => id,
            Err(err) => return Err(err),
        };
        let other_state = match dependency.state() {
            Ok(state) => state,
            Err(err) => return Err(err),
        };
        let (mut resource, handle) = self.resource.acquire_write();
        let ghost before = resource.dependencies@;
        let ghost id = other_id@;
        resource.bind(Bind { dep_id: other_id, dep_fn }, other_state);
        proof {
            let after = resource.dependencies@;
            if !lists(before, id) {
                assert forall|i: int, j: int| 0 <= i < j < after.len() implies (#[trigger] after[i])@
                    != (#[trigger] after[j])@ by {
                    assert(after[i] == before[i]);
                    if j < before.len() {
                        assert(after[j] == before[j]);
                    } else {
                        assert(after[j]@ == id);
                        assert(!(0 <= i < before.len() && (before[i])@ == id));
                    }
                }
            }
        }
        handle.release_write(resource);
        Ok(())
    }

    /// Brings the resource to presence (see `Resource::ensure_present`); without a manager,
    /// and only then, that is the error.
    pub fn ensure_present(&self, latest: Option<&Output>) -> (r: Result<(), ResourceError>)
        ensures
            !self.spec_has_manager() <==> r matches Err(ResourceError::ManagerNotSet),
            r is Ok || r matches Err(ResourceError::ManagerNotSet) || r matches Err(
                ResourceError::ManagerError(_),
            ),
            self.spec_manager() matches Some(m) ==> exists|
                before: Input,
                after: Input,
                a: Result<Output, ManagerError>,
            |
                #[trigger] makes_present(&*m, latest, before, after, a) && match a {
                    Ok(_) => r is Ok,
                    Err(e) => r == Err::<(), ResourceError>(ResourceError::ManagerError(e)),
                },
    {
        proof {
            use_type_invariant(self);
        }
        let (mut resource, handle) = self.resource.acquire_write();
        let ghost before = resource;
        let r = resource.ensure_present(latest);
        proof {
            if let Some(m) = self.spec_manager() {
                let a = choose|a: Result<Output, ManagerError>|
                    #[trigger] makes_present(&*m, latest, before.input, resource.input, a) && match a {
                        Ok(o) => r is Ok && resource.output == Some(o),
                        Err(e) => r == Err::<(), ResourceError>(ResourceError::ManagerError(e))
                            && resource.output == before.output,
                    };
                assert(makes_present(&*m, latest, before.input, resource.input, a));
                if let Ok(o) = a {
                    assert(may_output(self.created@.output, self.identity@.3, o));
                }
            }
        }
        handle.release_write(resource);
        r
    }

    /// Brings the resource to absence (see `Resource::ensure_absent`): without a manager it
    /// can only tell that the resource was never created, or fail for want of one.
    pub fn ensure_absent(&self) -> (r: Result<bool, ResourceError>)
        ensures
            !self.spec_has_manager() ==> r == Ok::<bool, ResourceError>(false) || r matches Err(
                ResourceError::ManagerNotSet,
            ),
            self.spec_has_manager() ==> r is Ok || r matches Err(ResourceError::ManagerError(_)),
            self.spec_manager() matches Some(m) ==> r == Ok::<bool, ResourceError>(false) || exists|
                o: Output,
                a: Result<bool, ManagerError>,
            |
                #[trigger] makes_absent(&*m, o, a) && r == match a {
                    Ok(deleted) => Ok::<bool, ResourceError>(deleted),
                    Err(e) => Err(ResourceError::ManagerError(e)),
                },
    {
        proof {
            use_type_invariant(self);
        }
        let handle = self.resource.acquire_read();
        let r = handle.borrow().ensure_absent();
        handle.release_read();
        r
    }

    /// Applies the bindings of the resource (see `Resource::apply_bindings`).
    pub fn apply_bindings(&self) -> (r: Result<(), ResourceError>) where Input: Clone {
        proof {
            use_type_invariant(self);
        }
        let (mut resource, handle) = self.resource.acquire_write();
        let r = resource.apply_bindings();
        handle.release_write(resource);
        r
    }
}

impl<Input, Output> Clone for SharedResource<Input, Output> {
    /// Another handle on the same resource.
    fn clone(&self) -> (s: Self)
        ensures
            s == *self,
            s.spec_id() == self.spec_id(),
            s.spec_name() == self.spec_name(),
            s.spec_resource_type() == self.spec_resource_type(),
    {
        proof {
            use_type_invariant(self);
        }
        SharedResource {
            resource: share_arc(&self.resource),
            identity: self.identity,
            created: self.created,
        }
    }
}

/// `Arc::clone`: another pointer to the same allocation.
#[verifier::external_body]
pub(crate) fn share_arc<T>(a: &Arc<T>) -> (r: Arc<T>)
    ensures
        r == *a,
{
    Arc::clone(a)
}

/// `Arc::clone` of a binding function: another handle on the same function. The clone is made
/// by `Option::cloned` on `Some`, whose `unwrap` cannot fail: a direct `Arc::clone` of a trait
/// object is a form of the call that Verus does not take.
#[verifier::external_body]
pub(crate) fn share_binding<Input>(f: &BindingFn<Input>) -> (c: BindingFn<Input>)
    ensures
        c == *f,
{
    BindingFn(Some(&f.0).cloned().unwrap())
}

/// The output of `dependency` as it is now; an error when it has none yet, as `with_output`.
pub fn latest_output<I2, O2: Clone>(dependency: &SharedResource<I2, O2>) -> (r: Result<O2, ResourceError>)
    ensures
        r is Ok || (r matches Err(ResourceError::DependencyOutputIsMissing(msg)) && msg@
            == "Output is not ready"@),
{
    match dependency.output() {
        Ok(Some(output)) => Ok(output),
        Ok(None) => Err(ResourceError::DependencyOutputIsMissing("Output is not ready".to_string())),
        Err(err) => Err(err),
    }
}

/// A copy of a resource type.
fn clone_resource_type(rt: &ResourceType) -> (c: ResourceType)
    ensures
        c == *rt,
{
    ResourceType {
        rprovider: crate::registry::RProvider {
            name: rt.rprovider.name.clone(),
            region: rt.rprovider.region.clone(),
        },
        rtype: crate::registry::RType { name: rt.rtype.name.clone() },
    }
}

/// No manager: what a resource read back from the datastore has until one is attached.
pub fn default_manager<Input, Output>() -> (m: Option<Arc<dyn ResourceManager<Input, Output>>>)
    ensures
        m is None,
{
    None
}

/// No bindings: what a resource read back from the datastore has.
pub fn default_bindings<Input>() -> (b: Vec<Bind<Input>>)
    ensures
        b@ == Seq::<Bind<Input>>::empty(),
{
    Vec::new()
}


/// A copy of the resource behind `item` as it is now: its identity and manager are those it
/// was shared with, its dependencies form a set, and its input, output, state and bindings
/// are those that the holders of the resource last left.
pub fn item_as_resource<Input: Clone, Output: Clone>(item: &SharedResource<Input, Output>) -> (r: Resource<Input, Output>)
    ensures
        r.id@ == item.spec_id(),
        r.name@ == item.spec_name(),
        r.resource_type == item.spec_resource_type(),
        r.manager == item.spec_manager(),
        deps_distinct(r.dependencies@),
{
    proof {
        use_type_invariant(item);
    }
    let handle = item.resource.acquire_read();
    let current = handle.borrow();
    let mut dependencies: Vec<String> = Vec::new();
    let mut i: usize = 0;
    while i < current.dependencies.len()
        invariant
            i <= current.dependencies@.len(),
            dependencies@.len() == i,
            forall|j: int| 0 <= j < i ==> (#[trigger] dependencies@[j])@ == current.dependencies@[j]@,
        decreases current.dependencies@.len() - i,
    {
        dependencies.push(current.dependencies[i].clone());
        i = i + 1;
    }
    let mut bindings: Vec<Bind<Input>> = Vec::new();
    let mut k: usize = 0;
    while k < current.bindings.len()
        invariant
            k <= current.bindings@.len(),
        decreases current.bindings@.len() - k,
    {
        let b = &current.bindings[k];
        bindings.push(Bind { dep_id: b.dep_id.clone(), dep_fn: share_binding(&b.dep_fn) });
        k = k + 1;
    }
    let r = Resource {
        resource_type: clone_resource_type(&current.resource_type),
        id: current.id.clone(),
        name: current.name.clone(),
        input: current.input.clone(),
        output: match &current.output {
            Some(output) => Some(output.clone()),
            None => None,
        },
        state: current.state,
        dependencies,
        bindings,
        manager: share_manager(&current.manager),
    };
    proof {
        assert(deps_distinct(current.dependencies@));
    }
    handle.release_read();
    r
}

} // verus!

