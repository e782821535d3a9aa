//! One run of a plan against the datastore: `apply` (delete what is wanted absent or no
//! longer planned, then make every wanted resource present, dependencies first) or
//! `destroy` (delete everything recorded). The run decides; its caller performs each
//! action it asks for (reading stored resources, calling the cloud) and hands back the
//! outcome.

use crate::datastore::{Datastore, DatastoreError};
use crate::graph::{is_permutation, is_topological_order, position_of};
use crate::plan::{
    dep_of, dependency_edges, fits_graph_limits, id_index, ids_distinct,
    law_dependencies_come_first, lemma_id_index_of_distinct, lemma_id_index_range,
    lemma_no_items_orderable, lemma_total_deps_push, orderable, ordering_error, problem_from,
    reports, toposort_items,
    within_graph_limits, PlanError, PlanItem, total_deps,
};
use crate::resource::ResourceState;
use vstd::prelude::*;

verus! {

/// What a run does.
#[derive(Debug, Clone, Copy, PartialEq, Eq, Structural)]
pub enum RunMode {
    Apply,
    Destroy,
}

/// What the run asks its caller to do next.
pub enum Action {
    /// Read the stored resource `key` from `bytes` and report what it is.
    Collect { key: String, bytes: Vec<u8> },
    /// Read the stored resource `key` from `bytes` and make it absent in the cloud.
    Delete { key: String, bytes: Vec<u8> },
    /// Apply the bindings of plan resource `index` and make it present in the cloud, from
    /// the stored resource `latest` (its bytes) when there is one; then serialise it.
    Ensure { index: usize, latest: Option<Vec<u8>> },
    /// The run is over, with this result.
    Finish(Result<(), PlanError>),
}

/// What came of the action asked for last.
pub enum Event {
    /// The stored resource that was read (for `Collect`).
    Collected(Result<PlanItem, DatastoreError>),
    /// The outcome of reading the stored resource and making it absent (for `Delete`).
    Deleted(Result<(), PlanError>),
    /// The serialised resource, made present (for `Ensure`).
    Ensured(Result<Vec<u8>, PlanError>),
}

/// The ids of the items at the positions `at`.
pub open spec fn ids_at(items: Seq<PlanItem>, at: Seq<usize>) -> Set<Seq<char>> {
    Set::new(
        |k: Seq<char>| exists|j: int| 0 <= j < at.len() && #[trigger] items[at[j] as int].id@ == k,
    )
}

/// The records `contents` follow from the records `initial` at the start of a run, the ids
/// `deleted` whose deletion was confirmed and the ids `made` of the resources made present:
/// a resource recorded at the start is recorded still unless its deletion was confirmed;
/// only resources recorded at the start are deleted; and every record of another id than
/// those made present is the one of the start.
pub open spec fn follows_history(
    initial: Map<Seq<char>, Seq<u8>>,
    deleted: Seq<Seq<char>>,
    contents: Map<Seq<char>, Seq<u8>>,
    made: Set<Seq<char>>,
) -> bool {
    &&& forall|k: Seq<char>|
        #[trigger] initial.contains_key(k) && !deleted.contains(k) ==> contents.contains_key(k)
    &&& forall|j: int| 0 <= j < deleted.len() ==> initial.contains_key(#[trigger] deleted[j])
    &&& forall|k: Seq<char>|
        #[trigger] contents.contains_key(k) && !made.contains(k) ==> initial.contains_key(k)
            && contents[k] == initial[k]
}

/// The action asked for last succeeded.
pub open spec fn succeeded(event: &Event) -> bool {
    match *event {
        Event::Collected(r) => r is Ok,
        Event::Deleted(r) => r is Ok,
        Event::Ensured(r) => r is Ok,
    }
}

/// Where the run stands: which action's outcome it waits for.
enum Phase {
    /// The deletion of the planned resource at this position of the order.
    Absent(usize),
    /// The reading of this one of the stored ids to delete.
    Collect(usize),
    /// The deletion of the stored resource at this position of their order.
    Delete(usize),
    /// Making present the planned resource at this position of the order.
    Present(usize),
    /// Nothing: the run is over.
    Finished,
}

/// The ids of the planned resources wanted present.
pub open spec fn present_ids(items: Seq<PlanItem>) -> Set<Seq<char>> {
    Set::new(
        |id: Seq<char>|
            exists|i: int|
                0 <= i < items.len() && items[i].state == ResourceState::Present && (
                #[trigger] items[i]).id@ == id,
    )
}

/// A run of a plan.
pub struct PlanRun {
    mode: RunMode,
    items: Vec<PlanItem>,
    sorted: Vec<usize>,
    datastore: Datastore,
    phase: Phase,
    to_be_created: Vec<String>,
    absent_result: Option<Result<(), PlanError>>,
    ids: Vec<String>,
    collected: Vec<PlanItem>,
    collected_deps: usize,
    del_sorted: Vec<usize>,
    ordered: bool,
    consistent: Ghost<bool>,
    made_present: Ghost<Seq<usize>>,
    initial: Ghost<Map<Seq<char>, Seq<u8>>>,
    deleted: Ghost<Seq<Seq<char>>>,
}

/// `latest` is what `contents` records for `id`: its bytes, or none when nothing is recorded.
pub open spec fn stored_copy(
    contents: Map<Seq<char>, Seq<u8>>,
    id: Seq<char>,
    latest: Option<Vec<u8>>,
) -> bool {
    match latest {
        Some(bytes) => contents.contains_key(id) && contents[id] == bytes@,
        None => !contents.contains_key(id),
    }
}

impl PlanRun {
    /// The plan resources of the run, in the order of the plan.
    pub closed spec fn items(&self) -> Seq<PlanItem> {
        self.items@
    }

    /// What the datastore of the run records.
    pub closed spec fn contents(&self) -> Map<Seq<char>, Seq<u8>> {
        self.datastore.contents()
    }

    /// The run is over.
    pub closed spec fn finished(&self) -> bool {
        self.phase is Finished
    }

    /// Whether the run applies or destroys.
    pub closed spec fn mode(&self) -> RunMode {
        self.mode
    }

    /// What the datastore recorded when the run started.
    pub closed spec fn initial(&self) -> Map<Seq<char>, Seq<u8>> {
        self.initial@
    }

    /// The ids whose deletion the caller confirmed in this run, in order.
    pub closed spec fn deleted(&self) -> Seq<Seq<char>> {
        self.deleted@
    }

    /// The id of the stored resource the run waits to hear read back or deleted, if any.
    pub closed spec fn pending_key(&self) -> Option<Seq<char>> {
        match self.phase {
            Phase::Absent(p) => Some(self.items@[self.sorted@[p as int] as int].id@),
            Phase::Collect(i) => Some(self.ids@[i as int]@),
            Phase::Delete(p) => Some(self.collected@[self.del_sorted@[p as int] as int].id@),
            _ => None,
        }
    }

    /// The error of the deletions of an apply, which the run ends with once every planned
    /// resource it can make present was made present.
    pub closed spec fn deferred_error(&self) -> Option<PlanError> {
        match self.absent_result {
            Some(Err(e)) => Some(e),
            _ => None,
        }
    }

    /// The ids of the plan resources made present so far.
    pub open spec fn made_ids(&self) -> Set<Seq<char>> {
        ids_at(self.items(), self.made_present())
    }

    /// What the datastore records follows from what it recorded at the start and from the
    /// outcomes handed back (see `follows_history`).
    pub open spec fn keeps_history(&self) -> bool {
        follows_history(self.initial(), self.deleted(), self.contents(), self.made_ids())
    }

    /// The action asked for fits the run: a read or a deletion names the stored resource the
    /// run waits on and carries the bytes recorded for it (and a deletion comes after the
    /// deletion of every resource that depends on it); making a plan resource present carries
    /// the copy recorded for it, if any; the run ends only when it is over.
    pub open spec fn asks_well(&self, action: &Action) -> bool {
        match *action {
            Action::Collect { key, bytes } => self.pending_key() == Some(key@)
                && self.contents().contains_key(key@) && self.contents()[key@] == bytes@,
            Action::Delete { key, bytes } => self.pending_key() == Some(key@)
                && self.contents().contains_key(key@) && self.contents()[key@] == bytes@
                && self.dependents_deleted_first(),
            Action::Ensure { index, latest } => self.pending() == Some(index) && index
                < self.items().len() && stored_copy(
                self.contents(),
                self.items()[index as int].id@,
                latest,
            ),
            Action::Finish(_) => self.finished(),
        }
    }

    /// A failed outcome `e` of a read or a deletion: a destroy ends with it; an apply ends
    /// with it too, or goes on to make the planned resources present and ends with it then.
    pub open spec fn fails_with(&self, action: &Action, e: PlanError) -> bool {
        ||| *action == Action::Finish(Err(e))
        ||| self.mode() == RunMode::Apply && action is Ensure && self.deferred_error() == Some(e)
    }

    /// Every stored resource read back for deletion so far had the id it is stored under.
    pub closed spec fn loads_consistent(&self) -> bool {
        self.consistent@
    }

    /// When the run ends well (and stored resources read back as what they are stored
    /// under), the datastore records exactly the planned resources wanted present (apply),
    /// or nothing (destroy).
    pub open spec fn outcome_holds(&self) -> bool {
        &&& self.mode() == RunMode::Apply ==> self.contents().dom() == present_ids(self.items())
        &&& self.mode() == RunMode::Destroy ==> self.contents().dom() == Set::<Seq<char>>::empty()
    }

    #[verifier::inline]
    spec fn tbc(&self) -> Seq<Seq<char>> {
        self.to_be_created@.map_values(|s: String| s@)
    }

    #[verifier::inline]
    spec fn idv(&self) -> Seq<Seq<char>> {
        self.ids@.map_values(|s: String| s@)
    }

    #[verifier::inline]
    spec fn dom(&self) -> Set<Seq<char>> {
        self.datastore.contents().dom()
    }

    spec fn kept_ok(&self) -> bool {
        &&& self.mode == RunMode::Destroy ==> self.to_be_created@.len() == 0
        &&& self.mode == RunMode::Apply ==> forall|j: int|
            0 <= j < self.to_be_created@.len() ==> present_ids(self.items@).contains(
                #[trigger] self.to_be_created@[j]@,
            )
    }

    spec fn collect_inv(&self, i: int) -> bool {
        &&& self.collected@.len() == i
        &&& forall|j: int| 0 <= j < self.ids@.len() ==> self.dom().contains(#[trigger] self.ids@[j]@)
        &&& forall|k: Seq<char>| #[trigger]
            self.dom().contains(k) ==> self.tbc().contains(k) || self.idv().contains(k)
        &&& self.consistent@ ==> forall|j: int|
            0 <= j < i ==> #[trigger] self.collected@[j].id@ == self.ids@[j]@
    }

    spec fn delete_inv(&self, p: int) -> bool {
        self.consistent@ ==> forall|k: Seq<char>| #[trigger]
            self.dom().contains(k) ==> self.tbc().contains(k) || exists|q: int|
                0 <= q < p && self.collected@[self.del_sorted@[q] as int].id@ == k
    }

    spec fn present_inv(&self, p: int) -> bool {
        self.absent_result matches Some(Ok(_)) && self.consistent@ ==> {
            &&& forall|k: Seq<char>| #[trigger]
                self.dom().contains(k) ==> present_ids(self.items@).contains(k)
            &&& forall|q: int|
                0 <= q < p && self.items@[self.sorted@[q] as int].state == ResourceState::Present
                    ==> self.dom().contains(#[trigger] self.items@[self.sorted@[q] as int].id@)
        }
    }

    spec fn absent_done_inv(&self, p: int) -> bool {
        forall|q: int|
            p <= q < self.sorted@.len() && self.items@[self.sorted@[q] as int].state
                == ResourceState::Absent ==> !self.dom().contains(
                #[trigger] self.items@[self.sorted@[q] as int].id@,
            )
    }

    spec fn stored_done_inv(&self, p: int) -> bool {
        forall|q: int|
            p <= q < self.del_sorted@.len() ==> !self.dom().contains(
                #[trigger] self.collected@[self.del_sorted@[q] as int].id@,
            )
    }

    /// The stored resources read back for deletion, in the order they were read.
    pub closed spec fn stored(&self) -> Seq<PlanItem> {
        self.collected@
    }

    /// The plan resource wanted absent that the run waits to hear deleted, if any.
    pub closed spec fn pending_absent(&self) -> Option<usize> {
        match self.phase {
            Phase::Absent(p) => Some(self.sorted@[p as int]),
            _ => None,
        }
    }

    /// The stored resource (its position among those read back) that the run waits to hear
    /// deleted, if any.
    pub closed spec fn pending_stored(&self) -> Option<usize> {
        match self.phase {
            Phase::Delete(p) => Some(self.del_sorted@[p as int]),
            _ => None,
        }
    }

    /// When the run asks that a resource be deleted, no resource that depends on it is
    /// recorded any more: of the plan resources (when no two share an id), those wanted
    /// absent; of the stored resources read back (when no two share an id), all.
    pub open spec fn dependents_deleted_first(&self) -> bool {
        &&& match self.pending_absent() {
            Some(x) => ids_distinct(self.items()) ==> forall|y: int, k: int|
                0 <= y < self.items().len() && 0 <= k < self.items()[y].dependencies@.len()
                    && #[trigger] dep_of(self.items(), y, k) == self.items()[x as int].id@
                    && self.items()[y].state == ResourceState::Absent
                    ==> !self.contents().contains_key(self.items()[y].id@),
            None => true,
        }
        &&& match self.pending_stored() {
            Some(x) => ids_distinct(self.stored()) ==> forall|y: int, k: int|
                0 <= y < self.stored().len() && 0 <= k < self.stored()[y].dependencies@.len()
                    && #[trigger] dep_of(self.stored(), y, k) == self.stored()[x as int].id@
                    ==> !self.contents().contains_key(self.stored()[y].id@),
            None => true,
        }
    }

    spec fn made_inv(&self, p: int) -> bool {
        forall|q: int|
            0 <= q < p && self.items@[self.sorted@[q] as int].state == ResourceState::Present
                ==> self.made_present@.contains(#[trigger] self.sorted@[q])
    }

    /// The plan resources (by position in the plan) made present in this run so far, in
    /// the order they were made present.
    pub closed spec fn made_present(&self) -> Seq<usize> {
        self.made_present@
    }

    /// The plan resource that the run waits to hear made present, if any.
    pub closed spec fn pending(&self) -> Option<usize> {
        match self.phase {
            Phase::Present(p) => Some(self.sorted@[p as int]),
            _ => None,
        }
    }

    /// When the run asks that a plan resource be made present (and no two plan resources
    /// share an id), each of its dependencies that is wanted present was made present
    /// before in this run.
    pub open spec fn dependencies_made_first(&self, action: &Action) -> bool {
        match *action {
            Action::Ensure { index, .. } => ids_distinct(self.items()) ==> forall|k: int|
                0 <= k < self.items()[index as int].dependencies@.len() && id_index(
                    self.items(),
                    #[trigger] dep_of(self.items(), index as int, k),
                ) >= 0 && self.items()[id_index(
                    self.items(),
                    dep_of(self.items(), index as int, k),
                )].state == ResourceState::Present ==> self.made_present().contains(
                    id_index(self.items(), dep_of(self.items(), index as int, k)) as usize,
                ),
            _ => true,
        }
    }

    /// The internal consistency of a run.
    pub closed spec fn wf(&self) -> bool {
        &&& within_graph_limits(self.items@)
        &&& follows_history(
            self.initial@,
            self.deleted@,
            self.datastore.contents(),
            ids_at(self.items@, self.made_present@),
        )
        &&& forall|j: int|
            0 <= j < self.made_present@.len() ==> #[trigger] self.made_present@[j] < self.items@.len()
        &&& (self.phase is Absent || self.phase is Collect || self.phase is Delete)
            ==> self.made_present@.len() == 0
        &&& match self.phase {
            Phase::Absent(p) => self.dom().contains(self.items@[self.sorted@[p as int] as int].id@),
            Phase::Collect(i) => self.dom().contains(self.ids@[i as int]@),
            Phase::Delete(p) => self.dom().contains(
                self.collected@[self.del_sorted@[p as int] as int].id@,
            ),
            _ => true,
        }
        &&& (self.ordered ==> is_topological_order(
            self.sorted@,
            self.items@.len(),
            dependency_edges(self.items@),
        ))
        &&& (self.mode == RunMode::Apply && !(self.phase is Finished) ==> self.ordered)
        &&& (self.mode == RunMode::Destroy ==> self.items@.len() == 0 && self.sorted@.len() == 0)
        &&& self.collected@.len() <= self.ids@.len()
        &&& self.collected_deps == total_deps(self.collected@, self.collected@.len() as int)
        &&& self.collected@.len() < u32::MAX
        &&& self.collected_deps < u32::MAX
        &&& self.kept_ok()
        &&& match self.phase {
            Phase::Absent(p) => self.mode == RunMode::Apply && p < self.sorted@.len()
                && self.absent_result is None && self.absent_done_inv(p + 1),
            Phase::Collect(i) => i < self.ids@.len() && self.collect_inv(i as int)
                && self.absent_result is None,
            Phase::Delete(p) => p < self.del_sorted@.len() && is_topological_order(
                self.del_sorted@,
                self.collected@.len(),
                dependency_edges(self.collected@),
            ) && self.absent_result is None && self.delete_inv(p + 1) && self.stored_done_inv(
                p + 1,
            ),
            Phase::Present(p) => self.mode == RunMode::Apply && p < self.sorted@.len()
                && self.absent_result is Some && self.present_inv(p as int) && self.made_inv(
                p as int,
            )
                && self.items@[self.sorted@[p as int] as int].state == ResourceState::Present,
            Phase::Finished => true,
        }
    }

    /// Whether `event` answers the action the run waits for (and, for a stored resource
    /// read back, keeps the graph of stored resources within the index types of the graph).
    pub closed spec fn spec_accepts(&self, event: &Event) -> bool {
        match self.phase {
            Phase::Absent(_) | Phase::Delete(_) => event is Deleted,
            Phase::Collect(_) => match event {
                Event::Collected(Ok(item)) => self.collected_deps + item.dependencies@.len()
                    < u32::MAX && self.collected@.len() + 1 < u32::MAX,
                Event::Collected(Err(_)) => true,
                _ => false,
            },
            Phase::Present(_) => event is Ensured,
            Phase::Finished => false,
        }
    }

    /// Whether `event` can be handed to `resume` (see `spec_accepts`).
    pub fn accepts(&self, event: &Event) -> (b: bool)
        requires
            self.wf(),
        ensures
            b == self.spec_accepts(event),
    {
        match self.phase {
            Phase::Absent(_) | Phase::Delete(_) => match event {
                Event::Deleted(_) => true,
                _ => false,
            },
            Phase::Collect(_) => match event {
                Event::Collected(Ok(item)) => item.dependencies.len() < 0xffff_ffff
                    - self.collected_deps && self.collected.len() < 0xffff_fffe,
                Event::Collected(Err(_)) => true,
                _ => false,
            },
            Phase::Present(_) => match event {
                Event::Ensured(_) => true,
                _ => false,
            },
            Phase::Finished => false,
        }
    }

    /// Starts applying the plan resources `items` against `datastore`.
    pub fn apply(items: Vec<PlanItem>, datastore: Datastore) -> (r: (PlanRun, Action))
        requires
            within_graph_limits(items@),
        ensures
            r.0.wf(),
            r.0.items() == items@,
            r.0.mode() == RunMode::Apply,
            r.1 is Finish <==> r.0.finished(),
            r.1 matches Action::Finish(Ok(())) && r.0.loads_consistent() ==> r.0.outcome_holds(),
            r.0.made_present() == Seq::<usize>::empty(),
            r.0.dependencies_made_first(&r.1),
            r.1 matches Action::Ensure { index, .. } ==> r.0.pending() == Some(index),
            r.1 is Delete ==> r.0.dependents_deleted_first(),
            r.0.initial() == datastore.contents(),
            r.0.contents() == datastore.contents(),
            r.0.deleted() == Seq::<Seq<char>>::empty(),
            r.0.keeps_history(),
            r.0.asks_well(&r.1),
            !orderable(items@) ==> (r.1 matches Action::Finish(Err(e)) && ordering_error(items@, e)),
            orderable(items@) ==> !(r.1 matches Action::Finish(Err(_))),
            r.1 matches Action::Finish(Err(e)) ==> reports(
                problem_from(items@, 0, 0),
                Err::<Vec<usize>, PlanError>(e),
            ),
    {
        let ghost init = datastore.contents();
        let sorted = match toposort_items(&items) {
            Ok(sorted) => sorted,
            Err(err) => {
                let run = PlanRun {
                    mode: RunMode::Apply,
                    items,
                    sorted: Vec::new(),
                    datastore,
                    phase: Phase::Finished,
                    to_be_created: Vec::new(),
                    absent_result: None,
                    ids: Vec::new(),
                    collected: Vec::new(),
                    collected_deps: 0,
                    del_sorted: Vec::new(),
                    ordered: false,
                    consistent: Ghost(true),
                    made_present: Ghost(Seq::empty()),
                    initial: Ghost(init),
                    deleted: Ghost(Seq::empty()),
                };
                return (run, Action::Finish(Err(err)));
            },
        };
        let mut run = PlanRun {
            mode: RunMode::Apply,
            items,
            sorted,
            datastore,
            phase: Phase::Finished,
            to_be_created: Vec::new(),
            absent_result: None,
            ids: Vec::new(),
            collected: Vec::new(),
            collected_deps: 0,
            del_sorted: Vec::new(),
            ordered: true,
            consistent: Ghost(true),
            made_present: Ghost(Seq::empty()),
            initial: Ghost(init),
            deleted: Ghost(Seq::empty()),
        };
        let n = run.sorted.len();
        let action = run.scan_absent(n);
        (run, action)
    }

    /// Starts destroying everything `datastore` records.
    pub fn destroy(datastore: Datastore) -> (r: (PlanRun, Action))
        ensures
            r.0.wf(),
            r.0.items() == Seq::<PlanItem>::empty(),
            r.0.mode() == RunMode::Destroy,
            r.1 is Finish <==> r.0.finished(),
            r.1 matches Action::Finish(Ok(())) && r.0.loads_consistent() ==> r.0.outcome_holds(),
            r.1 is Delete ==> r.0.dependents_deleted_first(),
            r.0.initial() == datastore.contents(),
            r.0.contents() == datastore.contents(),
            r.0.deleted() == Seq::<Seq<char>>::empty(),
            r.0.keeps_history(),
            r.0.asks_well(&r.1),
            r.1 is Collect || (r.1 matches Action::Finish(Ok(_))),
            r.1 is Finish <==> datastore.contents().dom() == Set::<Seq<char>>::empty(),
    {
        let ghost init = datastore.contents();
        let mut run = PlanRun {
            mode: RunMode::Destroy,
            items: Vec::new(),
            sorted: Vec::new(),
            datastore,
            phase: Phase::Finished,
            to_be_created: Vec::new(),
            absent_result: None,
            ids: Vec::new(),
            collected: Vec::new(),
            collected_deps: 0,
            del_sorted: Vec::new(),
            ordered: false,
            consistent: Ghost(true),
            made_present: Ghost(Seq::empty()),
            initial: Ghost(init),
            deleted: Ghost(Seq::empty()),
        };
        let keys = run.datastore.keys();
        proof {
            assert forall|j: int| 0 <= j < keys@.len() implies run.dom().contains(
                #[trigger] keys@[j]@,
            ) by {
                assert(keys@.map_values(|s: String| s@)[j] == keys@[j]@);
                assert(run.datastore.key_seq().contains(keys@[j]@));
            }
            assert forall|key: Seq<char>| #[trigger]
                run.dom().contains(key) implies run.tbc().contains(key) || keys@.map_values(
                |s: String| s@,
            ).contains(key) by {
                assert(run.datastore.key_seq().contains(key));
            }
            assert(within_graph_limits(run.items@)) by {
                assert(total_deps(run.items@, 0) == 0);
            }
        }
        let action = run.delete_ids(keys);
        proof {
            lemma_no_items_orderable(run.collected@);
        }
        (run, action)
    }

    /// The datastore of the run.
    pub fn datastore(&self) -> (d: &Datastore)
        ensures
            d.contents() == self.contents(),
    {
        &self.datastore
    }

    /// Ends the run, giving back its datastore.
    pub fn into_datastore(self) -> (d: Datastore)
        ensures
            d.contents() == self.contents(),
    {
        self.datastore
    }

    /// Visits the planned resources from position `p - 1` down to 0: one wanted absent
    /// and recorded is deleted; the id of one wanted present is kept. Then deletes what is
    /// recorded and not kept.
    fn scan_absent(&mut self, p: usize) -> (action: Action)
        requires
            old(self).made_present@.len() == 0,
            old(self).wf(),
            old(self).mode == RunMode::Apply,
            old(self).ordered,
            old(self).absent_result is None,
            p <= old(self).sorted@.len(),
            old(self).absent_done_inv(p as int),
        ensures
            final(self).wf(),
            final(self).items() == old(self).items(),
            final(self).mode == old(self).mode,
            final(self).consistent == old(self).consistent,
            action is Finish <==> final(self).finished(),
            action matches Action::Finish(Ok(())) && final(self).consistent@ ==> final(self).outcome_holds(),
            final(self).made_present == old(self).made_present,
            final(self).dependencies_made_first(&action),
            action matches Action::Ensure { index, .. } ==> final(self).pending() == Some(index),
            action is Delete ==> final(self).dependents_deleted_first(),
            final(self).initial == old(self).initial,
            final(self).deleted == old(self).deleted,
            final(self).datastore.contents() == old(self).datastore.contents(),
            final(self).asks_well(&action),
            action is Delete ==> final(self).collected == old(self).collected,
            !(action is Delete) ==> final(self).collected@.len() == 0,
            action matches Action::Finish(Err(e)) ==> ordering_error(final(self).stored(), e),
            action is Ensure ==> final(self).deferred_error() is None || ordering_error(
                final(self).stored(),
                final(self).deferred_error()->0,
            ),
    {
        self.phase = Phase::Finished;
        let mut p = p;
        while p > 0
            invariant
                self.made_present@.len() == 0,
                self.ids == old(self).ids,
                self.wf(),
                self.mode == RunMode::Apply,
                self.ordered,
                self.absent_result is None,
                p <= self.sorted@.len(),
                self.absent_done_inv(p as int),
                self.items@ == old(self).items@,
                self.mode == old(self).mode,
                self.phase is Finished,
                self.consistent == old(self).consistent,
                self.made_present == old(self).made_present,
                self.initial == old(self).initial,
                self.deleted == old(self).deleted,
                self.datastore.contents() == old(self).datastore.contents(),
                self.collected == old(self).collected,
            decreases p,
        {
            p = p - 1;
            let index = self.sorted[p];
            match self.items[index].state {
                ResourceState::Absent => {
                    let id = self.items[index].id.clone();
                    match self.datastore.get_bytes(&id) {
                        Some(bytes) => {
                            let bytes = bytes.clone();
                            self.phase = Phase::Absent(p);
                            proof {
                                self.lemma_absent_dependents_deleted(p as int);
                            }
                            return Action::Delete { key: id, bytes };
                        },
                        None => {},
                    }
                },
                ResourceState::Present => {
                    let id = self.items[index].id.clone();
                    proof {
                        assert(present_ids(self.items@).contains(id@)) by {
                            assert(self.items@[index as int].id@ == id@);
                        }
                    }
                    self.to_be_created.push(id);
                },
            }
        }
        let keys = self.datastore.keys();
        let mut ids: Vec<String> = Vec::new();
        let mut k: usize = 0;
        while k < keys.len()
            invariant
                k <= keys@.len(),
                keys@.map_values(|s: String| s@) == self.datastore.key_seq(),
                forall|key: Seq<char>|
                    self.dom().contains(key) <==> #[trigger] self.datastore.key_seq().contains(key),
                forall|j: int| 0 <= j < ids@.len() ==> self.dom().contains(#[trigger] ids@[j]@),
                forall|j: int|
                    0 <= j < k ==> self.tbc().contains(#[trigger] keys@[j]@) || ids@.map_values(
                        |s: String| s@,
                    ).contains(keys@[j]@),
            decreases keys@.len() - k,
        {
            proof {
                assert(keys@.map_values(|s: String| s@)[k as int] == keys@[k as int]@);
                assert(self.datastore.key_seq().contains(keys@[k as int]@));
            }
            if !contains_string(&self.to_be_created, &keys[k]) {
                let ghost old_ids = ids@;
                ids.push(keys[k].clone());
                proof {
                    assert forall|j: int| 0 <= j < k + 1 implies self.tbc().contains(
                        #[trigger] keys@[j]@,
                    ) || ids@.map_values(|s: String| s@).contains(keys@[j]@) by {
                        if j == k {
                            assert(ids@.map_values(|s: String| s@)[old_ids.len() as int]
                                == keys@[j]@);
                        } else if !self.tbc().contains(keys@[j]@) {
                            let m = old_ids.map_values(|s: String| s@);
                            let c = choose|c: int| 0 <= c < m.len() && #[trigger] m[c] == keys@[j]@;
                            assert(ids@.map_values(|s: String| s@)[c] == keys@[j]@);
                        }
                    }
                }
            }
            k = k + 1;
        }
        proof {
            assert forall|key: Seq<char>| #[trigger]
                self.dom().contains(key) implies self.tbc().contains(key) || ids@.map_values(
                |s: String| s@,
            ).contains(key) by {
                let ks = self.datastore.key_seq();
                assert(ks.contains(key));
                let j = choose|j: int| 0 <= j < ks.len() && ks[j] == key;
                assert(keys@.map_values(|s: String| s@)[j] == keys@[j]@);
            }
        }
        self.delete_ids(ids)
    }

    /// Starts deleting the stored resources `ids`, dependents before their dependencies.
    fn delete_ids(&mut self, ids: Vec<String>) -> (action: Action)
        requires
            old(self).made_present@.len() == 0,
            old(self).wf(),
            old(self).mode == RunMode::Apply ==> old(self).ordered,
            old(self).absent_result is None,
            forall|j: int| 0 <= j < ids@.len() ==> old(self).dom().contains(#[trigger] ids@[j]@),
            forall|key: Seq<char>| #[trigger]
                old(self).dom().contains(key) ==> old(self).tbc().contains(key) || ids@.map_values(
                    |s: String| s@,
                ).contains(key),
        ensures
            final(self).wf(),
            final(self).items() == old(self).items(),
            final(self).mode == old(self).mode,
            final(self).consistent == old(self).consistent,
            action is Finish <==> final(self).finished(),
            action matches Action::Finish(Ok(())) && final(self).consistent@ ==> final(self).outcome_holds(),
            final(self).made_present == old(self).made_present,
            final(self).dependencies_made_first(&action),
            action matches Action::Ensure { index, .. } ==> final(self).pending() == Some(index),
            action is Delete ==> final(self).dependents_deleted_first(),
            final(self).initial == old(self).initial,
            final(self).deleted == old(self).deleted,
            final(self).datastore.contents() == old(self).datastore.contents(),
            final(self).asks_well(&action),
            final(self).collected@.len() == 0,
            ids@.len() > 0 ==> action is Collect,
            !(action is Delete),
            action matches Action::Finish(Err(e)) ==> ordering_error(final(self).stored(), e),
            action is Ensure ==> final(self).deferred_error() is None || ordering_error(
                final(self).stored(),
                final(self).deferred_error()->0,
            ),
    {
        self.phase = Phase::Finished;
        self.ids = ids;
        self.collected = Vec::new();
        self.collected_deps = 0;
        self.del_sorted = Vec::new();
        proof {
            assert(self.idv() == ids@.map_values(|s: String| s@));
        }
        self.scan_collect(0)
    }

    /// Reads the stored resources from id `i` on; then orders them and deletes them.
    fn scan_collect(&mut self, i: usize) -> (action: Action)
        requires
            old(self).made_present@.len() == 0,
            old(self).wf(),
            old(self).mode == RunMode::Apply ==> old(self).ordered,
            old(self).absent_result is None,
            i <= old(self).ids@.len(),
            old(self).collect_inv(i as int),
        ensures
            final(self).wf(),
            final(self).items() == old(self).items(),
            final(self).mode == old(self).mode,
            final(self).consistent == old(self).consistent,
            action is Finish <==> final(self).finished(),
            action matches Action::Finish(Ok(())) && final(self).consistent@ ==> final(self).outcome_holds(),
            final(self).made_present == old(self).made_present,
            final(self).dependencies_made_first(&action),
            action matches Action::Ensure { index, .. } ==> final(self).pending() == Some(index),
            action is Delete ==> final(self).dependents_deleted_first(),
            final(self).initial == old(self).initial,
            final(self).deleted == old(self).deleted,
            final(self).datastore.contents() == old(self).datastore.contents(),
            final(self).asks_well(&action),
            final(self).collected == old(self).collected,
            i < old(self).ids@.len() ==> action is Collect,
            i >= old(self).ids@.len() && old(self).collected@.len() == 0 ==> !(action is Delete),
            action matches Action::Finish(Err(e)) ==> ordering_error(final(self).stored(), e),
            action is Ensure ==> final(self).deferred_error() is None || ordering_error(
                final(self).stored(),
                final(self).deferred_error()->0,
            ),
    {
        self.phase = Phase::Finished;
        let ghost start = i;
        let mut i = i;
        while i < self.ids.len()
            invariant
                self.made_present@.len() == 0,
                self.ids == old(self).ids,
                start < self.ids@.len() ==> i == start,
                self.wf(),
                self.mode == RunMode::Apply ==> self.ordered,
                self.absent_result is None,
                i <= self.ids@.len(),
                self.collect_inv(i as int),
                self.items@ == old(self).items@,
                self.mode == old(self).mode,
                self.phase is Finished,
                self.consistent == old(self).consistent,
                self.made_present == old(self).made_present,
                self.initial == old(self).initial,
                self.deleted == old(self).deleted,
                self.datastore.contents() == old(self).datastore.contents(),
                self.collected == old(self).collected,
            decreases self.ids@.len() - i,
        {
            match self.datastore.get_bytes(&self.ids[i]) {
                Some(bytes) => {
                    let bytes = bytes.clone();
                    let key = self.ids[i].clone();
                    self.phase = Phase::Collect(i);
                    return Action::Collect { key, bytes };
                },
                None => {},
            }
            i = i + 1;
        }
        proof {
            assert(within_graph_limits(self.collected@));
        }
        match toposort_items(&self.collected) {
            Ok(order) => {
                self.del_sorted = order;
                let n = self.del_sorted.len();
                proof {
                    assert forall|key: Seq<char>| #[trigger]
                        self.dom().contains(key) implies self.consistent@ ==> (self.tbc().contains(
                        key,
                    ) || exists|q: int|
                        0 <= q < n && self.collected@[self.del_sorted@[q] as int].id@ == key) by {
                        if self.consistent@ && !self.tbc().contains(key) {
                            let m = self.idv();
                            let j = choose|j: int| 0 <= j < m.len() && #[trigger] m[j] == key;
                            assert(self.collected@[j].id@ == self.ids@[j]@);
                            assert(self.del_sorted@.contains(j as usize));
                            let q = choose|q: int|
                                0 <= q < self.del_sorted@.len() && self.del_sorted@[q] == j as usize;
                            assert(self.collected@[self.del_sorted@[q] as int].id@ == key);
                        }
                    }
                }
                self.scan_delete(n)
            },
            Err(err) => self.finish_delete_ids(Err(err)),
        }
    }

    /// Deletes the stored resources from position `p - 1` of their order down to 0.
    fn scan_delete(&mut self, p: usize) -> (action: Action)
        requires
            old(self).made_present@.len() == 0,
            old(self).wf(),
            old(self).mode == RunMode::Apply ==> old(self).ordered,
            old(self).absent_result is None,
            is_topological_order(
                old(self).del_sorted@,
                old(self).collected@.len(),
                dependency_edges(old(self).collected@),
            ),
            p <= old(self).del_sorted@.len(),
            old(self).delete_inv(p as int),
            old(self).stored_done_inv(p as int),
        ensures
            final(self).wf(),
            final(self).items() == old(self).items(),
            final(self).mode == old(self).mode,
            final(self).consistent == old(self).consistent,
            action is Finish <==> final(self).finished(),
            action matches Action::Finish(Ok(())) && final(self).consistent@ ==> final(self).outcome_holds(),
            final(self).made_present == old(self).made_present,
            final(self).dependencies_made_first(&action),
            action matches Action::Ensure { index, .. } ==> final(self).pending() == Some(index),
            action is Delete ==> final(self).dependents_deleted_first(),
            final(self).initial == old(self).initial,
            final(self).deleted == old(self).deleted,
            final(self).datastore.contents() == old(self).datastore.contents(),
            final(self).asks_well(&action),
            final(self).collected == old(self).collected,
            !(action matches Action::Finish(Err(_))),
            action is Ensure ==> final(self).deferred_error() is None,
            p == 0 ==> !(action is Delete),
    {
        self.phase = Phase::Finished;
        let ghost start = p;
        let mut pos = p;
        while pos > 0
            invariant
                pos <= start,
                start == p,
                self.made_present@.len() == 0,
                self.ids == old(self).ids,
                self.wf(),
                self.mode == RunMode::Apply ==> self.ordered,
                self.absent_result is None,
                is_topological_order(
                    self.del_sorted@,
                    self.collected@.len(),
                    dependency_edges(self.collected@),
                ),
                pos <= self.del_sorted@.len(),
                self.delete_inv(pos as int),
                self.stored_done_inv(pos as int),
                self.items@ == old(self).items@,
                self.mode == old(self).mode,
                self.phase is Finished,
                self.consistent == old(self).consistent,
                self.made_present == old(self).made_present,
                self.initial == old(self).initial,
                self.deleted == old(self).deleted,
                self.datastore.contents() == old(self).datastore.contents(),
                self.collected == old(self).collected,
            decreases pos,
        {
            pos = pos - 1;
            let index = self.del_sorted[pos];
            let key = self.collected[index].id.clone();
            match self.datastore.get_bytes(&key) {
                Some(bytes) => {
                    let bytes = bytes.clone();
                    self.phase = Phase::Delete(pos);
                    proof {
                        self.lemma_stored_dependents_deleted(pos as int);
                    }
                    return Action::Delete { key, bytes };
                },
                None => {
                    let ghost before = self.datastore.contents();
                    self.datastore.remove(&key);
                    proof {
                        assert(self.datastore.contents() =~= before);
                    }
                },
            }
        }
        self.finish_delete_ids(Ok(()))
    }

    /// The deletion of stored resources is over with `result`: a destroy ends; an apply
    /// goes on to make the planned resources present.
    fn finish_delete_ids(&mut self, result: Result<(), PlanError>) -> (action: Action)
        requires
            old(self).wf(),
            old(self).mode == RunMode::Apply ==> old(self).ordered,
            old(self).absent_result is None,
            result is Ok && old(self).consistent@ ==> forall|key: Seq<char>| #[trigger]
                old(self).dom().contains(key) ==> old(self).tbc().contains(key),
        ensures
            final(self).wf(),
            final(self).items() == old(self).items(),
            final(self).mode == old(self).mode,
            final(self).consistent == old(self).consistent,
            action is Finish <==> final(self).finished(),
            action matches Action::Finish(Ok(())) && final(self).consistent@ ==> final(self).outcome_holds(),
            final(self).made_present == old(self).made_present,
            final(self).dependencies_made_first(&action),
            action matches Action::Ensure { index, .. } ==> final(self).pending() == Some(index),
            action is Delete ==> final(self).dependents_deleted_first(),
            final(self).initial == old(self).initial,
            final(self).deleted == old(self).deleted,
            final(self).datastore.contents() == old(self).datastore.contents(),
            final(self).asks_well(&action),
            final(self).collected == old(self).collected,
            action is Finish ==> action == Action::Finish(result),
            !(action is Collect) && !(action is Delete),
            action is Ensure ==> final(self).mode == RunMode::Apply,
            action is Ensure ==> final(self).deferred_error() == match result {
                Err(e) => Some(e),
                Ok(_) => None::<PlanError>,
            },
    {
        match self.mode {
            RunMode::Destroy => {
                self.phase = Phase::Finished;
                proof {
                    if result is Ok && self.consistent@ {
                        assert(self.tbc().len() == 0);
                        assert(self.dom() =~= Set::<Seq<char>>::empty());
                    }
                }
                Action::Finish(result)
            },
            RunMode::Apply => {
                self.phase = Phase::Finished;
                proof {
                    if result is Ok && self.consistent@ {
                        assert forall|k: Seq<char>| #[trigger]
                            self.dom().contains(k) implies present_ids(self.items@).contains(k) by {
                            let t = self.tbc();
                            let j = choose|j: int| 0 <= j < t.len() && #[trigger] t[j] == k;
                            assert(t[j] == self.to_be_created@[j]@);
                        }
                    }
                }
                self.absent_result = Some(result);
                self.scan_present(0)
            },
        }
    }

    /// Makes present the planned resources wanted present, from position `p` of the order on.
    fn scan_present(&mut self, p: usize) -> (action: Action)
        requires
            old(self).wf(),
            old(self).mode == RunMode::Apply,
            old(self).ordered,
            old(self).absent_result is Some,
            p <= old(self).sorted@.len(),
            old(self).present_inv(p as int),
            old(self).made_inv(p as int),
        ensures
            final(self).wf(),
            final(self).items() == old(self).items(),
            final(self).mode == old(self).mode,
            final(self).consistent == old(self).consistent,
            action is Finish <==> final(self).finished(),
            action matches Action::Finish(Ok(())) && final(self).consistent@ ==> final(self).outcome_holds(),
            final(self).made_present == old(self).made_present,
            final(self).dependencies_made_first(&action),
            action matches Action::Ensure { index, .. } ==> final(self).pending() == Some(index),
            action is Delete ==> final(self).dependents_deleted_first(),
            final(self).initial == old(self).initial,
            final(self).deleted == old(self).deleted,
            final(self).datastore.contents() == old(self).datastore.contents(),
            final(self).asks_well(&action),
            final(self).collected == old(self).collected,
            action is Finish ==> action == Action::Finish(old(self).absent_result->0),
            action is Ensure ==> final(self).absent_result == old(self).absent_result,
            !(action is Collect) && !(action is Delete),
    {
        self.phase = Phase::Finished;
        let mut p = p;
        while p < self.sorted.len()
            invariant
                self.wf(),
                self.mode == RunMode::Apply,
                self.ordered,
                self.absent_result is Some,
                p <= self.sorted@.len(),
                self.present_inv(p as int),
                self.made_inv(p as int),
                self.absent_result == old(self).absent_result,
                self.items@ == old(self).items@,
                self.mode == old(self).mode,
                self.phase is Finished,
                self.consistent == old(self).consistent,
                self.made_present == old(self).made_present,
                self.initial == old(self).initial,
                self.deleted == old(self).deleted,
                self.datastore.contents() == old(self).datastore.contents(),
                self.collected == old(self).collected,
            decreases self.sorted@.len() - p,
        {
            let index = self.sorted[p];
            match self.items[index].state {
                ResourceState::Present => {
                    let latest = match self.datastore.get_bytes(&self.items[index].id) {
                        Some(bytes) => Some(bytes.clone()),
                        None => None,
                    };
                    self.phase = Phase::Present(p);
                    proof {
                        self.lemma_dependencies_made_first(p as int);
                    }
                    return Action::Ensure { index, latest };
                },
                ResourceState::Absent => {},
            }
            p = p + 1;
        }
        let ghost before = self.absent_result;
        let result = self.take_absent_result();
        proof {
            if result is Ok && self.consistent@ {
                assert(before matches Some(Ok(_)));
                assert forall|k: Seq<char>|
                    present_ids(self.items@).contains(k) implies #[trigger] self.dom().contains(k) by {
                    let i = choose|i: int|
                        0 <= i < self.items@.len() && self.items@[i].state == ResourceState::Present
                            && (#[trigger] self.items@[i]).id@ == k;
                    assert(self.sorted@.contains(i as usize));
                    let q = choose|q: int| 0 <= q < self.sorted@.len() && self.sorted@[q] == i as usize;
                    assert(self.items@[self.sorted@[q] as int].id@ == k);
                }
                assert(self.dom() =~= present_ids(self.items@));
                assert(self.contents().dom() == present_ids(self.items()));
            }
        }
        Action::Finish(result)
    }

    proof fn lemma_absent_dependents_deleted(&self, p: int)
        requires
            is_topological_order(self.sorted@, self.items@.len(), dependency_edges(self.items@)),
            self.items@.len() <= usize::MAX,
            0 <= p < self.sorted@.len(),
            self.absent_done_inv(p + 1),
        ensures
            ids_distinct(self.items@) ==> forall|y: int, k: int|
                0 <= y < self.items@.len() && 0 <= k < self.items@[y].dependencies@.len()
                    && #[trigger] dep_of(self.items@, y, k) == self.items@[self.sorted@[p] as int].id@
                    && self.items@[y].state == ResourceState::Absent ==> !self.dom().contains(
                    self.items@[y].id@,
                ),
    {
        let items = self.items@;
        let order = self.sorted@;
        let x = order[p] as int;
        if ids_distinct(items) {
            lemma_id_index_of_distinct(items, x);
            assert forall|y: int, k: int|
                0 <= y < items.len() && 0 <= k < items[y].dependencies@.len() && #[trigger] dep_of(
                    items,
                    y,
                    k,
                ) == items[x].id@ && items[y].state == ResourceState::Absent implies !self.dom().contains(
                items[y].id@,
            ) by {
                law_dependencies_come_first(items, order, y, k);
                let px = position_of(order, x);
                let py = position_of(order, y);
                assert(order.contains(x as usize));
                assert(order.contains(y as usize));
                assert(0 <= px < order.len() && order[px] == x as usize);
                assert(px == p) by {
                    if px != p {
                        assert(order[px] == order[p]);
                    }
                }
                assert(0 <= py < order.len() && order[py] == y as usize);
                assert(items[order[py] as int].state == ResourceState::Absent);
            }
        }
    }

    proof fn lemma_stored_dependents_deleted(&self, p: int)
        requires
            is_topological_order(
                self.del_sorted@,
                self.collected@.len(),
                dependency_edges(self.collected@),
            ),
            self.collected@.len() <= usize::MAX,
            0 <= p < self.del_sorted@.len(),
            self.stored_done_inv(p + 1),
        ensures
            ids_distinct(self.collected@) ==> forall|y: int, k: int|
                0 <= y < self.collected@.len() && 0 <= k < self.collected@[y].dependencies@.len()
                    && #[trigger] dep_of(self.collected@, y, k)
                    == self.collected@[self.del_sorted@[p] as int].id@ ==> !self.dom().contains(
                    self.collected@[y].id@,
                ),
    {
        let items = self.collected@;
        let order = self.del_sorted@;
        let x = order[p] as int;
        if ids_distinct(items) {
            lemma_id_index_of_distinct(items, x);
            assert forall|y: int, k: int|
                0 <= y < items.len() && 0 <= k < items[y].dependencies@.len() && #[trigger] dep_of(
                    items,
                    y,
                    k,
                ) == items[x].id@ implies !self.dom().contains(items[y].id@) by {
                law_dependencies_come_first(items, order, y, k);
                let px = position_of(order, x);
                let py = position_of(order, y);
                assert(order.contains(x as usize));
                assert(order.contains(y as usize));
                assert(0 <= px < order.len() && order[px] == x as usize);
                assert(px == p) by {
                    if px != p {
                        assert(order[px] == order[p]);
                    }
                }
                assert(0 <= py < order.len() && order[py] == y as usize);
            }
        }
    }

    proof fn lemma_dependencies_made_first(&self, p: int)
        requires
            self.ordered,
            is_topological_order(self.sorted@, self.items@.len(), dependency_edges(self.items@)),
            self.items@.len() <= usize::MAX,
            0 <= p < self.sorted@.len(),
            self.made_inv(p),
        ensures
            ids_distinct(self.items@) ==> forall|k: int|
                0 <= k < self.items@[self.sorted@[p] as int].dependencies@.len() && id_index(
                    self.items@,
                    #[trigger] dep_of(self.items@, self.sorted@[p] as int, k),
                ) >= 0 && self.items@[id_index(
                    self.items@,
                    dep_of(self.items@, self.sorted@[p] as int, k),
                )].state == ResourceState::Present ==> self.made_present@.contains(
                    id_index(self.items@, dep_of(self.items@, self.sorted@[p] as int, k)) as usize,
                ),
    {
        let items = self.items@;
        let order = self.sorted@;
        let index = order[p] as int;
        if ids_distinct(items) {
            assert forall|k: int|
                0 <= k < items[index].dependencies@.len() && id_index(
                    items,
                    #[trigger] dep_of(items, index, k),
                ) >= 0 && items[id_index(items, dep_of(items, index, k))].state
                    == ResourceState::Present implies self.made_present@.contains(
                id_index(items, dep_of(items, index, k)) as usize,
            ) by {
                law_dependencies_come_first(items, order, index, k);
                let j = id_index(items, dep_of(items, index, k));
                let pi = position_of(order, index);
                let pj = position_of(order, j);
                lemma_id_index_range(items, dep_of(items, index, k));
                assert(order.contains(j as usize));
                assert(order[p] == index as usize);
                assert(0 <= pi < order.len() && order[pi] == index as usize);
                assert(pi == p) by {
                    if pi != p {
                        assert(order[pi] == order[p]);
                    }
                }
                assert(0 <= pj < order.len());
                assert(order[pj] == j as usize);
                assert(self.items@[order[pj] as int].state == ResourceState::Present);
            }
        }
    }

    fn take_absent_result(&mut self) -> (r: Result<(), PlanError>)
        requires
            old(self).absent_result is Some,
        ensures
            final(self).absent_result is None,
            old(self).absent_result == Some(r),
            final(self).mode == old(self).mode,
            final(self).items == old(self).items,
            final(self).sorted == old(self).sorted,
            final(self).datastore == old(self).datastore,
            final(self).phase == old(self).phase,
            final(self).ids == old(self).ids,
            final(self).collected == old(self).collected,
            final(self).collected_deps == old(self).collected_deps,
            final(self).del_sorted == old(self).del_sorted,
            final(self).to_be_created == old(self).to_be_created,
            final(self).ordered == old(self).ordered,
            final(self).consistent == old(self).consistent,
            final(self).made_present == old(self).made_present,
            final(self).initial == old(self).initial,
            final(self).deleted == old(self).deleted,
    {
        let mut taken: Option<Result<(), PlanError>> = None;
        std::mem::swap(&mut taken, &mut self.absent_result);
        taken.unwrap()
    }

    /// Goes on with the outcome `event` of the action asked for last, and returns the next
    /// action.
    pub fn resume(&mut self, event: Event) -> (action: Action)
        requires
            old(self).wf(),
            old(self).spec_accepts(&event),
        ensures
            final(self).wf(),
            final(self).items() == old(self).items(),
            final(self).mode() == old(self).mode(),
            action is Finish <==> final(self).finished(),
            action matches Action::Finish(Ok(())) && final(self).loads_consistent() ==> final(self).outcome_holds(),
            final(self).dependencies_made_first(&action),
            action matches Action::Ensure { index, .. } ==> final(self).pending() == Some(index),
            event matches Event::Ensured(Ok(_)) ==> final(self).made_present() == old(
                self,
            ).made_present().push(old(self).pending()->0),
            !(event matches Event::Ensured(Ok(_))) ==> final(self).made_present() == old(
                self,
            ).made_present(),
            final(self).initial() == old(self).initial(),
            final(self).keeps_history(),
            final(self).asks_well(&action),
            action is Delete ==> final(self).dependents_deleted_first(),
            old(self).pending() is Some ==> action is Ensure || action is Finish,
            event matches Event::Deleted(Ok(())) ==> final(self).contents() == old(
                self,
            ).contents().remove(old(self).pending_key()->0) && final(self).deleted() == old(
                self,
            ).deleted().push(old(self).pending_key()->0),
            event matches Event::Ensured(Ok(bytes)) ==> final(self).contents() == old(
                self,
            ).contents().insert(old(self).items()[old(self).pending()->0 as int].id@, bytes@)
                && final(self).deleted() == old(self).deleted(),
            !(event matches Event::Deleted(Ok(_))) && !(event matches Event::Ensured(Ok(_)))
                ==> final(self).contents() == old(self).contents() && final(self).deleted() == old(
                self,
            ).deleted(),
            event matches Event::Ensured(Err(e)) ==> action == Action::Finish(
                Err(
                    match old(self).deferred_error() {
                        Some(first) => first,
                        None => e,
                    },
                ),
            ),
            event matches Event::Collected(Ok(item)) ==> final(self).stored() == old(
                self,
            ).stored().push(item) && final(self).loads_consistent() == (old(self).loads_consistent()
                && item.id@ == old(self).pending_key()->0),
            event matches Event::Deleted(Err(e)) ==> final(self).fails_with(&action, e),
            event matches Event::Collected(Err(d)) ==> final(self).fails_with(
                &action,
                PlanError::DatastoreError(d),
            ),
            succeeded(&event) ==> (action matches Action::Finish(Err(e)) ==> old(
                self,
            ).deferred_error() == Some(e) || ordering_error(final(self).stored(), e)),
            old(self).pending() is Some && succeeded(&event) ==> (action matches Action::Finish(r) ==> (
            old(self).deferred_error() matches Some(e) ==> r == Err::<(), PlanError>(e)) && (old(
                self,
            ).deferred_error() is None ==> r is Ok)),
    {
        match self.phase {
            Phase::Absent(p) => match event {
                Event::Deleted(Ok(())) => {
                    let index = self.sorted[p];
                    let id = self.items[index].id.clone();
                    self.phase = Phase::Finished;
                    self.datastore.remove(&id);
                    self.deleted = Ghost(self.deleted@.push(id@));
                    proof {
                        self.lemma_deletion_keeps_history(*old(self), id@);
                    }
                    self.scan_absent(p)
                },
                Event::Deleted(Err(err)) => self.finish_delete_ids(Err(err)),
                _ => {
                    assert(false);
                    Action::Finish(Ok(()))
                },
            },
            Phase::Collect(i) => match event {
                Event::Collected(Ok(item)) => {
                    assert(i < self.ids@.len());
                    self.phase = Phase::Finished;
                    proof {
                        lemma_total_deps_push(self.collected@, item);
                    }
                    let ghost still = self.consistent@ && item.id@ == self.ids@[i as int]@;
                    self.consistent = Ghost(still);
                    self.collected_deps = self.collected_deps + item.dependencies.len();
                    self.collected.push(item);
                    let len = self.ids.len();
                    assert(i + 1 <= len);
                    self.scan_collect(i + 1)
                },
                Event::Collected(Err(err)) => self.finish_delete_ids(
                    Err(PlanError::DatastoreError(err)),
                ),
                _ => {
                    assert(false);
                    Action::Finish(Ok(()))
                },
            },
            Phase::Delete(p) => match event {
                Event::Deleted(Ok(())) => {
                    let index = self.del_sorted[p];
                    let key = self.collected[index].id.clone();
                    self.phase = Phase::Finished;
                    self.datastore.remove(&key);
                    self.deleted = Ghost(self.deleted@.push(key@));
                    proof {
                        self.lemma_deletion_keeps_history(*old(self), key@);
                    }
                    proof {
                        assert(self.dom() =~= old_dom_minus(old(self), key@));
                    }
                    self.scan_delete(p)
                },
                Event::Deleted(Err(err)) => self.finish_delete_ids(Err(err)),
                _ => {
                    assert(false);
                    Action::Finish(Ok(()))
                },
            },
            Phase::Present(p) => match event {
                Event::Ensured(Ok(bytes)) => {
                    let index = self.sorted[p];
                    let id = self.items[index].id.clone();
                    proof {
                        assert(present_ids(self.items@).contains(id@)) by {
                            assert(self.items@[index as int].id@ == id@);
                        }
                    }
                    let ghost contents_before = self.datastore.contents();
                    self.datastore.insert_bytes(id, bytes);
                    let ghost before = self.made_present@;
                    self.made_present = Ghost(self.made_present@.push(index));
                    proof {
                        lemma_making_present_follows_history(
                            self.initial@,
                            self.deleted@,
                            contents_before,
                            self.items@,
                            before,
                            index,
                            self.datastore.contents(),
                        );
                    }
                    proof {
                        assert forall|q: int|
                            0 <= q < p + 1 && self.items@[self.sorted@[q] as int].state
                                == ResourceState::Present implies self.made_present@.contains(
                            #[trigger] self.sorted@[q],
                        ) by {
                            if q < p {
                                assert(before.contains(self.sorted@[q]));
                                let w = choose|w: int| 0 <= w < before.len() && before[w] == self.sorted@[q];
                                assert(self.made_present@[w] == self.sorted@[q]);
                            } else {
                                assert(self.made_present@[before.len() as int] == index);
                            }
                        }
                    }
                    self.scan_present(p + 1)
                },
                Event::Ensured(Err(err)) => {
                    self.phase = Phase::Finished;
                    let absent = self.take_absent_result();
                    match absent {
                        Ok(()) => Action::Finish(Err(err)),
                        Err(first) => Action::Finish(Err(first)),
                    }
                },
                _ => {
                    assert(false);
                    Action::Finish(Ok(()))
                },
            },
            Phase::Finished => {
                assert(false);
                Action::Finish(Ok(()))
            },
        }
    }
}

impl PlanRun {
    /// Deleting the stored resource `key` that an earlier state `before` waited to hear
    /// deleted, and noting its deletion, keeps the history.
    proof fn lemma_deletion_keeps_history(&self, before: PlanRun, key: Seq<char>)
        requires
            before.wf(),
            before.pending_key() == Some(key),
            self.initial == before.initial,
            self.deleted@ == before.deleted@.push(key),
            self.datastore.contents() == before.datastore.contents().remove(key),
            self.made_present == before.made_present,
            self.items == before.items,
        ensures
            self.keeps_history(),
    {
        assert(before.made_present@.len() == 0);
        assert(!before.made_ids().contains(key));
        assert forall|k: Seq<char>| #[trigger]
            self.initial().contains_key(k) && !self.deleted().contains(k) implies self.contents().contains_key(k) by {
            assert(!before.deleted().contains(k)) by {
                if before.deleted().contains(k) {
                    let j = choose|j: int| 0 <= j < before.deleted().len() && before.deleted()[j] == k;
                    assert(self.deleted()[j] == k);
                }
            }
            assert(k != key) by {
                assert(self.deleted()[before.deleted().len() as int] == key);
            }
        }
        assert forall|j: int| 0 <= j < self.deleted().len() implies self.initial().contains_key(
            #[trigger] self.deleted()[j],
        ) by {
            if j < before.deleted().len() {
                assert(self.deleted()[j] == before.deleted()[j]);
            }
        }
        assert forall|k: Seq<char>| #[trigger]
            self.contents().contains_key(k) && !self.made_ids().contains(k) implies self.initial().contains_key(k)
            && self.contents()[k] == self.initial()[k] by {
            assert(!before.made_ids().contains(k));
        }
    }
}

/// A run that has ended well, with the records following its history, deleted every resource
/// recorded when it started that is not a planned resource wanted present (apply), or every
/// one of them (destroy).
pub proof fn law_unwanted_records_are_deleted(run: &PlanRun, k: Seq<char>)
    requires
        run.keeps_history(),
        run.outcome_holds(),
        run.initial().contains_key(k),
        run.mode() == RunMode::Destroy || !present_ids(run.items()).contains(k),
    ensures
        run.deleted().contains(k),
{
    if !run.deleted().contains(k) {
        assert(run.contents().contains_key(k));
        assert(run.contents().dom().contains(k));
    }
}

/// Making present a planned resource that was neither made present nor deleted before in the
/// run starts from the copy recorded for it when the run started, if any.
pub proof fn law_ensure_starts_from_the_recorded_copy(
    run: &PlanRun,
    index: usize,
    latest: Option<Vec<u8>>,
)
    requires
        run.keeps_history(),
        run.asks_well(&Action::Ensure { index, latest }),
        !run.made_ids().contains(run.items()[index as int].id@),
        !run.deleted().contains(run.items()[index as int].id@),
    ensures
        stored_copy(run.initial(), run.items()[index as int].id@, latest),
{
    let id = run.items()[index as int].id@;
    if run.initial().contains_key(id) {
        assert(run.contents().contains_key(id));
    }
}

/// Recording the resource at `index`, made present, keeps the records following the history.
proof fn lemma_making_present_follows_history(
    initial: Map<Seq<char>, Seq<u8>>,
    deleted: Seq<Seq<char>>,
    contents: Map<Seq<char>, Seq<u8>>,
    items: Seq<PlanItem>,
    made: Seq<usize>,
    index: usize,
    after: Map<Seq<char>, Seq<u8>>,
)
    requires
        follows_history(initial, deleted, contents, ids_at(items, made)),
        index < items.len(),
        exists|v: Seq<u8>| after == contents.insert(items[index as int].id@, v),
    ensures
        follows_history(initial, deleted, after, ids_at(items, made.push(index))),
{
    let grown = made.push(index);
    let key = items[index as int].id@;
    assert forall|k: Seq<char>| ids_at(items, made).contains(k) implies ids_at(items, grown).contains(
        k,
    ) by {
        let j = choose|j: int| 0 <= j < made.len() && #[trigger] items[made[j] as int].id@ == k;
        assert(grown[j] == made[j]);
        assert(items[grown[j] as int].id@ == k);
    }
    assert(ids_at(items, grown).contains(key)) by {
        assert(grown[made.len() as int] == index);
        assert(items[grown[made.len() as int] as int].id@ == key);
    }
    assert forall|k: Seq<char>| #[trigger]
        after.contains_key(k) && !ids_at(items, grown).contains(k) implies initial.contains_key(k)
        && after[k] == initial[k] by {
        assert(k != key);
        assert(contents.contains_key(k));
        assert(!ids_at(items, made).contains(k));
    }
}

spec fn old_dom_minus(run: &PlanRun, key: Seq<char>) -> Set<Seq<char>> {
    run.datastore.contents().dom().remove(key)
}

/// Whether `s` is one of `v`.
fn contains_string(v: &Vec<String>, s: &String) -> (b: bool)
    ensures
        b == v@.map_values(|x: String| x@).contains(s@),
{
    let mut i: usize = 0;
    while i < v.len()
        invariant
            i <= v@.len(),
            forall|j: int| 0 <= j < i ==> (#[trigger] v@[j])@ != s@,
        decreases v@.len() - i,
    {
        if v[i] == *s {
            assert(v@.map_values(|x: String| x@)[i as int] == s@);
            return true;
        }
        i = i + 1;
    }
    proof {
        if v@.map_values(|x: String| x@).contains(s@) {
            let m = v@.map_values(|x: String| x@);
            let j = choose|j: int| 0 <= j < m.len() && #[trigger] m[j] == s@;
            assert(v@[j]@ == s@);
        }
    }
    false
}

} // verus!
