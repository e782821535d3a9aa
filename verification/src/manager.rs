//! What a resource manager (one per kind of cloud resource) offers, and how a resource
//! is brought to presence or absence from what the manager reports.

use std::sync::Arc;
use vstd::prelude::*;

verus! {

/// Why a manager could not do what it was asked.
#[derive(Debug, Clone)]
pub enum ManagerError {
    DeleteFail(String),
    CreateFail(String),
    UpdateFail(String),
    LookupFail(String),
    CannotSyncWithoutRecreate(String),
}

} // verus!

verus! {

/// Brings one kind of cloud resource in line with what is asked of it. Implemented for each
/// kind of resource, outside this library; its answers depend on the cloud. What each of its
/// calls may answer is named by a spec function, which an implementation may define; one
/// that does not promises nothing.
pub trait ResourceManager<Input, Output> {
    /// `lookup(latest)` may answer `r`.
    open spec fn looks_up(&self, latest: Output, r: Result<Option<Output>, ManagerError>) -> bool {
        true
    }

    /// `lookup_by_input(input)` may answer `r`.
    open spec fn looks_up_by_input(&self, input: Input, r: Result<Option<Output>, ManagerError>) -> bool {
        true
    }

    /// `create` may turn the input `before` into `after` and answer `r`.
    open spec fn creates(&self, before: Input, after: Input, r: Result<Output, ManagerError>) -> bool {
        true
    }

    /// `delete(latest)` may answer `r`.
    open spec fn deletes(&self, latest: Output, r: Result<bool, ManagerError>) -> bool {
        true
    }

    /// `syncup(latest, ..)` may turn the input `before` into `after` and answer `r`.
    open spec fn syncs(
        &self,
        latest: Output,
        before: Input,
        after: Input,
        r: Result<Option<Output>, ManagerError>,
    ) -> bool {
        true
    }

    /// Looks up the resource last known as `latest`.
    fn lookup(&self, latest: &Output) -> (r: Result<Option<Output>, ManagerError>)
        ensures
            self.looks_up(*latest, r),
    ;

    /// Looks up a resource that matches `input`.
    fn lookup_by_input(&self, input: &Input) -> (r: Result<Option<Output>, ManagerError>)
        ensures
            self.looks_up_by_input(*input, r),
    ;

    /// Creates the resource described by `input`.
    fn create(&self, input: &mut Input) -> (r: Result<Output, ManagerError>)
        ensures
            self.creates(*old(input), *final(input), r),
    ;

    /// Deletes the resource last known as `latest`.
    fn delete(&self, latest: &Output) -> (r: Result<bool, ManagerError>)
        ensures
            self.deletes(*latest, r),
    ;

    /// Updates the existing resource `latest` to match `input`; `None` when nothing changed.
    fn syncup(&self, latest: &Output, input: &mut Input) -> (r: Result<Option<Output>, ManagerError>)
        ensures
            self.syncs(*latest, *old(input), *final(input), r),
    ;

    /// Deletes the resource if it still exists: what `delete` answers when the lookup finds
    /// it, `Ok(false)` when it does not, and the lookup's error when it fails (see
    /// `makes_absent`).
    fn ensure_absent(&self, latest: &Output) -> (r: Result<bool, ManagerError>)
        ensures
            exists|found: Result<Option<Output>, ManagerError>|
                #[trigger] self.looks_up(*latest, found) && match found {
                    Ok(Some(_)) => self.deletes(*latest, r),
                    Ok(None) => r == Ok::<bool, ManagerError>(false),
                    Err(e) => r == Err::<bool, ManagerError>(e),
                },
    {
        match self.lookup(latest) {
            Ok(found) => if still_exists(&found) {
                self.delete(latest)
            } else {
                Ok(false)
            },
            Err(err) => Err(err),
        }
    }

    /// Makes the resource exist and match `input`: the resource found for the input, else
    /// the resource last known when a lookup still finds it, is synced; else one is created
    /// (see `presence` and `synced_output`). A failed lookup by input ends it with that error,
    /// the input untouched (see `makes_present`).
    fn ensure_present(&self, latest: Option<&Output>, input: &mut Input) -> (r: Result<
        Output,
        ManagerError,
    >)
        ensures
            exists|l: Result<Option<Output>, ManagerError>, a: Result<Option<Output>, ManagerError>|
                #![trigger self.looks_up_by_input(*old(input), a), known_of(latest, l)]
                (latest matches Some(k) ==> self.looks_up(*k, l)) && self.looks_up_by_input(
                    *old(input),
                    a,
                ) && match a {
                    Err(e) => r == Err::<Output, ManagerError>(e) && *final(input) == *old(input),
                    Ok(actual) => match presence(actual, known_of(latest, l)) {
                        Presence::Sync(o) => exists|u: Result<Option<Output>, ManagerError>|
                            #[trigger] self.syncs(o, *old(input), *final(input), u) && r == match u {
                                Ok(update) => Ok::<Output, ManagerError>(synced_output(o, update)),
                                Err(e) => Err(e),
                            },
                        Presence::Create => self.creates(*old(input), *final(input), r),
                    },
                },
    {
        let ghost mut l: Result<Option<Output>, ManagerError> = Ok(None);
        let latest_found = match latest {
            Some(known) => {
                let found = self.lookup(known);
                proof {
                    l = found;
                }
                found_or_none(found)
            },
            None => None,
        };
        let actual = match self.lookup_by_input(input) {
            Ok(actual) => actual,
            Err(err) => return Err(err),
        };
        assert(known_of(latest, l) == latest_found);
        match presence_of(actual, latest_found) {
            Presence::Sync(output) => match self.syncup(&output, input) {
                Ok(update) => Ok(synced(output, update)),
                Err(err) => Err(err),
            },
            Presence::Create => self.create(input),
        }
    }
}

/// What `ensure_absent` of the manager `m` may answer, `r`, for the resource last known as
/// `latest`, given what its calls may answer: `delete`'s answer when the lookup finds the
/// resource, `Ok(false)` when it does not, the lookup's error when it fails.
pub open spec fn makes_absent<Input, Output, M: ResourceManager<Input, Output> + ?Sized>(
    m: &M,
    latest: Output,
    r: Result<bool, ManagerError>,
) -> bool {
    exists|found: Result<Option<Output>, ManagerError>|
        #[trigger] m.looks_up(latest, found) && match found {
            Ok(Some(_)) => m.deletes(latest, r),
            Ok(None) => r == Ok::<bool, ManagerError>(false),
            Err(e) => r == Err::<bool, ManagerError>(e),
        }
}

/// What `ensure_present` of the manager `m` may answer, `r`, handed `latest` and turning the
/// input `before` into `after`, given what its calls may answer: a failed lookup by input
/// gives its error and leaves the input; else the resource found for the input, or else the
/// one last known when its lookup still finds it, is synced, the answer being the sync's
/// update, else that resource, or the sync's error; when neither is found, what `create`
/// answers.
pub open spec fn makes_present<Input, Output, M: ResourceManager<Input, Output> + ?Sized>(
    m: &M,
    latest: Option<&Output>,
    before: Input,
    after: Input,
    r: Result<Output, ManagerError>,
) -> bool {
    exists|l: Result<Option<Output>, ManagerError>, a: Result<Option<Output>, ManagerError>|
        #![trigger m.looks_up_by_input(before, a), known_of(latest, l)]
        (latest matches Some(k) ==> m.looks_up(*k, l)) && m.looks_up_by_input(before, a)
            && match a {
            Err(e) => r == Err::<Output, ManagerError>(e) && after == before,
            Ok(actual) => match presence(actual, known_of(latest, l)) {
                Presence::Sync(o) => exists|u: Result<Option<Output>, ManagerError>|
                    #[trigger] m.syncs(o, before, after, u) && r == match u {
                        Ok(update) => Ok::<Output, ManagerError>(synced_output(o, update)),
                        Err(e) => Err(e),
                    },
                Presence::Create => m.creates(before, after, r),
            },
        }
}

/// What is known of the resource last known as `latest` from the answer `l` of looking it
/// up: what the lookup found, none when it failed or there was nothing to look up.
pub open spec fn known_of<Output>(latest: Option<&Output>, l: Result<Option<Output>, ManagerError>) -> Option<Output> {
    match latest {
        Some(_) => match l {
            Ok(found) => found,
            Err(_) => None,
        },
        None => None,
    }
}

/// What is done to make a resource present: the resource found for the input is synced;
/// else the resource last known, when it still exists; else one is created.
pub open spec fn presence<Output>(by_input: Option<Output>, latest: Option<Output>) -> Presence<Output> {
    match by_input {
        Some(found) => Presence::Sync(found),
        None => match latest {
            Some(known) => Presence::Sync(known),
            None => Presence::Create,
        },
    }
}

/// The output of a synced resource: the update, when the sync reported one; else the
/// resource as it was.
pub open spec fn synced_output<Output>(existing: Output, update: Option<Output>) -> Output {
    match update {
        Some(updated) => updated,
        None => existing,
    }
}

/// Whether a lookup found the resource.
pub fn still_exists<Output>(found: &Option<Output>) -> (b: bool)
    ensures
        b == found is Some,
{
    found.is_some()
}

/// What a lookup of the resource last known found; a failed lookup counts as not found.
pub fn found_or_none<Output>(lookup: Result<Option<Output>, ManagerError>) -> (r: Option<Output>)
    ensures
        r == match lookup {
            Ok(found) => found,
            Err(_) => None,
        },
{
    match lookup {
        Ok(found) => found,
        Err(_) => None,
    }
}

/// What is done to make a resource present.
pub enum Presence<Output> {
    /// Update the existing resource `Output` to match the input.
    Sync(Output),
    /// Create the resource.
    Create,
}

/// The resource found for the input is synced; else the resource last known, when it still
/// exists; else one is created.
pub fn presence_of<Output>(by_input: Option<Output>, latest: Option<Output>) -> (p: Presence<Output>)
    ensures
        p == presence(by_input, latest),
{
    match by_input {
        Some(found) => Presence::Sync(found),
        None => match latest {
            Some(known) => Presence::Sync(known),
            None => Presence::Create,
        },
    }
}

/// The output of a synced resource: the update, when the sync reported one; else the
/// resource as it was.
pub fn synced<Output>(existing: Output, update: Option<Output>) -> (o: Output)
    ensures
        o == synced_output(existing, update),
{
    match update {
        Some(updated) => updated,
        None => existing,
    }
}

} // verus!

verus! {

/// `text` holds `pattern` as a run of consecutive characters.
pub open spec fn contains_text(text: Seq<char>, pattern: Seq<char>) -> bool {
    exists|i: int|
        0 <= i && i + pattern.len() <= text.len() && #[trigger] text.subrange(i, i + pattern.len())
            == pattern
}

/// Whether `pattern` occurs in `text`.
pub fn text_contains(text: &str, pattern: &str) -> (b: bool)
    ensures
        b == contains_text(text@, pattern@),
{
    let n = text.unicode_len();
    let m = pattern.unicode_len();
    if m > n {
        proof {
            assert forall|i: int| 0 <= i && i + m <= n implies #[trigger] text@.subrange(i, i + m)
                != pattern@ by {}
        }
        return false;
    }
    let mut i: usize = 0;
    while i <= n - m
        invariant
            n == text@.len(),
            m == pattern@.len(),
            m <= n,
            i <= n - m + 1,
            forall|a: int| 0 <= a < i ==> #[trigger] text@.subrange(a, a + m) != pattern@,
        decreases n - m + 1 - i,
    {
        let mut j: usize = 0;
        let mut same = true;
        while j < m
            invariant
                n == text@.len(),
                m == pattern@.len(),
                i + m <= n,
                j <= m,
                same == forall|c: int| 0 <= c < j ==> text@[i + c] == pattern@[c],
            decreases m - j,
        {
            if text.get_char(i + j) != pattern.get_char(j) {
                same = false;
            }
            j = j + 1;
        }
        if same {
            proof {
                assert(text@.subrange(i as int, i + m) =~= pattern@);
            }
            return true;
        }
        proof {
            let c = choose|c: int| 0 <= c < m && text@[i + c] != pattern@[c];
            assert(text@.subrange(i as int, i + m)[c] != pattern@[c]);
        }
        i = i + 1;
    }
    false
}

/// A lookup that failed because the resource does not exist (the failure's message holds
/// `missing`) found nothing; any other outcome is kept.
pub fn not_found_as_none<O>(found: Result<Option<O>, ManagerError>, missing: &str) -> (r: Result<
    Option<O>,
    ManagerError,
>)
    ensures
        (found matches Err(ManagerError::LookupFail(msg)) && contains_text(msg@, missing@)) ==> r
            matches Ok(None),
        !(found matches Err(ManagerError::LookupFail(msg)) && contains_text(msg@, missing@)) ==> r
            == found,
{
    match found {
        Err(ManagerError::LookupFail(msg)) => {
            if text_contains(msg.as_str(), missing) {
                Ok(None)
            } else {
                Err(ManagerError::LookupFail(msg))
            }
        },
        other => other,
    }
}

/// `Option::clone` of a shared manager: another handle on the same manager, if any.
#[verifier::external_body]
pub(crate) fn share_manager<Input, Output>(m: &Option<Arc<dyn ResourceManager<Input, Output>>>) -> (c: Option<
    Arc<dyn ResourceManager<Input, Output>>,
>)
    ensures
        c == *m,
{
    m.clone()
}

} // verus!
