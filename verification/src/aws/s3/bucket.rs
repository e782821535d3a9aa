//! Creating an S3 bucket, step by step: the library decides each step from the outcome of the
//! last one; its caller calls S3.

use crate::manager::{contains_text, text_contains, ManagerError};
use vstd::prelude::*;

verus! {

/// The configurations a bucket may be created with, in the order they are put.
#[derive(Debug, Clone, Copy, PartialEq, Eq, Structural)]
pub enum BucketConfig {
    Accelerate,
    Metrics,
    Acl,
    Analytics,
    Cors,
    Encryption,
    IntelligentTiering,
    Inventory,
    Lifecycle,
    Logging,
    Notification,
    OwnershipControls,
    Policy,
    Replication,
    RequestPayment,
    Tagging,
    Versioning,
    Website,
}

/// The configuration at position `k` of the order they are put in.
pub open spec fn config_at(k: int) -> BucketConfig {
    if k == 0 { BucketConfig::Accelerate }
    else if k == 1 { BucketConfig::Metrics }
    else if k == 2 { BucketConfig::Acl }
    else if k == 3 { BucketConfig::Analytics }
    else if k == 4 { BucketConfig::Cors }
    else if k == 5 { BucketConfig::Encryption }
    else if k == 6 { BucketConfig::IntelligentTiering }
    else if k == 7 { BucketConfig::Inventory }
    else if k == 8 { BucketConfig::Lifecycle }
    else if k == 9 { BucketConfig::Logging }
    else if k == 10 { BucketConfig::Notification }
    else if k == 11 { BucketConfig::OwnershipControls }
    else if k == 12 { BucketConfig::Policy }
    else if k == 13 { BucketConfig::Replication }
    else if k == 14 { BucketConfig::RequestPayment }
    else if k == 15 { BucketConfig::Tagging }
    else if k == 16 { BucketConfig::Versioning }
    else { BucketConfig::Website }
}

/// The configuration at position `k`.
fn config_of(k: usize) -> (c: BucketConfig)
    ensures
        c == config_at(k as int),
{
    if k == 0 { BucketConfig::Accelerate }
    else if k == 1 { BucketConfig::Metrics }
    else if k == 2 { BucketConfig::Acl }
    else if k == 3 { BucketConfig::Analytics }
    else if k == 4 { BucketConfig::Cors }
    else if k == 5 { BucketConfig::Encryption }
    else if k == 6 { BucketConfig::IntelligentTiering }
    else if k == 7 { BucketConfig::Inventory }
    else if k == 8 { BucketConfig::Lifecycle }
    else if k == 9 { BucketConfig::Logging }
    else if k == 10 { BucketConfig::Notification }
    else if k == 11 { BucketConfig::OwnershipControls }
    else if k == 12 { BucketConfig::Policy }
    else if k == 13 { BucketConfig::Replication }
    else if k == 14 { BucketConfig::RequestPayment }
    else if k == 15 { BucketConfig::Tagging }
    else if k == 16 { BucketConfig::Versioning }
    else { BucketConfig::Website }
}

/// What the creation of a bucket reads of its input: the bucket's name, and which of the
/// configurations (in the order of `BucketConfig`) it has.
pub struct BucketPlan {
    pub bucket: Option<String>,
    pub configured: [bool; 18],
}

/// What the caller is asked to do next.
pub enum BucketStep {
    /// Create the bucket of this name.
    CreateBucket(String),
    /// Write the bucket's name into this configuration of the input, and put it.
    Put { config: BucketConfig, bucket: String },
    /// Look the bucket up: it is the output of the creation when found.
    Lookup(String),
    /// The bucket was found: the creation is over.
    Done,
    /// The creation failed with this error.
    Fail(ManagerError),
}

/// The first position from `from` on of a configuration the bucket has; 18 when there is none.
pub open spec fn first_configured(c: Seq<bool>, from: int) -> int
    decreases 18 - from,
{
    if from >= 18 || from < 0 {
        18
    } else if c[from] {
        from
    } else {
        first_configured(c, from + 1)
    }
}

/// The error of the last step, if it failed.
pub open spec fn failure_of(last: Option<Result<bool, ManagerError>>) -> Option<ManagerError> {
    match last {
        Some(Err(e)) => Some(e),
        _ => None,
    }
}

/// The bucket exists already and is owned by the caller: a creation that goes on.
pub open spec fn already_owned(e: ManagerError) -> bool {
    e matches ManagerError::CreateFail(m) && contains_text(m@, "BucketAlreadyOwnedByYou"@)
}

/// The last step failed, and that ends the creation: a failure to create the bucket (step 1)
/// ends it unless the bucket is already owned by the caller.
pub open spec fn stops(step: usize, last: Option<Result<bool, ManagerError>>) -> bool {
    failure_of(last) matches Some(e) && !(step == 1 && already_owned(e))
}

/// The step that puts the first configuration the bucket has from position `from` on, or,
/// when there is none left, the lookup; and the step number to resume at.
pub open spec fn next_put(
    bucket: String,
    c: Seq<bool>,
    from: int,
    r: (BucketStep, usize),
) -> bool {
    let k = first_configured(c, from);
    if k < 18 {
        r.0 == (BucketStep::Put { config: config_at(k), bucket }) && r.1 == k + 2
    } else {
        r.0 == BucketStep::Lookup(bucket) && r.1 == 20
    }
}

/// The next step of the creation of the bucket `plan`, resumed at step number `step` with the
/// outcome `last` of the step before (for a lookup, whether it found the bucket).
///
/// A bucket without a name fails. Step 0 creates the bucket; a failure to create it fails,
/// unless the bucket is already owned by the caller. Then each configuration the bucket has is
/// put, in order, with the bucket's name written into it; the first that fails ends the
/// creation with its error. Last the bucket is looked up, and the creation fails when the
/// lookup does.
pub fn bucket_create_next(
    plan: &BucketPlan,
    step: usize,
    last: Option<Result<bool, ManagerError>>,
) -> (r: (BucketStep, usize))
    requires
        step <= 20,
    ensures
        plan.bucket is None ==> (r.0 matches BucketStep::Fail(ManagerError::CreateFail(m)) && m@
            == "bucket_name is not present"@),
        plan.bucket matches Some(b) ==> {
            &&& step == 0 ==> r.0 == BucketStep::CreateBucket(b) && r.1 == 1
            &&& 1 <= step < 20 && stops(step, last) ==> r.0 == BucketStep::Fail(failure_of(last)->0)
            &&& 1 <= step < 20 && !stops(step, last) ==> next_put(
                b,
                plan.configured@,
                if step == 1 {
                    0
                } else {
                    step - 1
                },
                r,
            )
            &&& step == 20 && last == Some(Ok::<bool, ManagerError>(true)) ==> r.0 is Done
            &&& step == 20 && failure_of(last) is Some ==> r.0 == BucketStep::Fail(failure_of(last)->0)
            &&& step == 20 && failure_of(last) is None && last != Some(Ok::<bool, ManagerError>(
                true,
            )) ==> (r.0 matches BucketStep::Fail(ManagerError::CreateFail(m)) && m@
                == "Could not retrieve recently created bucket"@)
        },
{
    let bucket = match &plan.bucket {
        Some(bucket) => bucket.clone(),
        None => {
            return (
                BucketStep::Fail(ManagerError::CreateFail("bucket_name is not present".to_string())),
                step,
            );
        },
    };
    if step == 0 {
        return (BucketStep::CreateBucket(bucket), 1);
    }
    if step == 20 {
        return match last {
            Some(Ok(true)) => (BucketStep::Done, 20),
            Some(Err(e)) => (BucketStep::Fail(e), 20),
            _ => (
                BucketStep::Fail(
                    ManagerError::CreateFail("Could not retrieve recently created bucket".to_string()),
                ),
                20,
            ),
        };
    }
    match last {
        Some(Err(e)) => {
            let tolerated = step == 1 && match &e {
                ManagerError::CreateFail(m) => text_contains(m.as_str(), "BucketAlreadyOwnedByYou"),
                _ => false,
            };
            if !tolerated {
                return (BucketStep::Fail(e), step);
            }
        },
        _ => {},
    }
    let from: usize = if step == 1 {
        0
    } else {
        step - 1
    };
    let mut k = from;
    while k < 18 && !plan.configured[k]
        invariant
            from <= k <= 18,
            first_configured(plan.configured@, from as int) == first_configured(
                plan.configured@,
                k as int,
            ),
        decreases 18 - k,
    {
        k = k + 1;
    }
    if k < 18 {
        (BucketStep::Put { config: config_of(k), bucket }, k + 2)
    } else {
        (BucketStep::Lookup(bucket), 20)
    }
}

} // verus!
