# rscloud

Infrastructure as code: a program declares cloud resources (roles, policies, Lambda
functions, subnets, schedules ...), binds each to the resources whose outputs it needs, and
`apply` brings the cloud in line with that plan, while `destroy` removes everything that was
created. A datastore records what was created, so that a later run updates, keeps or deletes it.

The library (`src/`) is verified with Verus:

- `plan` — the plan of resources, their dependency graph (built with `daggy`, sorted with
  `petgraph`) and the laws of its order;
- `run` — one run of a plan against the datastore, as a state machine: it decides every step
  (read a stored resource, delete one, make one present) and its caller performs it; its
  contracts state each step (what every outcome does to the datastore, which bytes each action
  carries, when and with which error the run ends); that, when no two resources share an id,
  every deletion comes after those of the resources depending on it, and creations come
  dependencies first; that no deletion follows a creation; and, when a run ends well and every
  stored resource read back under its own id, that the datastore holds exactly what was wanted
  and everything else recorded at the start was deleted;
- `resource`, `manager` — a resource, its bindings to its dependencies, and what the manager
  of its kind is asked to do;
- `datastore`, `registry` — the store of created resources and the registry of the types it
  can read back;
- `json` — the JSON documents the library writes (policies, trust policies, the input of a
  Step Functions execution), built as values and written with `serde_json`;
- `aws` — the AWS records of each kind, the decisions of creating an S3 bucket and of syncing
  a VPC, the planning of Rust functions on Lambda and of the subnets of a VPC, the attachment
  of policies to users, the names of the kinds, ARNs, and the bindings between kinds (such as
  the CIDR block of a subnet carved out of its VPC's, with `ipnet`).

A resource is shared between the plan and every resource bound to it, behind a lock: the
contracts state what never changes (its id, name, type and manager) and what it was created
with, but not what a later read of its state, input or output returns, which depends on what
every other holder did in between. The ordering laws hold when no two resources share an id.

`app/` is the program around it: the command line, the file the datastore is saved in, and
the AWS SDK calls for IAM roles, policies, groups and users, Lambda functions and Step
Functions state machines. The other kinds (API Gateway, EventBridge Scheduler, EC2, S3, and
the attachment of policies to groups and users) have records and bindings in the library but
no manager in the program: their stored resources are refused as not supported. The S3
bucket and object records are not modelled, so a bucket has no access policy helper.
