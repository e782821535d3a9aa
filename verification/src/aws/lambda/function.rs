//! Lambda functions, their configuration and code.

use std::collections::HashMap;
use crate::aws::iam::role::{role_arn_of, RoleInput, RoleOutput};
use crate::aws::ArnProvider;
use crate::json::views;
use crate::resource::{output_missing, Binding, ResourceError, SharedResource};
use vstd::prelude::*;

verus! {

#[derive(Debug, Clone, Default)]
pub struct SerializableFunctionOutput {
    pub configuration: Option<SerializableFunctionConfiguration>,
    pub code: Option<SerializableFunctionCodeLocation>,
    pub tags: Option<HashMap<String, String>>,
    pub concurrency: Option<SerializableConcurrency>,
}

#[derive(Debug, Clone, Default)]
pub struct SerializableConcurrency {
    pub reserved_concurrent_executions: Option<i32>,
}

#[derive(Debug, Clone, Default)]
pub struct SerializableFunctionCodeLocation {
    pub repository_type: Option<String>,
    pub location: Option<String>,
    pub image_uri: Option<String>,
    pub resolved_image_uri: Option<String>,
}

#[derive(Debug, Clone, Default)]
pub struct SerializableFunctionConfiguration {
    pub function_name: Option<String>,
    pub function_arn: Option<String>,
    pub runtime: Option<SerializableRuntime>,
    pub role: Option<String>,
    pub handler: Option<String>,
    pub code_size: i64,
    pub description: Option<String>,
    pub timeout: Option<i32>,
    pub memory_size: Option<i32>,
    pub last_modified: Option<String>,
    pub code_sha256: Option<String>,
    pub version: Option<String>,
    pub vpc_config: Option<SerializableVpcConfig>,
    pub dead_letter_config: Option<SerializableDeadLetterConfig>,
    pub environment: Option<SerializableEnvironment>,
    pub kms_key_arn: Option<String>,
    pub tracing_config: Option<SerializableTracingConfig>,
    pub master_arn: Option<String>,
    pub revision_id: Option<String>,
    pub layers: Option<Vec<SerializableLayer>>,
    pub state: Option<SerializableState>,
    pub state_reason: Option<String>,
    pub state_reason_code: Option<SerializableStateReasonCode>,
    pub last_update_status: Option<SerializableLastUpdateStatus>,
    pub last_update_status_reason: Option<String>,
    pub last_update_status_reason_code: Option<SerializableLastUpdateStatusReasonCode>,
    pub file_system_configs: Option<Vec<SerializableFileSystemConfig>>,
    pub package_type: Option<SerializablePackageType>,
    pub image_config: Option<SerializableImageConfig>,
    pub signing_profile_version_arn: Option<String>,
    pub signing_job_arn: Option<String>,
    pub architectures: Option<Vec<SerializableArchitecture>>,
    pub ephemeral_storage: Option<SerializableEphemeralStorage>,
    pub snap_start: Option<SerializableSnapStart>,
    pub runtime_version_config: Option<SerializableRuntimeVersionConfig>,
    pub logging_config: Option<SerializableLoggingConfig>,
}

#[derive(Debug, Clone, Default)]
pub struct SerializableRuntimeVersionConfig {
    pub runtime_version_arn: Option<String>,
    pub error: Option<SerializableRuntimeVersionError>,
}

#[derive(Debug, Clone, Default)]
pub struct SerializableRuntimeVersionError {
    pub error_code: Option<String>,
    pub message: Option<String>,
}

#[derive(Debug, Clone, Default)]
pub enum SerializableLastUpdateStatusReasonCode {
    #[default]
    DisabledKmsKey,
    EfsioError,
    EfsMountConnectivityError,
    EfsMountFailure,
    EfsMountTimeout,
    EniLimitExceeded,
    FunctionError,
    ImageAccessDenied,
    ImageDeleted,
    InsufficientRolePermissions,
    InternalError,
    InvalidConfiguration,
    InvalidImage,
    InvalidRuntime,
    InvalidSecurityGroup,
    InvalidStateKmsKey,
    InvalidSubnet,
    InvalidZipFileException,
    KmsKeyAccessDenied,
    KmsKeyNotFound,
    SubnetOutOfIpAddresses,
    Unknown,
}

#[derive(Debug, Clone, Default)]
pub enum SerializableLastUpdateStatus {
    Failed,
    #[default]
    InProgress,
    Successful,
    Unknown,
}

#[derive(Debug, Clone, Default)]
pub enum SerializableStateReasonCode {
    Creating,
    DisabledKmsKey,
    EfsioError,
    EfsMountConnectivityError,
    EfsMountFailure,
    EfsMountTimeout,
    EniLimitExceeded,
    FunctionError,
    #[default]
    Idle,
    ImageAccessDenied,
    ImageDeleted,
    InsufficientRolePermissions,
    InternalError,
    InvalidConfiguration,
    InvalidImage,
    InvalidRuntime,
    InvalidSecurityGroup,
    InvalidStateKmsKey,
    InvalidSubnet,
    InvalidZipFileException,
    KmsKeyAccessDenied,
    KmsKeyNotFound,
    Restoring,
    SubnetOutOfIpAddresses,
    Unknown,
}

#[derive(Debug, Clone, Default)]
pub enum SerializableState {
    Active,
    Failed,
    Inactive,
    #[default]
    Pending,
    Unknown,
}

#[derive(Debug, Clone, Default)]
pub struct SerializableLayer {
    pub arn: Option<String>,
    pub code_size: i64,
    pub signing_profile_version_arn: Option<String>,
    pub signing_job_arn: Option<String>,
}

#[derive(Debug, Clone, Default)]
pub struct SerializableCreateFunctionInput {
    pub function_name: Option<String>,
    pub runtime: Option<SerializableRuntime>,
    pub role: Option<String>,
    pub handler: Option<String>,
    pub code: Option<SerializableFunctionCode>,
    pub description: Option<String>,
    pub timeout: Option<i32>,
    pub memory_size: Option<i32>,
    pub publish: Option<bool>,
    pub vpc_config: Option<SerializableVpcConfig>,
    pub package_type: Option<SerializablePackageType>,
    pub dead_letter_config: Option<SerializableDeadLetterConfig>,
    pub environment: Option<SerializableEnvironment>,
    pub kms_key_arn: Option<String>,
    pub tracing_config: Option<SerializableTracingConfig>,
    pub tags: Option<HashMap<String, String>>,
    pub layers: Option<Vec<String>>,
    pub file_system_configs: Option<Vec<SerializableFileSystemConfig>>,
    pub image_config: Option<SerializableImageConfig>,
    pub code_signing_config_arn: Option<String>,
    pub architectures: Option<Vec<SerializableArchitecture>>,
    pub ephemeral_storage: Option<SerializableEphemeralStorage>,
    pub snap_start: Option<SerializableSnapStart>,
    pub logging_config: Option<SerializableLoggingConfig>,
}

#[derive(Debug, Clone, Default)]
pub struct SerializableLoggingConfig {
    pub log_format: Option<SerializableLogFormat>,
    pub application_log_level: Option<SerializableApplicationLogLevel>,
    pub system_log_level: Option<SerializableSystemLogLevel>,
    pub log_group: Option<String>,
}

#[derive(Debug, Clone, Default)]
pub enum SerializableSystemLogLevel {
    Debug,
    #[default]
    Info,
    Warn,
    Unknown,
}

#[derive(Debug, Clone, Default)]
pub enum SerializableApplicationLogLevel {
    Debug,
    #[default]
    Error,
    Fatal,
    Info,
    Trace,
    Warn,
    Unknown,
}

#[derive(Debug, Clone, Default)]
pub enum SerializableLogFormat {
    #[default]
    Json,
    Text,
    Unknown,
}

#[derive(Debug, Clone, Default)]
pub struct SerializableSnapStart {
    pub apply_on: Option<SerializableSnapStartApplyOn>,
}

#[derive(Debug, Clone, Default)]
pub enum SerializableSnapStartApplyOn {
    #[default]
    NoVersions,
    PublishedVersions,
    Unknown,
}

#[derive(Debug, Clone, Default)]
pub struct SerializableEphemeralStorage {
    pub size: i32,
}

#[derive(Debug, Clone, Default)]
pub enum SerializableArchitecture {
    Arm64,
    #[default]
    X8664,
    Unknown,
}

#[derive(Debug, Clone, Default)]
pub struct SerializableImageConfig {
    pub entry_point: Option<Vec<String>>,
    pub command: Option<Vec<String>>,
    pub working_directory: Option<String>,
}

#[derive(Debug, Clone, Default)]
pub struct SerializableFileSystemConfig {
    pub arn: String,
    pub local_mount_path: String,
}

#[derive(Debug, Clone, Default)]
pub struct SerializableTracingConfig {
    pub mode: Option<SerializableTracingMode>,
}

#[derive(Debug, Clone, Default)]
pub enum SerializableTracingMode {
    #[default]
    Active,
    PassThrough,
    Unknown,
}

#[derive(Debug, Clone, Default)]
pub struct SerializableEnvironment {
    pub variables: Option<HashMap<String, String>>,
}

#[derive(Debug, Clone, Default)]
pub struct SerializableDeadLetterConfig {
    pub target_arn: Option<String>,
}

#[derive(Debug, Clone, Default)]
pub enum SerializablePackageType {
    Image,
    #[default]
    Zip,
    Unknown,
}

#[derive(Debug, Clone, Default)]
pub struct SerializableVpcConfig {
    pub subnet_ids: Option<Vec<String>>,
    pub security_group_ids: Option<Vec<String>>,
    pub ipv6_allowed_for_dual_stack: Option<bool>,
}

#[derive(Debug, Clone, Default)]
pub struct SerializableFunctionCode {
    pub zip_file: Option<Vec<u8>>,
    pub s3_bucket: Option<String>,
    pub s3_key: Option<String>,
    pub s3_object_version: Option<String>,
    pub image_uri: Option<String>,
}

#[derive(Debug, Clone, Default)]
pub enum SerializableRuntime {
    Dotnet6,
    Dotnet8,
    Dotnetcore10,
    Dotnetcore20,
    Dotnetcore21,
    Dotnetcore31,
    Go1x,
    Java11,
    Java17,
    Java21,
    Java8,
    Java8al2,
    Nodejs,
    Nodejs10x,
    Nodejs12x,
    Nodejs14x,
    Nodejs16x,
    Nodejs18x,
    Nodejs20x,
    Nodejs43,
    Nodejs43edge,
    Nodejs610,
    Nodejs810,
    #[default]
    Provided,
    Providedal2,
    Providedal2023,
    Python27,
    Python310,
    Python311,
    Python312,
    Python36,
    Python37,
    Python38,
    Python39,
    Ruby25,
    Ruby27,
    Ruby32,
    Ruby33,
    Unknown,
}

pub type FunctionInput = SerializableCreateFunctionInput;
pub type FunctionOutput = SerializableFunctionOutput;

impl ArnProvider for SerializableFunctionOutput {
    open spec fn arns_told(&self) -> Option<Seq<Seq<char>>> {
        match self.configuration {
            Some(config) => match config.function_arn {
                Some(arn) => Some(seq![arn@]),
                None => None,
            },
            None => None,
        }
    }

    /// The ARN of the function, when its configuration tells it.
    fn arn(&self) -> (r: Option<Vec<String>>)
        ensures
            match self.configuration {
                Some(config) => match config.function_arn {
                    Some(arn) => r matches Some(v) && v@.len() == 1 && v@[0] == arn,
                    None => r is None,
                },
                None => r is None,
            },
    {
        let r = {
            match &self.configuration {
                Some(config) => match &config.function_arn {
                    Some(arn) => Some(vec![arn.clone()]),
                    None => None,
                },
                None => None,
            }
        };
        proof {
            if r is Some {
                assert(views(r->0@) =~= self.arns_told()->0);
            }
        }
        r
    }
}

/// A function named nothing is named after its resource id.
pub fn input_hook(id: &str, input: &mut FunctionInput)
    ensures
        old(input).function_name is None ==> (final(input).function_name matches Some(name)
            && name@ == id@),
        old(input).function_name is Some ==> final(input).function_name == old(
            input,
        ).function_name,
        *final(input) == (FunctionInput { function_name: final(input).function_name, ..*old(input) }),
{
    if input.function_name.is_none() {
        input.function_name = Some(id.to_string());
    }
}

/// The function runs under the role: its role is the role's ARN.
pub fn copy_role_arn(input: &mut FunctionInput, role: &RoleOutput)
    ensures
        *final(input) == (FunctionInput { role: Some(role.arn), ..*old(input) }),
{
    input.role = Some(role.arn.clone());
}

/// Binds a function to the role it runs under (see `copy_role_arn`).
pub struct FunctionRoleBinding {
    pub role: SharedResource<RoleInput, RoleOutput>,
}

/// The input `before` with what the binding takes from the dependency's output `o`.
pub open spec fn with_role_arn(before: FunctionInput, o: RoleOutput) -> FunctionInput {
    FunctionInput { role: Some(o.arn), ..before }
}

impl Binding<FunctionInput> for FunctionRoleBinding {
    open spec fn binds(&self, before: FunctionInput, after: FunctionInput, r: Result<(), ResourceError>) -> bool {
        ||| r is Ok && exists|o: RoleOutput|
            after == #[trigger] with_role_arn(before, o) && self.role.can_output(o)
        ||| output_missing(r) && after == before
    }

    /// Only `role` of the input may change; when the dependency has no output yet, nothing does.
    fn apply(&self, input: &mut FunctionInput) -> (r: Result<(), ResourceError>)
        ensures
            *final(input) == (FunctionInput { role: final(input).role, ..*old(input) }),
            r is Err ==> *final(input) == *old(input) && r matches Err(
                ResourceError::DependencyOutputIsMissing(_),
            ),
    {
        match self.role.read_output(role_arn_of) {
            Ok(value) => {
                input.role = Some(value);
                proof {
                    let o = choose|o: RoleOutput|
                        #![trigger self.role.can_output(o)]
                        o.arn == value && self.role.can_output(o);
                    assert(*input == with_role_arn(*old(input), o));
                }
                Ok(())
            },
            Err(err) => Err(err),
        }
    }
}

} // verus!
