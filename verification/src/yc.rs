//! The cloud deployment's settings and rules: validated resource sizes,
//! how a resource-tool failure is classified from its diagnostic text,
//! and what an idempotent "ensure this resource exists" step does next.
//! Invoking the cloud tooling happens outside the library.

use vstd::prelude::*;

use crate::text::{contains_sub, dec_digits, match_at, render_u64};

verus! {

/// Settings of one whole deployment.
pub struct YcConfig {
    pub yc_folder_name: String,
    pub service_account: ServiceAccount,
    pub bucket: BucketConfig,
    pub container_registry: ContainerRegistryConfig,
    pub serverless: ServerlessConfig,
}

/// The service account the deployment runs as.
pub struct ServiceAccount {
    pub name: String,
    pub create_if_not_exists: bool,
}

/// The storage bucket holding the files.
pub struct BucketConfig {
    pub name: String,
    pub max_size: u64,
    pub create_if_not_exists: bool,
}

/// The registry holding the container images.
pub struct ContainerRegistryConfig {
    pub name: String,
    pub create_if_not_exists: bool,
}

/// The three deployed services.
pub struct ServerlessConfig {
    pub voice_file_upload: ServerlessServiceSettings,
    pub voice_waveform_gen: ServerlessServiceSettings,
    pub voice_analyzer: ServerlessServiceSettings,
}

/// How one service is sized.
pub struct ServerlessServiceSettings {
    pub name: String,
    pub vcpu: VCpu,
    pub min_ram: MinRam,
    pub concurrency: Concurrency,
    pub cores: Cores,
}

/// The processor share of a single core a service may use.
#[derive(Clone, Copy, Debug, PartialEq, Eq, Structural)]
pub enum VCpu {
    Share5,
    Share20,
    Share50,
    Share100,
}

impl VCpu {
    /// The share as a whole percentage.
    pub fn as_percent_int(&self) -> (r: u32)
        ensures
            r == match *self {
                VCpu::Share5 => 5u32,
                VCpu::Share20 => 20u32,
                VCpu::Share50 => 50u32,
                VCpu::Share100 => 100u32,
            },
    {
        match self {
            VCpu::Share5 => 5,
            VCpu::Share20 => 20,
            VCpu::Share50 => 50,
            VCpu::Share100 => 100,
        }
    }

    /// The default share.
    pub fn default_share() -> (r: VCpu)
        ensures
            r == VCpu::Share20,
    {
        VCpu::Share20
    }
}

/// A service's memory floor, in megabytes, between 128 and 4096.
#[derive(Clone, Copy, Debug, PartialEq, Eq, Structural)]
pub struct MinRam(pub u16);

impl MinRam {
    /// Accept a memory floor exactly when it lies between 128 and 4096
    /// megabytes.
    pub fn new(x: u16) -> (r: Result<MinRam, &'static str>)
        ensures
            r is Ok <==> (128 <= x <= 4096),
            r matches Ok(m) ==> m.0 == x,
    {
        if x < 128 || x > 4096 {
            Err("MinRam must be between 128 and 4096")
        } else {
            Ok(MinRam(x))
        }
    }

    /// The floor rounded down to the 128-megabyte step the deployment
    /// target accepts.
    pub fn aligned(&self) -> (r: u16)
        ensures
            r == (self.0 / 128) * 128,
    {
        (self.0 / 128) * 128
    }
}

impl Default for MinRam {
    /// Half a gigabyte.
    fn default() -> (r: MinRam)
        ensures
            r.0 == 512,
    {
        MinRam(512)
    }
}

/// How many requests one service instance handles at once, between 1 and
/// 16.
#[derive(Clone, Copy, Debug, PartialEq, Eq, Structural)]
pub struct Concurrency(pub u8);

impl Concurrency {
    /// Accept a concurrency exactly when it lies between 1 and 16.
    pub fn new(x: u8) -> (r: Result<Concurrency, &'static str>)
        ensures
            r is Ok <==> (1 <= x <= 16),
            r matches Ok(c) ==> c.0 == x,
    {
        if x < 1 || x > 16 {
            Err("Concurrency must be between 1 and 16")
        } else {
            Ok(Concurrency(x))
        }
    }
}

impl Default for Concurrency {
    fn default() -> (r: Concurrency)
        ensures
            r.0 == 4,
    {
        Concurrency(4)
    }
}

/// How many cores one service instance gets.
#[derive(Clone, Copy, Debug, PartialEq, Eq, Structural)]
pub struct Cores(pub u8);

impl Default for Cores {
    fn default() -> (r: Cores)
        ensures
            r.0 == 1,
    {
        Cores(1)
    }
}

/// The share passed to a deployment: several cores force the full share,
/// a single core passes the configured one, rendered as decimal digits.
pub fn core_fraction(cores: Cores, vcpu: VCpu) -> (r: String)
    ensures
        r@ == (if cores.0 > 1 {
            "100"@
        } else {
            dec_digits((match vcpu {
                VCpu::Share5 => 5u32,
                VCpu::Share20 => 20u32,
                VCpu::Share50 => 50u32,
                VCpu::Share100 => 100u32,
            }) as nat)
        }),
{
    if cores.0 > 1 {
        String::from_str("100")
    } else {
        proof {
            reveal_strlit("100");
        }
        render_u64(vcpu.as_percent_int() as u64)
    }
}

/// What kind of failure the resource tool reported.
#[derive(Clone, Copy, Debug, PartialEq, Eq, Structural)]
pub enum YcErrorKind {
    ResourceMissing,
    ResourceAlreadyExists,
    Unspecified,
}

/// A failure of the resource tool: its kind, and its diagnostic text.
pub struct YcError {
    pub kind: YcErrorKind,
    pub message: String,
}

impl YcError {
    /// A failure of no particular kind.
    pub fn unspecified(message: String) -> (r: YcError)
        ensures
            r.kind == YcErrorKind::Unspecified,
            r.message@ == message@,
    {
        YcError { kind: YcErrorKind::Unspecified, message }
    }
}

/// Classify the resource tool's diagnostic text: mention of an existing
/// resource, of a missing one, or neither.
pub fn classify_yc_stderr(stderr: &str) -> (r: YcErrorKind)
    ensures
        r == (if exists|j: int| match_at(stderr@, "already exists"@, j) {
            YcErrorKind::ResourceAlreadyExists
        } else if (exists|j: int| match_at(stderr@, "not found"@, j)) || (exists|j: int|
            match_at(stderr@, "NotFound"@, j)) {
            YcErrorKind::ResourceMissing
        } else {
            YcErrorKind::Unspecified
        }),
{
    if contains_sub(stderr, "already exists") {
        YcErrorKind::ResourceAlreadyExists
    } else if contains_sub(stderr, "not found") || contains_sub(stderr, "NotFound") {
        YcErrorKind::ResourceMissing
    } else {
        YcErrorKind::Unspecified
    }
}

/// What an "ensure this resource exists" step does after asking for the
/// resource: use what is there, create what is missing (when creation is
/// allowed), or give up.
#[derive(Clone, Copy, Debug, PartialEq, Eq, Structural)]
pub enum ResourceEnsureAction {
    UseExisting,
    Create,
    Fail,
}

/// Decide the next step from the lookup's outcome: a found resource is
/// used; a missing one is created exactly when the settings allow it;
/// anything else fails.
pub fn ensure_resource_action(
    lookup_failure: Option<&YcErrorKind>,
    create_if_not_exists: bool,
) -> (r: ResourceEnsureAction)
    ensures
        lookup_failure is None ==> r == ResourceEnsureAction::UseExisting,
        (lookup_failure matches Some(k) && *k == YcErrorKind::ResourceMissing
            && create_if_not_exists) ==> r == ResourceEnsureAction::Create,
        (lookup_failure matches Some(k) && (*k != YcErrorKind::ResourceMissing
            || !create_if_not_exists)) ==> r == ResourceEnsureAction::Fail,
{
    match lookup_failure {
        None => ResourceEnsureAction::UseExisting,
        Some(k) => {
            match k {
                YcErrorKind::ResourceMissing => {
                    if create_if_not_exists {
                        ResourceEnsureAction::Create
                    } else {
                        ResourceEnsureAction::Fail
                    }
                },
                _ => ResourceEnsureAction::Fail,
            }
        },
    }
}

/// A deployment target, checked against its folder at creation time by
/// the shell around the library.
pub struct Yc(pub YcConfig);

/// The storage credentials a deployment hands its services.
pub struct AwsSecrets {
    pub id: String,
    pub secret: String,
}

} // verus!
