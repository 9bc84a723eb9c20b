//! Which object store a run uses.

use crate::text;
use crate::text::{ascii_lowercase, same_text};
use object_store::aws::AmazonS3Builder;
use vstd::prelude::*;

verus! {

/// The builder of S3 clients of `object_store`, taken as it is.
#[verifier::external_type_specification]
#[verifier::external_body]
pub struct ExAmazonS3Builder(object_store::aws::AmazonS3Builder);

/// The endpoint settings that a builder holds, by the names of their keys.
pub uninterp spec fn endpoint_settings(builder: AmazonS3Builder) -> Map<Seq<char>, Seq<char>>;

/// `AmazonS3Builder::get_config_value` for one of the two endpoint keys, which are
/// `aws_endpoint_url_s3` and `aws_endpoint`: the value that the builder holds, if it holds one.
#[verifier::external_body]
fn endpoint_setting(builder: &AmazonS3Builder, key: &str) -> (r: Option<String>)
    requires
        key@ == "aws_endpoint_url_s3"@ || key@ == "aws_endpoint"@,
    ensures
        r is Some <==> endpoint_settings(*builder).dom().contains(key@),
        r matches Some(value) ==> value@ == endpoint_settings(*builder)[key@],
{
    match key.parse::<object_store::aws::AmazonS3ConfigKey>() {
        Ok(key) => builder.get_config_value(&key),
        Err(_) => None,
    }
}

/// The endpoint among settings: the one for S3 where there is one, else the general one.
pub open spec fn chosen_endpoint(settings: Map<Seq<char>, Seq<char>>) -> Option<Seq<char>> {
    if settings.dom().contains("aws_endpoint_url_s3"@) {
        Some(settings["aws_endpoint_url_s3"@])
    } else if settings.dom().contains("aws_endpoint"@) {
        Some(settings["aws_endpoint"@])
    } else {
        None
    }
}

/// Chooses between the endpoint for S3 and the general one.
pub fn prefer_specific(specific: Option<String>, general: Option<String>) -> (r: Option<String>)
    ensures
        r == (if specific is Some {
            specific
        } else {
            general
        }),
{
    match specific {
        Some(endpoint) => Some(endpoint),
        None => general,
    }
}

/// Returns the endpoint that a builder is set to, without a default.
pub fn configured_s3_endpoint(builder: &AmazonS3Builder) -> (r: Option<String>)
    ensures
        r is Some <==> chosen_endpoint(endpoint_settings(*builder)) is Some,
        r matches Some(endpoint) ==> Some(endpoint@) == chosen_endpoint(
            endpoint_settings(*builder),
        ),
{
    prefer_specific(
        endpoint_setting(builder, "aws_endpoint_url_s3"),
        endpoint_setting(builder, "aws_endpoint"),
    )
}

/// The environment that decides which store is used.
pub struct StoreEnvironment {
    pub provider: Option<String>,
    pub benchmark_bucket: Option<String>,
    pub aws_bucket: Option<String>,
    pub local_path: Option<String>,
    pub prefix: Option<String>,
    pub benchmark_region: Option<String>,
    pub aws_region: Option<String>,
}

/// The store that is used.
#[derive(Debug)]
pub enum StoreKind {
    /// An S3-compatible service, with the bucket.
    Aws(String),
    /// The memory of the process.
    Memory,
    /// A directory.
    Local(String),
}

/// The store, its root and its region.
#[derive(Debug)]
pub struct StorePlan {
    pub kind: StoreKind,
    /// The provider as it was given.
    pub provider: String,
    pub prefix: String,
    pub region: String,
}

/// Why no store can be used.
#[derive(Debug, Clone, Copy, PartialEq, Eq, Structural)]
pub enum StoreFault {
    BucketRequired,
    LocalPathRequired,
    UnsupportedProvider,
}

/// A text that may be given in two places, or a default.
pub open spec fn either_or(first: Option<String>, second: Option<String>, default: Seq<char>) -> Seq<
    char,
> {
    if first is Some {
        first->0@
    } else if second is Some {
        second->0@
    } else {
        default
    }
}

/// The provider that an environment asks for.
pub open spec fn provider_of(environment: StoreEnvironment) -> Seq<char> {
    either_or(environment.provider, None, "aws"@)
}

/// What keeps an environment from naming a store.
pub open spec fn store_fault(environment: StoreEnvironment) -> Option<StoreFault> {
    let provider = text::lower_text(provider_of(environment));
    if provider == "aws"@ {
        if environment.benchmark_bucket is None && environment.aws_bucket is None {
            Some(StoreFault::BucketRequired)
        } else {
            None
        }
    } else if provider == "memory"@ {
        None
    } else if provider == "local"@ {
        if environment.local_path is None {
            Some(StoreFault::LocalPathRequired)
        } else {
            None
        }
    } else {
        Some(StoreFault::UnsupportedProvider)
    }
}

/// Whether a plan is the one that an environment asks for.
pub open spec fn planned(plan: StorePlan, environment: StoreEnvironment) -> bool {
    let provider = text::lower_text(provider_of(environment));
    &&& plan.provider@ == provider_of(environment)
    &&& plan.prefix@ == either_or(environment.prefix, None, "manual"@)
    &&& plan.region@ == either_or(
        environment.benchmark_region,
        environment.aws_region,
        "us-east-1"@,
    )
    &&& match plan.kind {
        StoreKind::Aws(bucket) => provider == "aws"@ && bucket@ == either_or(
            environment.benchmark_bucket,
            environment.aws_bucket,
            Seq::empty(),
        ),
        StoreKind::Memory => provider == "memory"@,
        StoreKind::Local(path) => provider == "local"@ && environment.local_path is Some && path@
            == environment.local_path->0@,
    }
}

fn pick(first: Option<String>, second: Option<String>, default: &str) -> (r: String)
    ensures
        r@ == either_or(first, second, default@),
{
    match first {
        Some(value) => value,
        None => match second {
            Some(value) => value,
            None => default.to_string(),
        },
    }
}

/// Decides which store an environment asks for.
pub fn plan_store(environment: StoreEnvironment) -> (r: Result<StorePlan, StoreFault>)
    ensures
        store_fault(environment) matches Some(fault) ==> r == Err::<StorePlan, StoreFault>(fault),
        store_fault(environment) is None ==> r is Ok && planned(r->Ok_0, environment),
{
    let provider = pick(environment.provider, None, "aws");
    let lowered = ascii_lowercase(provider.as_str());
    let kind = if same_text(lowered.as_str(), "aws") {
        match prefer_specific(environment.benchmark_bucket, environment.aws_bucket) {
            Some(bucket) => StoreKind::Aws(bucket),
            None => {
                return Err(StoreFault::BucketRequired);
            },
        }
    } else if same_text(lowered.as_str(), "memory") {
        StoreKind::Memory
    } else if same_text(lowered.as_str(), "local") {
        match environment.local_path {
            Some(path) => StoreKind::Local(path),
            None => {
                return Err(StoreFault::LocalPathRequired);
            },
        }
    } else {
        return Err(StoreFault::UnsupportedProvider);
    };
    let prefix = pick(environment.prefix, None, "manual");
    let region = pick(environment.benchmark_region, environment.aws_region, "us-east-1");
    Ok(StorePlan { kind, provider, prefix, region })
}

/// Names the endpoint of a store.
pub fn endpoint_name(kind: &StoreKind, configured: Option<String>) -> (r: String)
    ensures
        r@ == (match kind {
            StoreKind::Aws(_) => either_or(configured, None, "AWS default"@),
            StoreKind::Memory => "memory"@,
            StoreKind::Local(path) => path@,
        }),
{
    match kind {
        StoreKind::Aws(_) => pick(configured, None, "AWS default"),
        StoreKind::Memory => "memory".to_string(),
        StoreKind::Local(path) => path.clone(),
    }
}

/// A store is planned exactly where its provider is known and has what it needs: a bucket for
/// Amazon's, a path for a local one, nothing for memory.
pub proof fn stores_have_what_they_need(e: StoreEnvironment)
    ensures
        ({
            let provider = text::lower_text(
                match e.provider {
                    Some(given) => given@,
                    None => "aws"@,
                },
            );
            store_fault(e) is None <==> {
                ||| provider == "aws"@ && (e.benchmark_bucket is Some || e.aws_bucket is Some)
                ||| provider == "memory"@
                ||| provider == "local"@ && e.local_path is Some
            }
        }),
{
    reveal_strlit("aws");
    reveal_strlit("memory");
    reveal_strlit("local");
    assert("aws"@.len() == 3 && "memory"@.len() == 6 && "local"@.len() == 5);
}

/// A plan takes the benchmark's own settings before the provider's, and a default where neither is
/// given.
pub proof fn plans_prefer_the_benchmarks_settings(plan: StorePlan, e: StoreEnvironment)
    requires
        planned(plan, e),
    ensures
        e.prefix matches Some(prefix) ==> plan.prefix@ == prefix@,
        e.prefix is None ==> plan.prefix@ == "manual"@,
        e.benchmark_region matches Some(region) ==> plan.region@ == region@,
        e.benchmark_region is None && e.aws_region is Some ==> plan.region@ == e.aws_region->0@,
        e.benchmark_region is None && e.aws_region is None ==> plan.region@ == "us-east-1"@,
        plan.kind matches StoreKind::Aws(bucket) ==> {
            &&& e.benchmark_bucket is Some ==> bucket@ == e.benchmark_bucket->0@
            &&& e.benchmark_bucket is None && e.aws_bucket is Some ==> bucket@ == e.aws_bucket->0@
        },
        plan.kind matches StoreKind::Local(path) ==> e.local_path is Some && path@
            == e.local_path->0@,
{
}

/// The endpoint of the store itself comes before the provider's.
pub proof fn endpoints_prefer_the_store(settings: Map<Seq<char>, Seq<char>>)
    ensures
        settings.dom().contains("aws_endpoint_url_s3"@) ==> chosen_endpoint(settings) == Some(
            settings["aws_endpoint_url_s3"@],
        ),
        !settings.dom().contains("aws_endpoint_url_s3"@) && settings.dom().contains(
            "aws_endpoint"@,
        ) ==> chosen_endpoint(settings) == Some(settings["aws_endpoint"@]),
        chosen_endpoint(settings) is None <==> !settings.dom().contains("aws_endpoint_url_s3"@)
            && !settings.dom().contains("aws_endpoint"@),
{
}

} // verus!
