//! Typed errors of a deployment run.
//!
//! Every failure the orchestrator can decide on is a returned value, never a
//! process abort, so a caller can always still write the partial report and
//! release the transient credential profile.

use vstd::prelude::*;

use crate::network::AptosNetwork;

verus! {

/// A required configuration field that a partial configuration may lack.
#[derive(Clone, Copy, Debug, PartialEq, Eq, Structural)]
pub enum ConfigField {
    ModuleType,
    ModulesPath,
    AddressesName,
    Network,
    Yes,
    OutputJson,
    DeployedAddresses,
    PublishCode,
}

/// Everything that can end a run early.
#[derive(Clone, Debug, PartialEq, Eq)]
pub enum DeployError {
    /// A required field was absent when the partial configuration was
    /// completed. Fatal before any network activity.
    MissingField(ConfigField),
    /// The ordered package list and the address-name list differ in length.
    /// Fatal before any network activity.
    LengthMismatch { modules: usize, names: usize },
    /// Two packages were given the same address name. Fatal before any
    /// network activity.
    DuplicateAddressName(String),
    /// The sender key was expected to be present (after provisioning) but
    /// was not.
    MissingPrivateKey,
    /// The network has no default REST endpoint and none was supplied.
    MissingRestUrl(AptosNetwork),
    /// The network has no default faucet endpoint and none was supplied.
    MissingFaucetUrl(AptosNetwork),
    /// A package's manifest does not declare the address name assigned to
    /// that package.
    AddressNameNotInManifest { address_name: String, module_location: String },
    /// A package references an address name that is neither resolved yet
    /// nor its own self-binding: `missing` must be deployed before
    /// `dependent`.
    DependencyOrder { missing: String, dependent: String },
    /// The publish payload exceeded the network's size limit (in bytes) and
    /// no chunked retry was or could be made.
    PackageSizeExceeded { limit: u64, size: u64 },
    /// The package was too large and the target network does not support
    /// chunked publishing.
    ChunkedPublishUnsupported(AptosNetwork),
    /// Any other failure reported by the underlying chain tool.
    Publish(String),
    /// The deployment report could not be persisted. Surfaced only when the
    /// deployment itself succeeded.
    ReportWrite(String),
}

/// Decides what a finished run reports, given the deployment outcome and the
/// outcome of writing the report: a deployment error is never masked by a
/// later report-write failure, but a report-write failure is itself reported
/// when deployment otherwise succeeded.
pub fn select_run_error(
    deploy: Result<(), DeployError>,
    report_write: Result<(), DeployError>,
) -> (r: Result<(), DeployError>)
    ensures
        deploy is Err ==> r == deploy,
        deploy is Ok ==> r == report_write,
{
    match deploy {
        Err(e) => Err(e),
        Ok(()) => report_write,
    }
}

} // verus!
