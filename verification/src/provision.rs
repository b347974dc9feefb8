//! Establishing the sender identity for a run, resolving network endpoints,
//! and the lifetime of the transient credential profile.

use vstd::prelude::*;
use vstd::string::StringExecFns;

use crate::deploy_config::DeployConfig;
use crate::errors::DeployError;
use crate::network::AptosNetwork;

verus! {

/// The endpoint a run uses: an explicit override takes precedence over the
/// network's default; absence of both is a fatal configuration error.
pub open spec fn resolved_endpoint(
    override_url: Option<String>,
    default_url: Option<Seq<char>>,
) -> Option<Seq<char>> {
    match override_url {
        Some(u) => Some(u@),
        None => default_url,
    }
}

/// How provisioning starts, decided from the configuration alone.
#[derive(Clone, Copy, Debug, PartialEq, Eq, Structural)]
pub enum ProvisionAction {
    /// A key was supplied: decode it and derive the sender address, with no
    /// network call.
    UseSuppliedKey,
    /// No key and the non-interactive flag is unset: ask the operator for an
    /// explicit confirmation before generating one.
    AskConfirmation,
    /// No key and the non-interactive flag is set: generate a keypair and
    /// fund it right away.
    GenerateAndFund,
}

/// What the run does after the key-generation prompt was answered.
#[derive(Clone, Copy, Debug, PartialEq, Eq, Structural)]
pub enum ProvisionDecision {
    /// Proceed to generating and funding a fresh keypair.
    Proceed,
    /// End the whole run successfully, with no deployments, no report
    /// entries and no faucet call: a no-op exit, not an error.
    ExitCleanly,
}

/// Decides how the sender identity is established.
pub fn initial_provision_action(private_key: &Option<String>, assume_yes: bool) -> (r:
    ProvisionAction)
    ensures
        private_key is Some <==> r is UseSuppliedKey,
        (private_key is None && assume_yes) <==> r is GenerateAndFund,
        (private_key is None && !assume_yes) <==> r is AskConfirmation,
{
    match private_key {
        Some(_) => ProvisionAction::UseSuppliedKey,
        None => {
            if assume_yes {
                ProvisionAction::GenerateAndFund
            } else {
                ProvisionAction::AskConfirmation
            }
        },
    }
}

/// Decides what a declined or confirmed key-generation prompt means for the
/// run: declining is a clean exit, never an error.
pub fn confirmation_decision(accepted: bool) -> (r: ProvisionDecision)
    ensures
        accepted <==> r is Proceed,
        !accepted <==> r is ExitCleanly,
{
    if accepted {
        ProvisionDecision::Proceed
    } else {
        ProvisionDecision::ExitCleanly
    }
}

/// Resolves the REST endpoint: explicit override, else the network default,
/// else a fatal error.
pub fn resolve_rest_url(network: AptosNetwork, override_url: &Option<String>) -> (r: Result<
    String,
    DeployError,
>)
    ensures
        r is Ok <==> resolved_endpoint(*override_url, network.spec_rest_url()) is Some,
        r matches Ok(u) ==> u@ == resolved_endpoint(*override_url, network.spec_rest_url())->0,
        r is Err ==> r == Result::<String, DeployError>::Err(DeployError::MissingRestUrl(network)),
{
    match override_url {
        Some(u) => Ok(u.clone()),
        None => match network.rest_url() {
            Some(u) => Ok(u),
            None => Err(DeployError::MissingRestUrl(network)),
        },
    }
}

/// Resolves the faucet endpoint: explicit override, else the network
/// default, else a fatal error.
pub fn resolve_faucet_url(network: AptosNetwork, override_url: &Option<String>) -> (r: Result<
    String,
    DeployError,
>)
    ensures
        r is Ok <==> resolved_endpoint(*override_url, network.spec_faucet_url()) is Some,
        r matches Ok(u) ==> u@ == resolved_endpoint(*override_url, network.spec_faucet_url())->0,
        r is Err ==> r == Result::<String, DeployError>::Err(
            DeployError::MissingFaucetUrl(network),
        ),
{
    match override_url {
        Some(u) => Ok(u.clone()),
        None => match network.faucet_url() {
            Some(u) => Ok(u),
            None => Err(DeployError::MissingFaucetUrl(network)),
        },
    }
}

/// Everything a faucet funding call needs: both endpoints resolved, and the
/// fixed default amount in minimal units.
#[derive(Debug)]
pub struct FundingRequest {
    pub faucet_url: String,
    pub rest_url: String,
    pub amount: u64,
}

/// Prepares the funding of a freshly generated account: the faucet endpoint
/// is required first, then the REST endpoint; either missing is fatal before
/// any deployment starts.
pub fn build_funding_request(
    network: AptosNetwork,
    faucet_override: &Option<String>,
    rest_override: &Option<String>,
) -> (r: Result<FundingRequest, DeployError>)
    ensures
        r is Ok <==> (resolved_endpoint(*faucet_override, network.spec_faucet_url()) is Some
            && resolved_endpoint(*rest_override, network.spec_rest_url()) is Some),
        r matches Ok(req) ==> {
            &&& req.faucet_url@ == resolved_endpoint(
                *faucet_override,
                network.spec_faucet_url(),
            )->0
            &&& req.rest_url@ == resolved_endpoint(*rest_override, network.spec_rest_url())->0
            &&& req.amount == crate::DEFAULT_FAUCET_AMOUNT
        },
        resolved_endpoint(*faucet_override, network.spec_faucet_url()) is None ==> r == Result::<
            FundingRequest,
            DeployError,
        >::Err(DeployError::MissingFaucetUrl(network)),
        resolved_endpoint(*faucet_override, network.spec_faucet_url()) is Some && resolved_endpoint(
            *rest_override,
            network.spec_rest_url(),
        ) is None ==> r == Result::<FundingRequest, DeployError>::Err(
            DeployError::MissingRestUrl(network),
        ),
{
    let faucet_url = match resolve_faucet_url(network, faucet_override) {
        Ok(u) => u,
        Err(e) => {
            return Err(e);
        },
    };
    let rest_url = match resolve_rest_url(network, rest_override) {
        Ok(u) => u,
        Err(e) => {
            return Err(e);
        },
    };
    Ok(FundingRequest { faucet_url, rest_url, amount: crate::DEFAULT_FAUCET_AMOUNT })
}

/// Everything the creation of the transient credential profile needs.
#[derive(Debug)]
pub struct ProfileRequest {
    pub network: AptosNetwork,
    pub profile: String,
    pub private_key: String,
    pub rest_url: String,
    pub faucet_url: String,
    pub assume_yes: bool,
}

/// Prepares the transient named credential profile bound to the sender key
/// and the resolved endpoints. By the time this runs, provisioning has
/// filled the key in; a missing key, or an unresolvable endpoint, is a
/// typed fatal error.
pub fn build_profile_request(config: &DeployConfig) -> (r: Result<ProfileRequest, DeployError>)
    ensures
        r is Ok <==> (config.private_key is Some && resolved_endpoint(
            config.rest_url,
            config.network.spec_rest_url(),
        ) is Some && resolved_endpoint(config.faucet_url, config.network.spec_faucet_url()) is Some),
        r matches Ok(req) ==> {
            &&& req.network == config.network
            &&& req.profile@ == "jayce_deployer"@
            &&& req.private_key@ == config.private_key->0@
            &&& req.rest_url@ == resolved_endpoint(config.rest_url, config.network.spec_rest_url())->0
            &&& req.faucet_url@ == resolved_endpoint(
                config.faucet_url,
                config.network.spec_faucet_url(),
            )->0
            &&& req.assume_yes == config.yes
        },
        config.private_key is None ==> r == Result::<ProfileRequest, DeployError>::Err(
            DeployError::MissingPrivateKey,
        ),
        config.private_key is Some && resolved_endpoint(
            config.rest_url,
            config.network.spec_rest_url(),
        ) is None ==> r == Result::<ProfileRequest, DeployError>::Err(
            DeployError::MissingRestUrl(config.network),
        ),
        config.private_key is Some && resolved_endpoint(
            config.rest_url,
            config.network.spec_rest_url(),
        ) is Some && resolved_endpoint(config.faucet_url, config.network.spec_faucet_url()) is None
            ==> r == Result::<ProfileRequest, DeployError>::Err(
            DeployError::MissingFaucetUrl(config.network),
        ),
{
    let private_key = match &config.private_key {
        Some(k) => k.clone(),
        None => {
            return Err(DeployError::MissingPrivateKey);
        },
    };
    let rest_url = match resolve_rest_url(config.network, &config.rest_url) {
        Ok(u) => u,
        Err(e) => {
            return Err(e);
        },
    };
    let faucet_url = match resolve_faucet_url(config.network, &config.faucet_url) {
        Ok(u) => u,
        Err(e) => {
            return Err(e);
        },
    };
    Ok(
        ProfileRequest {
            network: config.network,
            profile: deployer_profile(),
            private_key,
            rest_url,
            faucet_url,
            assume_yes: config.yes,
        },
    )
}

/// The name of the transient profile as a value.
pub fn deployer_profile() -> (r: String)
    ensures
        r@ == "jayce_deployer"@,
{
    crate::DEPLOYER_PROFILE.to_owned()
}

/// The credential store holds an entry named like the transient profile.
pub open spec fn contains_deployer(profiles: Seq<String>) -> bool {
    exists|i: int| 0 <= i < profiles.len() && (#[trigger] profiles[i])@ == "jayce_deployer"@
}

/// How the transient credential profile is released at the end of a run.
#[derive(Clone, Copy, Debug, PartialEq, Eq, Structural)]
pub enum ReleaseAction {
    /// The transient profile is the only entry: delete the whole store.
    DeleteStore,
    /// Other, user-owned entries exist beside it: remove only the transient
    /// entry and persist the rest unchanged.
    RemoveEntryAndPersist,
    /// The transient profile is absent: leave the store untouched.
    LeaveUnchanged,
}

/// Decides how the credential store is restored, from the names of the
/// entries it currently holds. Pre-existing, user-owned profiles are always
/// preserved untouched.
pub fn credential_release_action(profiles: &Vec<String>) -> (r: ReleaseAction)
    ensures
        r is DeleteStore <==> (profiles@.len() == 1 && contains_deployer(profiles@)),
        r is RemoveEntryAndPersist <==> (profiles@.len() != 1 && contains_deployer(profiles@)),
        r is LeaveUnchanged <==> !contains_deployer(profiles@),
{
    let deployer = deployer_profile();
    let n = profiles.len();
    let mut found = false;
    let mut i: usize = 0;
    while i < n
        invariant
            i <= n,
            n == profiles@.len(),
            found <==> exists|k: int| 0 <= k < i && (#[trigger] profiles@[k])@ == "jayce_deployer"@,
            deployer@ == "jayce_deployer"@,
        decreases n - i,
    {
        if profiles[i].eq(&deployer) {
            proof {
                assert(profiles@[i as int]@ == "jayce_deployer"@);
            }
            found = true;
        }
        i += 1;
    }
    if !found {
        ReleaseAction::LeaveUnchanged
    } else if n == 1 {
        ReleaseAction::DeleteStore
    } else {
        ReleaseAction::RemoveEntryAndPersist
    }
}

} // verus!
