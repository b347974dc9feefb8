//! The immutable configuration of one deployment run, and its completion
//! from a partial configuration.

use vstd::prelude::*;

use crate::address::AddressBook;
use crate::errors::ConfigField;
use crate::errors::DeployError;
use crate::network::AptosNetwork;
use crate::network::DeployModuleType;

verus! {

/// Configuration of one run. The sender key may be filled in later by
/// provisioning; everything else is fixed for the run.
#[derive(Debug)]
pub struct DeployConfig {
    pub private_key: Option<String>,
    pub module_type: DeployModuleType,
    pub modules_path: Vec<String>,
    pub addresses_name: Vec<String>,
    pub network: AptosNetwork,
    pub yes: bool,
    pub output_json: String,
    pub deployed_addresses: AddressBook,
    pub rest_url: Option<String>,
    pub faucet_url: Option<String>,
    pub publish_code: bool,
}

/// A configuration as collected from the command line or a configuration
/// file, before every required field is known to be present.
#[derive(Debug)]
pub struct PartialDeployConfig {
    pub private_key: Option<String>,
    pub module_type: Option<DeployModuleType>,
    pub modules_path: Option<Vec<String>>,
    pub addresses_name: Option<Vec<String>>,
    pub network: Option<AptosNetwork>,
    pub yes: Option<bool>,
    pub output_json: Option<String>,
    pub deployed_addresses: Option<AddressBook>,
    pub rest_url: Option<String>,
    pub faucet_url: Option<String>,
    pub publish_code: Option<bool>,
}

impl PartialDeployConfig {
    /// All the fields a complete configuration requires are present.
    pub open spec fn complete(self) -> bool {
        &&& self.module_type is Some
        &&& self.modules_path is Some
        &&& self.addresses_name is Some
        &&& self.network is Some
        &&& self.yes is Some
        &&& self.output_json is Some
        &&& self.deployed_addresses is Some
        &&& self.publish_code is Some
    }
}

impl DeployConfig {
    /// The package list and the address-name list pair up one to one.
    pub open spec fn lens_match(self) -> bool {
        self.modules_path@.len() == self.addresses_name@.len()
    }

    /// No two packages were assigned the same address name.
    pub open spec fn names_distinct(self) -> bool {
        forall|i: int, j: int|
            0 <= i < j < self.addresses_name@.len() ==> (#[trigger] self.addresses_name@[i])@ != (
            #[trigger] self.addresses_name@[j])@
    }

    /// The invariant every accepted configuration satisfies.
    pub open spec fn valid(self) -> bool {
        &&& self.lens_match()
        &&& self.names_distinct()
        &&& self.deployed_addresses.wf()
    }

    /// Completes a partial configuration, reporting the first required
    /// field that is absent. Optional fields (the key and the endpoint
    /// overrides) are carried over as they are.
    pub fn from_partial(p: PartialDeployConfig) -> (r: Result<DeployConfig, DeployError>)
        ensures
            r is Ok <==> p.complete(),
            r matches Ok(c) ==> {
                &&& c.private_key == p.private_key
                &&& c.module_type == p.module_type->0
                &&& c.modules_path == p.modules_path->0
                &&& c.addresses_name == p.addresses_name->0
                &&& c.network == p.network->0
                &&& c.yes == p.yes->0
                &&& c.output_json == p.output_json->0
                &&& c.deployed_addresses == p.deployed_addresses->0
                &&& c.rest_url == p.rest_url
                &&& c.faucet_url == p.faucet_url
                &&& c.publish_code == p.publish_code->0
            },
            p.module_type is None ==> r == Result::<DeployConfig, DeployError>::Err(
                DeployError::MissingField(ConfigField::ModuleType),
            ),
            p.module_type is Some && p.modules_path is None ==> r == Result::<
                DeployConfig,
                DeployError,
            >::Err(DeployError::MissingField(ConfigField::ModulesPath)),
            p.module_type is Some && p.modules_path is Some && p.addresses_name is None ==> r
                == Result::<DeployConfig, DeployError>::Err(
                DeployError::MissingField(ConfigField::AddressesName),
            ),
            p.module_type is Some && p.modules_path is Some && p.addresses_name is Some
                && p.network is None ==> r == Result::<DeployConfig, DeployError>::Err(
                DeployError::MissingField(ConfigField::Network),
            ),
            p.module_type is Some && p.modules_path is Some && p.addresses_name is Some
                && p.network is Some && p.yes is None ==> r == Result::<
                DeployConfig,
                DeployError,
            >::Err(DeployError::MissingField(ConfigField::Yes)),
            p.module_type is Some && p.modules_path is Some && p.addresses_name is Some
                && p.network is Some && p.yes is Some && p.output_json is None ==> r == Result::<
                DeployConfig,
                DeployError,
            >::Err(DeployError::MissingField(ConfigField::OutputJson)),
            p.module_type is Some && p.modules_path is Some && p.addresses_name is Some
                && p.network is Some && p.yes is Some && p.output_json is Some
                && p.deployed_addresses is None ==> r == Result::<DeployConfig, DeployError>::Err(
                DeployError::MissingField(ConfigField::DeployedAddresses),
            ),
            p.module_type is Some && p.modules_path is Some && p.addresses_name is Some
                && p.network is Some && p.yes is Some && p.output_json is Some
                && p.deployed_addresses is Some && p.publish_code is None ==> r == Result::<
                DeployConfig,
                DeployError,
            >::Err(DeployError::MissingField(ConfigField::PublishCode)),
    {
        let PartialDeployConfig {
            private_key,
            module_type,
            modules_path,
            addresses_name,
            network,
            yes,
            output_json,
            deployed_addresses,
            rest_url,
            faucet_url,
            publish_code,
        } = p;
        let module_type = match module_type {
            Some(v) => v,
            None => {
                return Err(DeployError::MissingField(ConfigField::ModuleType));
            },
        };
        let modules_path = match modules_path {
            Some(v) => v,
            None => {
                return Err(DeployError::MissingField(ConfigField::ModulesPath));
            },
        };
        let addresses_name = match addresses_name {
            Some(v) => v,
            None => {
                return Err(DeployError::MissingField(ConfigField::AddressesName));
            },
        };
        let network = match network {
            Some(v) => v,
            None => {
                return Err(DeployError::MissingField(ConfigField::Network));
            },
        };
        let yes = match yes {
            Some(v) => v,
            None => {
                return Err(DeployError::MissingField(ConfigField::Yes));
            },
        };
        let output_json = match output_json {
            Some(v) => v,
            None => {
                return Err(DeployError::MissingField(ConfigField::OutputJson));
            },
        };
        let deployed_addresses = match deployed_addresses {
            Some(v) => v,
            None => {
                return Err(DeployError::MissingField(ConfigField::DeployedAddresses));
            },
        };
        let publish_code = match publish_code {
            Some(v) => v,
            None => {
                return Err(DeployError::MissingField(ConfigField::PublishCode));
            },
        };
        Ok(
            DeployConfig {
                private_key,
                module_type,
                modules_path,
                addresses_name,
                network,
                yes,
                output_json,
                deployed_addresses,
                rest_url,
                faucet_url,
                publish_code,
            },
        )
    }

    /// Checks the configuration invariant before any network activity: the
    /// two lists pair up, and no address name occurs twice.
    pub fn validate(&self) -> (r: Result<(), DeployError>)
        requires
            self.deployed_addresses.wf(),
        ensures
            r is Ok <==> self.valid(),
            !self.lens_match() ==> (r matches Err(e) && (e matches DeployError::LengthMismatch {
                modules,
                names,
            } && modules == self.modules_path@.len() && names == self.addresses_name@.len())),
            self.lens_match() && !self.names_distinct() ==> (r matches Err(e) && (e matches
                DeployError::DuplicateAddressName(n) && exists|i: int, j: int|
                0 <= i < j < self.addresses_name@.len() && (#[trigger] self.addresses_name@[i])@
                    == (#[trigger] self.addresses_name@[j])@ && self.addresses_name@[j]@ == n@)),
    {
        let modules = self.modules_path.len();
        let names = self.addresses_name.len();
        if modules != names {
            return Err(DeployError::LengthMismatch { modules, names });
        }
        let n = names;
        let mut i: usize = 0;
        while i < n
            invariant
                i <= n,
                self.lens_match(),
                n == self.addresses_name@.len(),
                forall|a: int, b: int|
                    0 <= a < b < n && a < i ==> (#[trigger] self.addresses_name@[a])@ != (
                    #[trigger] self.addresses_name@[b])@,
            decreases n - i,
        {
            let mut j: usize = i + 1;
            while j < n
                invariant
                    i < j <= n,
                    self.lens_match(),
                    n == self.addresses_name@.len(),
                    forall|b: int|
                        i < b < j ==> (#[trigger] self.addresses_name@[b])@
                            != self.addresses_name@[i as int]@,
                decreases n - j,
            {
                if self.addresses_name[i].eq(&self.addresses_name[j]) {
                    proof {
                        assert(self.addresses_name@[i as int]@ == self.addresses_name@[j as int]@);
                    }
                    return Err(DeployError::DuplicateAddressName(self.addresses_name[j].clone()));
                }
                j += 1;
            }
            i += 1;
        }
        Ok(())
    }
}

} // verus!
