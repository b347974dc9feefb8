//! Target networks and deployment modes.

use vstd::prelude::*;

verus! {

/// How a package is published: under the sender's own account, or owned by
/// a freshly created on-chain object.
#[derive(Clone, Copy, Debug, PartialEq, Eq, Structural)]
pub enum DeployModuleType {
    Account,
    Object,
}

impl DeployModuleType {
    /// The identifier used for this mode on the command line.
    pub open spec fn spec_name(self) -> Seq<char> {
        match self {
            DeployModuleType::Account => "account"@,
            DeployModuleType::Object => "object"@,
        }
    }

    /// Renders the mode as its command-line identifier.
    pub fn name(&self) -> (r: String)
        ensures
            r@ == self.spec_name(),
    {
        match self {
            DeployModuleType::Account => "account".to_owned(),
            DeployModuleType::Object => "object".to_owned(),
        }
    }
}

/// The single target network of a run.
#[derive(Clone, Copy, Debug, PartialEq, Eq, Structural)]
pub enum AptosNetwork {
    Mainnet,
    Testnet,
    Devnet,
    Local,
}

impl AptosNetwork {
    /// The identifier used for this network on the command line and in the
    /// deployment report.
    pub open spec fn spec_name(self) -> Seq<char> {
        match self {
            AptosNetwork::Mainnet => "mainnet"@,
            AptosNetwork::Testnet => "testnet"@,
            AptosNetwork::Devnet => "devnet"@,
            AptosNetwork::Local => "local"@,
        }
    }

    /// Renders the network as its command-line identifier.
    pub fn name(&self) -> (r: String)
        ensures
            r@ == self.spec_name(),
    {
        match self {
            AptosNetwork::Mainnet => "mainnet".to_owned(),
            AptosNetwork::Testnet => "testnet".to_owned(),
            AptosNetwork::Devnet => "devnet".to_owned(),
            AptosNetwork::Local => "local".to_owned(),
        }
    }

    /// The default REST endpoint of the network, if it has one. The fully
    /// local network has no default and must always be supplied one
    /// explicitly.
    pub open spec fn spec_rest_url(self) -> Option<Seq<char>> {
        match self {
            AptosNetwork::Mainnet => Some("https://api.mainnet.aptoslabs.com/v1"@),
            AptosNetwork::Testnet => Some("https://api.testnet.aptoslabs.com/v1"@),
            AptosNetwork::Devnet => Some("https://api.devnet.aptoslabs.com/v1"@),
            AptosNetwork::Local => None,
        }
    }

    /// The default REST endpoint as a value.
    pub fn rest_url(&self) -> (r: Option<String>)
        ensures
            r is Some <==> self.spec_rest_url() is Some,
            r matches Some(u) ==> u@ == self.spec_rest_url()->0,
    {
        match self {
            AptosNetwork::Mainnet => Some("https://api.mainnet.aptoslabs.com/v1".to_owned()),
            AptosNetwork::Testnet => Some("https://api.testnet.aptoslabs.com/v1".to_owned()),
            AptosNetwork::Devnet => Some("https://api.devnet.aptoslabs.com/v1".to_owned()),
            AptosNetwork::Local => None,
        }
    }

    /// The default faucet endpoint of the network, if it has one. Mainnet
    /// has no faucet; the fully local network has no default.
    pub open spec fn spec_faucet_url(self) -> Option<Seq<char>> {
        match self {
            AptosNetwork::Mainnet => None,
            AptosNetwork::Testnet => Some("https://faucet.testnet.aptoslabs.com"@),
            AptosNetwork::Devnet => Some("https://faucet.devnet.aptoslabs.com"@),
            AptosNetwork::Local => None,
        }
    }

    /// The default faucet endpoint as a value.
    pub fn faucet_url(&self) -> (r: Option<String>)
        ensures
            r is Some <==> self.spec_faucet_url() is Some,
            r matches Some(u) ==> u@ == self.spec_faucet_url()->0,
    {
        match self {
            AptosNetwork::Mainnet => None,
            AptosNetwork::Testnet => Some("https://faucet.testnet.aptoslabs.com".to_owned()),
            AptosNetwork::Devnet => Some("https://faucet.devnet.aptoslabs.com".to_owned()),
            AptosNetwork::Local => None,
        }
    }

    /// Whether the network accepts a chunked multi-transaction publish.
    /// Only the two public shared networks do; the fully local and the
    /// closed development network reject chunking as unsupported.
    pub open spec fn spec_supports_chunked_publish(self) -> bool {
        self is Mainnet || self is Testnet
    }

    /// Policy table for the chunked-publish retry: exactly the two public
    /// shared networks support it.
    pub fn supports_chunked_publish(&self) -> (r: bool)
        ensures
            r == self.spec_supports_chunked_publish(),
    {
        match self {
            AptosNetwork::Mainnet => true,
            AptosNetwork::Testnet => true,
            AptosNetwork::Devnet => false,
            AptosNetwork::Local => false,
        }
    }
}

} // verus!
