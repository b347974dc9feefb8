use jayce::DEFAULT_FAUCET_AMOUNT;
use jayce::DEPLOYER_PROFILE;
use jayce::address::AddressBook;
use jayce::deploy_config::DeployConfig;
use jayce::errors::select_run_error;
use jayce::errors::DeployError;
use jayce::network::AptosNetwork;
use jayce::network::DeployModuleType;
use jayce::provision::ProvisionAction;
use jayce::provision::ProvisionDecision;
use jayce::provision::ReleaseAction;
use jayce::provision::build_funding_request;
use jayce::provision::build_profile_request;
use jayce::provision::confirmation_decision;
use jayce::provision::credential_release_action;
use jayce::provision::initial_provision_action;
use jayce::provision::resolve_faucet_url;
use jayce::provision::resolve_rest_url;

#[test]
fn test_default_rest_urls() {
    assert_eq!(
        AptosNetwork::Mainnet.rest_url().unwrap(),
        "https://api.mainnet.aptoslabs.com/v1"
    );
    assert_eq!(
        AptosNetwork::Testnet.rest_url().unwrap(),
        "https://api.testnet.aptoslabs.com/v1"
    );
    assert_eq!(
        AptosNetwork::Devnet.rest_url().unwrap(),
        "https://api.devnet.aptoslabs.com/v1"
    );
    assert!(AptosNetwork::Local.rest_url().is_none());
}

#[test]
fn test_default_faucet_urls() {
    assert!(AptosNetwork::Mainnet.faucet_url().is_none());
    assert_eq!(
        AptosNetwork::Testnet.faucet_url().unwrap(),
        "https://faucet.testnet.aptoslabs.com"
    );
    assert_eq!(
        AptosNetwork::Devnet.faucet_url().unwrap(),
        "https://faucet.devnet.aptoslabs.com"
    );
    assert!(AptosNetwork::Local.faucet_url().is_none());
}

#[test]
fn test_chunked_publish_policy_table() {
    assert!(AptosNetwork::Mainnet.supports_chunked_publish());
    assert!(AptosNetwork::Testnet.supports_chunked_publish());
    assert!(!AptosNetwork::Devnet.supports_chunked_publish());
    assert!(!AptosNetwork::Local.supports_chunked_publish());
}

#[test]
fn test_network_and_mode_names() {
    assert_eq!(AptosNetwork::Mainnet.name(), "mainnet");
    assert_eq!(AptosNetwork::Testnet.name(), "testnet");
    assert_eq!(AptosNetwork::Devnet.name(), "devnet");
    assert_eq!(AptosNetwork::Local.name(), "local");
    assert_eq!(DeployModuleType::Account.name(), "account");
    assert_eq!(DeployModuleType::Object.name(), "object");
}

#[test]
fn test_endpoint_override_takes_precedence() {
    let url = resolve_rest_url(
        AptosNetwork::Local,
        &Some("http://localhost:8080".to_string()),
    )
    .unwrap();
    assert_eq!(url, "http://localhost:8080");
    let url = resolve_rest_url(AptosNetwork::Devnet, &None).unwrap();
    assert_eq!(url, "https://api.devnet.aptoslabs.com/v1");
}

#[test]
fn test_missing_endpoints_are_fatal() {
    assert_eq!(
        resolve_rest_url(AptosNetwork::Local, &None).unwrap_err(),
        DeployError::MissingRestUrl(AptosNetwork::Local)
    );
    assert_eq!(
        resolve_faucet_url(AptosNetwork::Mainnet, &None).unwrap_err(),
        DeployError::MissingFaucetUrl(AptosNetwork::Mainnet)
    );
}

#[test]
fn test_funding_request_uses_default_amount() {
    let req = build_funding_request(AptosNetwork::Devnet, &None, &None).unwrap();
    assert_eq!(req.amount, DEFAULT_FAUCET_AMOUNT);
    assert_eq!(req.amount, 100_000_000);
    assert_eq!(req.faucet_url, "https://faucet.devnet.aptoslabs.com");
    assert_eq!(req.rest_url, "https://api.devnet.aptoslabs.com/v1");
}

#[test]
fn test_funding_request_checks_faucet_before_rest() {
    let err = build_funding_request(AptosNetwork::Local, &None, &None).unwrap_err();
    assert_eq!(err, DeployError::MissingFaucetUrl(AptosNetwork::Local));
    let err = build_funding_request(
        AptosNetwork::Local,
        &Some("http://localhost:8081".to_string()),
        &None,
    )
    .unwrap_err();
    assert_eq!(err, DeployError::MissingRestUrl(AptosNetwork::Local));
}

#[test]
fn test_provision_action_decision() {
    assert_eq!(
        initial_provision_action(&Some("key".to_string()), false),
        ProvisionAction::UseSuppliedKey
    );
    assert_eq!(initial_provision_action(&None, true), ProvisionAction::GenerateAndFund);
    assert_eq!(initial_provision_action(&None, false), ProvisionAction::AskConfirmation);
}

#[test]
fn test_declined_confirmation_is_clean_exit() {
    assert_eq!(confirmation_decision(false), ProvisionDecision::ExitCleanly);
    assert_eq!(confirmation_decision(true), ProvisionDecision::Proceed);
}

fn devnet_config(private_key: Option<String>) -> DeployConfig {
    DeployConfig {
        private_key,
        module_type: DeployModuleType::Object,
        modules_path: vec!["pkgs/libs".to_string()],
        addresses_name: vec!["lib_addr".to_string()],
        network: AptosNetwork::Devnet,
        yes: true,
        output_json: "report.json".to_string(),
        deployed_addresses: AddressBook::new(),
        rest_url: None,
        faucet_url: None,
        publish_code: false,
    }
}

#[test]
fn test_profile_request_binds_key_and_endpoints() {
    let req = build_profile_request(&devnet_config(Some("key-material".to_string()))).unwrap();
    assert_eq!(req.profile, DEPLOYER_PROFILE);
    assert_eq!(req.profile, "jayce_deployer");
    assert_eq!(req.private_key, "key-material");
    assert_eq!(req.rest_url, "https://api.devnet.aptoslabs.com/v1");
    assert_eq!(req.faucet_url, "https://faucet.devnet.aptoslabs.com");
    assert!(req.assume_yes);
}

#[test]
fn test_profile_request_without_key_is_fatal() {
    let err = build_profile_request(&devnet_config(None)).unwrap_err();
    assert_eq!(err, DeployError::MissingPrivateKey);
}

#[test]
fn test_report_write_error_never_masks_a_deploy_error() {
    let deploy_err = DeployError::Publish("submission failed".to_string());
    let report_err = DeployError::ReportWrite("disk full".to_string());
    assert_eq!(
        select_run_error(Err(deploy_err.clone()), Err(report_err.clone())),
        Err(deploy_err)
    );
    assert_eq!(select_run_error(Ok(()), Err(report_err.clone())), Err(report_err));
    assert_eq!(select_run_error(Ok(()), Ok(())), Ok(()));
}

#[test]
fn test_credential_release_policy() {
    let only = vec![DEPLOYER_PROFILE.to_string()];
    assert_eq!(credential_release_action(&only), ReleaseAction::DeleteStore);

    let mixed = vec!["default".to_string(), DEPLOYER_PROFILE.to_string()];
    assert_eq!(credential_release_action(&mixed), ReleaseAction::RemoveEntryAndPersist);

    let foreign = vec!["default".to_string()];
    assert_eq!(credential_release_action(&foreign), ReleaseAction::LeaveUnchanged);

    let empty: Vec<String> = vec![];
    assert_eq!(credential_release_action(&empty), ReleaseAction::LeaveUnchanged);
}
