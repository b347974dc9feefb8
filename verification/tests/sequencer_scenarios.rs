use jayce::address::AddressBook;
use jayce::address::ChainAddress;
use jayce::deploy_config::DeployConfig;
use jayce::errors::DeployError;
use jayce::manifest::MoveTomlFile;
use jayce::network::AptosNetwork;
use jayce::network::DeployModuleType;
use jayce::sequencer::ChunkDecision;
use jayce::sequencer::DeploymentSequencer;
use jayce::sequencer::PollStep;
use jayce::sequencer::TxSummary;

fn addr(hex: &str) -> ChainAddress {
    ChainAddress::from_hex(hex).unwrap()
}

fn summary(hash: &str) -> TxSummary {
    TxSummary { transaction_hash: hash.to_string(), gas_used: 7, success: true }
}

fn toml(names: &[&str]) -> MoveTomlFile {
    MoveTomlFile {
        addresses: names.iter().map(|n| (n.to_string(), "_".to_string())).collect(),
    }
}

fn config(
    module_type: DeployModuleType,
    network: AptosNetwork,
    yes: bool,
    packages: &[(&str, &str)],
    deployed: AddressBook,
) -> DeployConfig {
    DeployConfig {
        private_key: Some("key".to_string()),
        module_type,
        modules_path: packages.iter().map(|p| p.0.to_string()).collect(),
        addresses_name: packages.iter().map(|p| p.1.to_string()).collect(),
        network,
        yes,
        output_json: "report.json".to_string(),
        deployed_addresses: deployed,
        rest_url: None,
        faucet_url: None,
        publish_code: false,
    }
}

#[test]
fn test_prepopulated_package_is_skipped() {
    let mut seeded = AddressBook::new();
    seeded.insert("lib_addr".to_string(), addr("0x10"));
    let cfg = config(
        DeployModuleType::Object,
        AptosNetwork::Devnet,
        true,
        &[("pkgs/libs", "lib_addr")],
        seeded,
    );
    assert!(cfg.validate().is_ok());
    let mut seq = DeploymentSequencer::new(cfg, addr("0xa11ce"));
    match seq.poll() {
        PollStep::Skipped { address_name } => assert_eq!(address_name, "lib_addr"),
        other => panic!("expected a skip, got {:?}", other),
    }
    assert!(matches!(seq.poll(), PollStep::Finished));
    let report = seq.into_report();
    assert_eq!(report.info.len(), 0);
}

#[test]
fn test_unresolved_dependency_is_fatal_before_publish() {
    let cfg = config(
        DeployModuleType::Object,
        AptosNetwork::Devnet,
        true,
        &[("pkgs/cpu", "cpu_addr")],
        AddressBook::new(),
    );
    let mut seq = DeploymentSequencer::new(cfg, addr("0xa11ce"));
    assert!(matches!(seq.poll(), PollStep::NeedManifest { .. }));
    let err = seq.resolve_package(toml(&["cpu_addr", "lib_addr"])).unwrap_err();
    assert_eq!(
        err,
        DeployError::DependencyOrder {
            missing: "lib_addr".to_string(),
            dependent: "cpu_addr".to_string(),
        }
    );
    let report = seq.into_report();
    assert_eq!(report.info.len(), 0);
}

#[test]
fn test_scenario_two_packages_dependency_chain() {
    // Two packages, the second depends on the first's address, empty
    // pre-populated map: the first deploys and binds its name; the second
    // resolves that name to the recorded address and deploys.
    let cfg = config(
        DeployModuleType::Object,
        AptosNetwork::Devnet,
        true,
        &[("pkgs/libs", "lib_addr"), ("pkgs/cpu", "cpu_addr")],
        AddressBook::new(),
    );
    assert!(cfg.validate().is_ok());
    let mut seq = DeploymentSequencer::new(cfg, addr("0xa11ce"));

    match seq.poll() {
        PollStep::NeedManifest { module_location, address_name } => {
            assert_eq!(module_location, "pkgs/libs");
            assert_eq!(address_name, "lib_addr");
        },
        other => panic!("expected a manifest request, got {:?}", other),
    }
    seq.resolve_package(toml(&["lib_addr"])).unwrap();
    {
        let req = seq.current_request();
        assert_eq!(req.module_location, "pkgs/libs");
        assert!(!req.chunked);
        // in Object mode the self entry is dropped before resolution
        assert_eq!(req.named_addresses.len(), 0);
    }
    seq.on_publish_success(vec![summary("0xt1")], Some(addr("0x10")));

    match seq.poll() {
        PollStep::NeedManifest { address_name, .. } => assert_eq!(address_name, "cpu_addr"),
        other => panic!("expected a manifest request, got {:?}", other),
    }
    seq.resolve_package(toml(&["cpu_addr", "lib_addr"])).unwrap();
    {
        let req = seq.current_request();
        assert_eq!(req.named_addresses.len(), 1);
        assert_eq!(req.named_addresses[0].name, "lib_addr");
        assert_eq!(req.named_addresses[0].addr, addr("0x10"));
    }
    seq.on_publish_success(vec![summary("0xt2")], Some(addr("0x20")));

    assert!(matches!(seq.poll(), PollStep::Finished));
    let report = seq.into_report();
    assert_eq!(report.info.len(), 2);
    assert_eq!(report.info[0].address_name, "lib_addr");
    assert_eq!(report.info[0].deployed_at, addr("0x10"));
    assert_eq!(report.info[1].address_name, "cpu_addr");
    assert_eq!(report.info[1].deployed_at, addr("0x20"));
}

#[test]
fn test_scenario_prepopulated_first_package() {
    // Same two packages, but the map already binds the first name: only the
    // second package issues a publish call; the report has one record.
    let mut seeded = AddressBook::new();
    seeded.insert("lib_addr".to_string(), addr("0x10"));
    let cfg = config(
        DeployModuleType::Object,
        AptosNetwork::Devnet,
        true,
        &[("pkgs/libs", "lib_addr"), ("pkgs/cpu", "cpu_addr")],
        seeded,
    );
    let mut seq = DeploymentSequencer::new(cfg, addr("0xa11ce"));

    assert!(matches!(seq.poll(), PollStep::Skipped { .. }));
    assert!(matches!(seq.poll(), PollStep::NeedManifest { .. }));
    seq.resolve_package(toml(&["cpu_addr", "lib_addr"])).unwrap();
    assert_eq!(seq.current_request().named_addresses[0].addr, addr("0x10"));
    seq.on_publish_success(vec![summary("0xt2")], Some(addr("0x20")));
    assert!(matches!(seq.poll(), PollStep::Finished));

    let report = seq.into_report();
    assert_eq!(report.info.len(), 1);
    assert_eq!(report.info[0].address_name, "cpu_addr");
}

#[test]
fn test_resumption_issues_no_publish_calls() {
    // Run once from an empty map, feed the report's bindings back as the
    // pre-populated map of a second run over the identical package list:
    // every package is skipped, zero publish calls.
    let packages = [("pkgs/libs", "lib_addr"), ("pkgs/cpu", "cpu_addr")];
    let cfg = config(
        DeployModuleType::Object,
        AptosNetwork::Devnet,
        true,
        &packages,
        AddressBook::new(),
    );
    let mut seq = DeploymentSequencer::new(cfg, addr("0xa11ce"));
    seq.poll();
    seq.resolve_package(toml(&["lib_addr"])).unwrap();
    seq.on_publish_success(vec![summary("0xt1")], Some(addr("0x10")));
    seq.poll();
    seq.resolve_package(toml(&["cpu_addr", "lib_addr"])).unwrap();
    seq.on_publish_success(vec![summary("0xt2")], Some(addr("0x20")));
    assert!(matches!(seq.poll(), PollStep::Finished));
    let report = seq.into_report();

    let mut resumed_map = AddressBook::new();
    for rec in &report.info {
        resumed_map.insert(rec.address_name.clone(), rec.deployed_at.clone());
    }
    let cfg2 = config(
        DeployModuleType::Object,
        AptosNetwork::Devnet,
        true,
        &packages,
        resumed_map,
    );
    let mut seq2 = DeploymentSequencer::new(cfg2, addr("0xa11ce"));
    assert!(matches!(seq2.poll(), PollStep::Skipped { .. }));
    assert!(matches!(seq2.poll(), PollStep::Skipped { .. }));
    assert!(matches!(seq2.poll(), PollStep::Finished));
    assert_eq!(seq2.into_report().info.len(), 0);
}

#[test]
fn test_size_exceeded_fatal_on_local_network() {
    let cfg = config(
        DeployModuleType::Account,
        AptosNetwork::Local,
        true,
        &[("pkgs/big", "big_addr")],
        AddressBook::new(),
    );
    let mut seq = DeploymentSequencer::new(cfg, addr("0xa11ce"));
    seq.poll();
    seq.resolve_package(toml(&["big_addr"])).unwrap();
    let err = seq.on_publish_too_large(60000, 75000).unwrap_err();
    assert_eq!(err, DeployError::ChunkedPublishUnsupported(AptosNetwork::Local));
    assert_eq!(seq.into_report().info.len(), 0);
}

#[test]
fn test_size_exceeded_fatal_on_devnet() {
    let cfg = config(
        DeployModuleType::Account,
        AptosNetwork::Devnet,
        false,
        &[("pkgs/big", "big_addr")],
        AddressBook::new(),
    );
    let mut seq = DeploymentSequencer::new(cfg, addr("0xa11ce"));
    seq.poll();
    seq.resolve_package(toml(&["big_addr"])).unwrap();
    let err = seq.on_publish_too_large(60000, 61000).unwrap_err();
    assert_eq!(err, DeployError::ChunkedPublishUnsupported(AptosNetwork::Devnet));
}

#[test]
fn test_scenario_chunked_retry_non_interactive() {
    // A too-large publish on a chunk-capable network with the
    // non-interactive flag set: automatic retry with chunked publishing,
    // and the record keeps the retry's multiple transaction summaries.
    let cfg = config(
        DeployModuleType::Account,
        AptosNetwork::Testnet,
        true,
        &[("pkgs/big", "big_addr")],
        AddressBook::new(),
    );
    let sender = addr("0xa11ce");
    let mut seq = DeploymentSequencer::new(cfg, sender.clone());
    seq.poll();
    seq.resolve_package(toml(&["big_addr"])).unwrap();
    assert!(!seq.current_request().chunked);
    let decision = seq.on_publish_too_large(60000, 75000).unwrap();
    assert_eq!(decision, ChunkDecision::Retry);
    assert!(seq.current_request().chunked);
    seq.on_publish_success(vec![summary("0xc1"), summary("0xc2"), summary("0xc3")], None);
    assert!(matches!(seq.poll(), PollStep::Finished));
    let report = seq.into_report();
    assert_eq!(report.info.len(), 1);
    assert_eq!(report.info[0].tx_info.len(), 3);
    // in Account mode the package lands under the sender's own address
    assert_eq!(report.info[0].deployed_at, sender);
}

#[test]
fn test_chunked_retry_after_confirmation() {
    let cfg = config(
        DeployModuleType::Account,
        AptosNetwork::Mainnet,
        false,
        &[("pkgs/big", "big_addr")],
        AddressBook::new(),
    );
    let mut seq = DeploymentSequencer::new(cfg, addr("0xa11ce"));
    seq.poll();
    seq.resolve_package(toml(&["big_addr"])).unwrap();
    let decision = seq.on_publish_too_large(60000, 75000).unwrap();
    assert_eq!(decision, ChunkDecision::NeedConfirmation);
    seq.confirm_chunked(true).unwrap();
    assert!(seq.current_request().chunked);
}

#[test]
fn test_chunked_retry_declined_is_fatal() {
    let cfg = config(
        DeployModuleType::Account,
        AptosNetwork::Mainnet,
        false,
        &[("pkgs/big", "big_addr")],
        AddressBook::new(),
    );
    let mut seq = DeploymentSequencer::new(cfg, addr("0xa11ce"));
    seq.poll();
    seq.resolve_package(toml(&["big_addr"])).unwrap();
    seq.on_publish_too_large(60000, 75000).unwrap();
    let err = seq.confirm_chunked(false).unwrap_err();
    assert_eq!(err, DeployError::PackageSizeExceeded { limit: 60000, size: 75000 });
}

#[test]
fn test_second_size_failure_during_chunked_retry_is_fatal() {
    let cfg = config(
        DeployModuleType::Account,
        AptosNetwork::Mainnet,
        true,
        &[("pkgs/big", "big_addr")],
        AddressBook::new(),
    );
    let mut seq = DeploymentSequencer::new(cfg, addr("0xa11ce"));
    seq.poll();
    seq.resolve_package(toml(&["big_addr"])).unwrap();
    assert_eq!(seq.on_publish_too_large(60000, 75000).unwrap(), ChunkDecision::Retry);
    let err = seq.on_publish_too_large(60000, 75000).unwrap_err();
    assert_eq!(err, DeployError::PackageSizeExceeded { limit: 60000, size: 75000 });
}

#[test]
fn test_report_keeps_prefix_when_run_aborts() {
    // Three packages; the second publish fails: the report holds exactly
    // the record of the first package, in original order.
    let cfg = config(
        DeployModuleType::Object,
        AptosNetwork::Devnet,
        true,
        &[("pkgs/a", "a_addr"), ("pkgs/b", "b_addr"), ("pkgs/c", "c_addr")],
        AddressBook::new(),
    );
    let mut seq = DeploymentSequencer::new(cfg, addr("0xa11ce"));
    seq.poll();
    seq.resolve_package(toml(&["a_addr"])).unwrap();
    seq.on_publish_success(vec![summary("0xt1")], Some(addr("0x10")));
    seq.poll();
    seq.resolve_package(toml(&["b_addr"])).unwrap();
    let err = seq.on_publish_failure("simulated submission failure".to_string());
    assert_eq!(err, DeployError::Publish("simulated submission failure".to_string()));
    let report = seq.into_report();
    assert_eq!(report.info.len(), 1);
    assert_eq!(report.info[0].module_location, "pkgs/a");
    assert_eq!(report.info[0].address_name, "a_addr");
}

#[test]
fn test_manifest_missing_own_name_is_fatal() {
    let cfg = config(
        DeployModuleType::Object,
        AptosNetwork::Devnet,
        true,
        &[("pkgs/libs", "lib_addr")],
        AddressBook::new(),
    );
    let mut seq = DeploymentSequencer::new(cfg, addr("0xa11ce"));
    seq.poll();
    let err = seq.resolve_package(toml(&["something_else"])).unwrap_err();
    assert_eq!(
        err,
        DeployError::AddressNameNotInManifest {
            address_name: "lib_addr".to_string(),
            module_location: "pkgs/libs".to_string(),
        }
    );
}

#[test]
fn test_account_mode_binds_sender_for_self_name() {
    // In Account mode the package's own name stays in the table and
    // resolves to the sender's address.
    let cfg = config(
        DeployModuleType::Account,
        AptosNetwork::Devnet,
        true,
        &[("pkgs/libs", "lib_addr")],
        AddressBook::new(),
    );
    let sender = addr("0xa11ce");
    let mut seq = DeploymentSequencer::new(cfg, sender.clone());
    seq.poll();
    seq.resolve_package(toml(&["lib_addr"])).unwrap();
    let req = seq.current_request();
    assert_eq!(req.named_addresses.len(), 1);
    assert_eq!(req.named_addresses[0].name, "lib_addr");
    assert_eq!(req.named_addresses[0].addr, sender);
}
