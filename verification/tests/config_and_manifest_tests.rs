use jayce::address::AddressBook;
use jayce::address::ChainAddress;
use jayce::deploy_config::DeployConfig;
use jayce::deploy_config::PartialDeployConfig;
use jayce::errors::ConfigField;
use jayce::errors::DeployError;
use jayce::manifest::MoveTomlFile;
use jayce::manifest::get_named_addresses;
use jayce::network::AptosNetwork;
use jayce::network::DeployModuleType;
use jayce::resolver::resolve;

fn full_partial() -> PartialDeployConfig {
    PartialDeployConfig {
        private_key: None,
        module_type: Some(DeployModuleType::Object),
        modules_path: Some(vec!["pkgs/libs".to_string(), "pkgs/cpu".to_string()]),
        addresses_name: Some(vec!["lib_addr".to_string(), "cpu_addr".to_string()]),
        network: Some(AptosNetwork::Devnet),
        yes: Some(true),
        output_json: Some("report.json".to_string()),
        deployed_addresses: Some(AddressBook::new()),
        rest_url: None,
        faucet_url: Some("http://localhost:8081".to_string()),
        publish_code: Some(false),
    }
}

#[test]
fn test_from_partial_completes_configuration() {
    let cfg = DeployConfig::from_partial(full_partial()).unwrap();
    assert_eq!(cfg.module_type, DeployModuleType::Object);
    assert_eq!(cfg.modules_path, vec!["pkgs/libs".to_string(), "pkgs/cpu".to_string()]);
    assert_eq!(cfg.addresses_name, vec!["lib_addr".to_string(), "cpu_addr".to_string()]);
    assert!(cfg.yes);
    assert_eq!(cfg.output_json, "report.json");
    assert_eq!(cfg.faucet_url, Some("http://localhost:8081".to_string()));
    assert!(!cfg.publish_code);
}

#[test]
fn test_from_partial_reports_first_missing_field() {
    let mut p = full_partial();
    p.module_type = None;
    p.network = None;
    assert_eq!(
        DeployConfig::from_partial(p).unwrap_err(),
        DeployError::MissingField(ConfigField::ModuleType)
    );

    let mut p = full_partial();
    p.publish_code = None;
    assert_eq!(
        DeployConfig::from_partial(p).unwrap_err(),
        DeployError::MissingField(ConfigField::PublishCode)
    );
}

#[test]
fn test_validate_rejects_length_mismatch_before_any_network_call() {
    let mut cfg = DeployConfig::from_partial(full_partial()).unwrap();
    cfg.modules_path.push("pkgs/extra".to_string());
    assert_eq!(
        cfg.validate().unwrap_err(),
        DeployError::LengthMismatch { modules: 3, names: 2 }
    );
}

#[test]
fn test_validate_rejects_duplicate_address_names() {
    let mut cfg = DeployConfig::from_partial(full_partial()).unwrap();
    cfg.modules_path.push("pkgs/extra".to_string());
    cfg.addresses_name.push("lib_addr".to_string());
    assert_eq!(
        cfg.validate().unwrap_err(),
        DeployError::DuplicateAddressName("lib_addr".to_string())
    );
}

#[test]
fn test_validate_accepts_distinct_names() {
    let cfg = DeployConfig::from_partial(full_partial()).unwrap();
    assert!(cfg.validate().is_ok());
}

fn table(names: &[&str]) -> MoveTomlFile {
    MoveTomlFile {
        addresses: names.iter().map(|n| (n.to_string(), "_".to_string())).collect(),
    }
}

#[test]
fn test_object_mode_drops_own_entry_from_table() {
    let t = get_named_addresses(
        table(&["lib_addr", "cpu_addr"]),
        &"pkgs/cpu".to_string(),
        &"cpu_addr".to_string(),
        DeployModuleType::Object,
    )
    .unwrap();
    assert_eq!(t.addresses.len(), 1);
    assert_eq!(t.addresses[0].0, "lib_addr");
}

#[test]
fn test_account_mode_keeps_table_unchanged() {
    let t = get_named_addresses(
        table(&["lib_addr", "cpu_addr"]),
        &"pkgs/cpu".to_string(),
        &"cpu_addr".to_string(),
        DeployModuleType::Account,
    )
    .unwrap();
    assert_eq!(t.addresses.len(), 2);
}

#[test]
fn test_manifest_without_own_name_is_rejected() {
    let err = get_named_addresses(
        table(&["lib_addr"]),
        &"pkgs/cpu".to_string(),
        &"cpu_addr".to_string(),
        DeployModuleType::Object,
    )
    .unwrap_err();
    assert_eq!(
        err,
        DeployError::AddressNameNotInManifest {
            address_name: "cpu_addr".to_string(),
            module_location: "pkgs/cpu".to_string(),
        }
    );
}

#[test]
fn test_resolve_orders_substitutions_like_the_table() {
    let mut book = AddressBook::new();
    let lib = ChainAddress::from_hex("0x10").unwrap();
    let other = ChainAddress::from_hex("0x30").unwrap();
    book.insert("lib_addr".to_string(), lib.clone());
    book.insert("other_addr".to_string(), other.clone());
    let sender = ChainAddress::from_hex("0xa11ce").unwrap();
    let subs = resolve(
        &table(&["other_addr", "cpu_addr", "lib_addr"]),
        &book,
        &"cpu_addr".to_string(),
        &sender,
    )
    .unwrap();
    assert_eq!(subs.len(), 3);
    assert_eq!(subs[0].name, "other_addr");
    assert_eq!(subs[0].addr, other);
    assert_eq!(subs[1].name, "cpu_addr");
    assert_eq!(subs[1].addr, sender);
    assert_eq!(subs[2].name, "lib_addr");
    assert_eq!(subs[2].addr, lib);
}

#[test]
fn test_resolve_reports_first_missing_dependency() {
    let book = AddressBook::new();
    let sender = ChainAddress::from_hex("0xa11ce").unwrap();
    let err = resolve(
        &table(&["cpu_addr", "lib_addr", "other_addr"]),
        &book,
        &"cpu_addr".to_string(),
        &sender,
    )
    .unwrap_err();
    assert_eq!(
        err,
        DeployError::DependencyOrder {
            missing: "lib_addr".to_string(),
            dependent: "cpu_addr".to_string(),
        }
    );
}
