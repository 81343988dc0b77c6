use brane_vm::infra::{InfrastructureDocument, InfrastructureError, Location, LocationCredentials, Store};

fn kube(address: &str) -> Location {
    Location::Kube {
        address: address.to_string(),
        callback_to: "cb".to_string(),
        namespace: "ns".to_string(),
        registry: "reg:5000".to_string(),
        credentials: LocationCredentials::Config { file: "s$kubeconfig".to_string() },
        proxy_address: None,
        mount_dfs: None,
    }
}

#[test]
fn store_parses_urls() {
    assert!(matches!(Store::from_url("postgres://db:5432/brane"), Some(Store::Database(_))));
    assert!(Store::from_url("not a url").is_none());
    assert!(Store::from_url("").is_none());
}

#[test]
fn addresses_and_registries() {
    assert_eq!(kube("k8s.local").get_address(), "k8s.local");
    assert_eq!(kube("k8s.local").get_registry(), "reg:5000");
    let local = Location::Local {
        address: None,
        callback_to: "cb".to_string(),
        network: "n".to_string(),
        registry: "r".to_string(),
        proxy_address: None,
        mount_dfs: None,
    };
    assert_eq!(local.get_address(), "127.0.0.1");
}

#[test]
fn secrets_replace_marked_fields() {
    let secrets = vec![("kubeconfig".to_string(), "cfg".to_string()), ("kubeconfig".to_string(), "other".to_string())];
    let creds = LocationCredentials::Config { file: "s$kubeconfig".to_string() };
    assert!(matches!(creds.resolve_secrets(&secrets), LocationCredentials::Config { file } if file == "cfg"));
    let creds = LocationCredentials::SshCertificate {
        username: "plain".to_string(),
        certificate: "s$missing".to_string(),
        passphrase: Some("s$kubeconfig".to_string()),
    };
    match creds.resolve_secrets(&secrets) {
        LocationCredentials::SshCertificate { username, certificate, passphrase } => {
            assert_eq!(username, "plain");
            assert_eq!(certificate, "s$missing");
            assert_eq!(passphrase, Some("cfg".to_string()));
        },
        other => panic!("unexpected: {:?}", other),
    }
    assert_eq!(creds_type(), "SshPassword");
}

fn creds_type() -> &'static str {
    LocationCredentials::SshPassword { username: String::new(), password: String::new() }.cred_type()
}

#[test]
fn locations_are_found_by_name() {
    let doc = InfrastructureDocument { locations: vec![("a".to_string(), kube("first")), ("b".to_string(), kube("second"))] };
    assert_eq!(doc.get_locations(), vec!["a".to_string(), "b".to_string()]);
    assert_eq!(doc.get_location_metadata("b".to_string()).unwrap().get_address(), "second");
    match doc.get_location_metadata("c".to_string()) {
        Err(InfrastructureError::UnknownLocation { location }) => assert_eq!(location, "c"),
        other => panic!("unexpected: {:?}", other),
    }
}
