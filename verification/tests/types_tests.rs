use multiservice_discovery::definition::Definition;
use multiservice_discovery::definition::FSDefinition;
use multiservice_discovery::definition::cache_path;
use multiservice_discovery::definition::sanitize_name;
use multiservice_discovery::management_types::Health;
use multiservice_discovery::management_types::Network;
use multiservice_discovery::management_types::NodeFeature;
use multiservice_discovery::supervisor::persist_retry_delays;

#[test]
fn sanitize_name_replaces_path_escaping_characters() {
    assert_eq!(sanitize_name("mercury"), "mercury");
    assert_eq!(sanitize_name("a.b/c"), "a_b_c");
    assert_eq!(sanitize_name("../../etc/passwd"), "______etc_passwd");
    assert_eq!(sanitize_name(""), "");
}

#[test]
fn cache_path_is_a_direct_child_of_the_root() {
    assert_eq!(cache_path("/var/cache", "mercury"), "/var/cache/mercury");
    assert_eq!(cache_path("/var/cache", "a.b/c"), "/var/cache/a_b_c");
}

#[test]
fn definition_new_derives_its_cache_path_from_the_name() {
    let d = Definition::new(
        vec!["http://u1".to_string()],
        "/var/cache",
        "staging./net".to_string(),
        Some(vec![9, 9]),
        30,
        15,
    );
    assert_eq!(d.name, "staging./net");
    assert_eq!(d.registry_path, "/var/cache/staging__net");
    assert_eq!(d.public_key, Some(vec![9, 9]));
    assert_eq!(d.poll_interval, 30);
    assert_eq!(d.registry_query_timeout, 15);
    assert!(d.boundary_nodes.is_empty());
}

#[test]
fn definition_and_persisted_form_convert_field_for_field() {
    let d = Definition::new(
        vec!["http://u1".to_string(), "http://u2".to_string()],
        "/var/cache",
        "alpha".to_string(),
        None,
        10,
        5,
    );
    let fs = FSDefinition::from(d);
    assert_eq!(fs.name, "alpha");
    assert_eq!(fs.nns_urls, vec!["http://u1", "http://u2"]);
    assert_eq!(fs.registry_path, "/var/cache/alpha");
    let back = Definition::from(fs);
    assert_eq!(back.name, "alpha");
    assert_eq!(back.nns_urls, vec!["http://u1", "http://u2"]);
    assert_eq!(back.registry_path, "/var/cache/alpha");
    assert_eq!(back.poll_interval, 10);
    assert_eq!(back.registry_query_timeout, 5);
}

#[test]
fn node_feature_variants_lists_every_feature_once() {
    let v = NodeFeature::variants();
    assert_eq!(
        v,
        vec![
            NodeFeature::NodeProvider,
            NodeFeature::DataCenter,
            NodeFeature::DataCenterOwner,
            NodeFeature::City,
            NodeFeature::Country,
            NodeFeature::Continent,
        ]
    );
}

#[test]
fn health_from_status_codes() {
    assert_eq!(Health::from(1), Health::Healthy);
    assert_eq!(Health::from(0), Health::Offline);
    assert_eq!(Health::from(7), Health::Unknown);
    assert_eq!(Health::from(-1), Health::Unknown);
}

#[test]
fn network_from_str_reads_names_and_urls() {
    assert!(matches!(Network::from_str("mainnet"), Ok(Network::Mainnet)));
    assert!(matches!(Network::from_str("staging"), Ok(Network::Staging)));
    // the url crate normalizes the parsed URL; an echoed input would fail here
    match Network::from_str("https://example.com") {
        Ok(Network::Url(u)) => assert_eq!(u, "https://example.com/"),
        _ => panic!("expected a parsed URL"),
    }
    match Network::from_str("HTTPS://EXAMPLE.com/x") {
        Ok(Network::Url(u)) => assert_eq!(u, "https://example.com/x"),
        _ => panic!("expected a parsed URL"),
    }
    assert!(Network::from_str("not a url").is_err());
}

#[test]
fn network_urls_are_the_well_known_addresses() {
    assert_eq!(Network::Mainnet.get_url(), "https://ic0.app");
    assert_eq!(
        Network::Staging.get_url(),
        "https://staging.release.dfinity.network"
    );
    assert_eq!(
        Network::Url("https://example.com/".to_string()).get_url(),
        "https://example.com/"
    );
}

#[test]
fn persistence_backoff_is_bounded_and_exponential() {
    assert_eq!(persist_retry_delays(), vec![10, 20, 40, 80, 160]);
}
