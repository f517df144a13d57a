use multiservice_discovery::clients::DashboardBackendClient;
use multiservice_discovery::management_types::contains_substring;
use multiservice_discovery::management_types::split_on_dots;
use multiservice_discovery::management_types::FactsDBGuest;
use multiservice_discovery::management_types::Guest;
use multiservice_discovery::management_types::Network;

fn facts(physical_system: &str, node_type: &str, segment4: u16) -> FactsDBGuest {
    FactsDBGuest {
        name: "host01".to_string(),
        node_type: node_type.to_string(),
        ipv6: [0x2001, 0x920, 0, 0, segment4, 0, 0, 1],
        principal: "p-0".to_string(),
        subnet: "s-0".to_string(),
        physical_system: physical_system.to_string(),
    }
}

#[test]
fn split_on_dots_keeps_every_component() {
    assert_eq!(split_on_dots("a.b.c"), vec!["a", "b", "c"]);
    assert_eq!(split_on_dots("host"), vec!["host"]);
    assert_eq!(split_on_dots(".x."), vec!["", "x", ""]);
    assert_eq!(split_on_dots(""), vec![""]);
}

#[test]
fn contains_substring_finds_patterns_anywhere() {
    assert!(contains_substring("dfinity-node", "dfinity"));
    assert!(contains_substring("a dfinity b", "dfinity"));
    assert!(contains_substring("x", ""));
    assert!(!contains_substring("dfinit", "dfinity"));
    assert!(!contains_substring("Dfinity", "dfinity"));
}

#[test]
fn guest_identity_comes_from_the_physical_system_name() {
    let g = Guest::from_facts(facts("host01.zh1.dc.example", "dfinity-owned", 0x6801));
    assert_eq!(g.name, "host01");
    assert_eq!(g.datacenter, "zh1");
    assert!(g.dfinity_owned);
    assert!(g.decentralized);

    let g = Guest::from_facts(facts("node7.fr2", "external", 0x6800));
    assert_eq!(g.name, "node7");
    assert_eq!(g.datacenter, "fr2");
    assert!(!g.dfinity_owned);
    assert!(!g.decentralized);
}

#[test]
fn dashboard_backend_client_url() {
    assert_eq!(
        DashboardBackendClient::new(Network::Mainnet, false).unwrap().url,
        "https://dashboard.internal.dfinity.network/api/proxy/registry/mainnet/"
    );
    assert_eq!(
        DashboardBackendClient::new(Network::Staging, false).unwrap().url,
        "https://dashboard.internal.dfinity.network/api/proxy/registry/staging/"
    );
    assert_eq!(
        DashboardBackendClient::new(Network::Mainnet, true).unwrap().url,
        "http://localhost:17000/api/proxy/registry/mainnet/"
    );
    assert_eq!(
        DashboardBackendClient::new(Network::Staging, true).unwrap().url,
        "http://localhost:17000/api/proxy/registry/staging/"
    );
}
