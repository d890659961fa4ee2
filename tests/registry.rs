use jito_speedtest::{endpoints_for, get_mainnet_endpoints, get_testnet_endpoints};

fn names(e: &[jito_speedtest::Endpoint]) -> Vec<String> {
    e.iter().map(|x| x.name.clone()).collect()
}

#[test]
fn mainnet_profile_has_eight_endpoints_in_order() {
    let e = get_mainnet_endpoints();
    assert_eq!(e.len(), 8);
    assert_eq!(
        names(&e),
        vec![
            "🇯🇵 Tokyo",
            "🌐 Mainnet",
            "🇳🇱 Amsterdam",
            "🇩🇪 Frankfurt",
            "🇬🇧 London",
            "🇺🇸 New York",
            "🇺🇸 Salt Lake City",
            "🇸🇬 Singapore",
        ]
    );
    assert_eq!(e[0].url, "https://tokyo.mainnet.block-engine.jito.wtf");
    assert_eq!(e[7].url, "https://singapore.mainnet.block-engine.jito.wtf");
    assert!(e.iter().all(|x| !x.url.ends_with('/')));
}

#[test]
fn testnet_profile_has_three_endpoints_in_order() {
    let e = get_testnet_endpoints();
    assert_eq!(e.len(), 3);
    assert_eq!(
        names(&e),
        vec!["🌍 Testnet", "🇺🇸 Dallas (Testnet)", "🇺🇸 New York (Testnet)"]
    );
    assert_eq!(e[1].url, "https://dallas.testnet.block-engine.jito.wtf");
}

#[test]
fn profiles_are_stable_across_calls() {
    let a = get_mainnet_endpoints();
    let b = get_mainnet_endpoints();
    assert_eq!(names(&a), names(&b));
    let ua: Vec<String> = a.iter().map(|x| x.url.clone()).collect();
    let ub: Vec<String> = b.iter().map(|x| x.url.clone()).collect();
    assert_eq!(ua, ub);
    assert_eq!(names(&get_testnet_endpoints()), names(&get_testnet_endpoints()));
}

#[test]
fn testnet_selection_probes_only_testnet_endpoints() {
    let e = endpoints_for(true);
    assert_eq!(e.len(), 3);
    assert!(e.iter().all(|x| x.url.contains("testnet.block-engine")));
    assert!(e.iter().all(|x| !x.url.contains("mainnet.block-engine")));
    let m = endpoints_for(false);
    assert_eq!(m.len(), 8);
    assert!(m.iter().all(|x| x.url.contains("mainnet.block-engine")));
}
