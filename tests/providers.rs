use wapi::providers::{is_supported, retain_latest_supported, without_provider};
use wapi::DNSProvider;
use wapi::address::{is_ipv4, is_ipv6};

fn provider(id: &str, api_key: &str) -> DNSProvider {
    DNSProvider { id: id.to_string(), api_key: api_key.to_string(), secret_api_key: format!("secret-{}", api_key) }
}

#[test]
fn whitelist_is_exact() {
    assert!(is_supported(&"namecheap".to_string()));
    assert!(is_supported(&"resellerclub".to_string()));
    assert!(!is_supported(&"NameCheap".to_string()));
    assert!(!is_supported(&"namecheap ".to_string()));
    assert!(!is_supported(&String::new()));
}

#[test]
fn retain_latest_supported_on_empty_and_mixed_lists() {
    assert!(retain_latest_supported(&Vec::new()).is_empty());
    let v = vec![provider("ovh", "1"), provider("ovh", "2"), provider("bogus", "3"), provider("epik", "4"), provider("ovh", "5")];
    let r = retain_latest_supported(&v);
    let got: Vec<(String, String)> = r.iter().map(|p| (p.id.clone(), p.api_key.clone())).collect();
    assert_eq!(got, vec![("epik".to_string(), "4".to_string()), ("ovh".to_string(), "5".to_string())]);
    assert_eq!(r[1].secret_api_key, "secret-5");
}

#[test]
fn without_provider_drops_every_match_and_keeps_order() {
    let v = vec![provider("ovh", "1"), provider("epik", "2"), provider("ovh", "3"), provider("gandi", "4")];
    let r = without_provider(&v, &"ovh".to_string());
    let got: Vec<String> = r.iter().map(|p| p.api_key.clone()).collect();
    assert_eq!(got, vec!["2".to_string(), "4".to_string()]);
    let same = without_provider(&v, &"hover".to_string());
    assert_eq!(same.len(), 4);
}

#[test]
fn address_checks_use_the_parsers() {
    assert!(is_ipv4("127.0.0.1"));
    assert!(is_ipv4("0.0.0.0"));
    assert!(!is_ipv4("127.0.0.1.5"));
    assert!(!is_ipv4("localhost"));
    assert!(is_ipv6("::ffff:192.0.2.1"));
    assert!(is_ipv6("0:0:0:0:0:0:0:0"));
    assert!(!is_ipv6("127.0.0.1"));
    assert!(!is_ipv6(":::"));
}
