use extensible_rate_limit::backend::input_builder::{ip_key, SimpleInputFunctionBuilder};

#[test]
fn test_ip_key() {
    // Check that IPv4 addresses are preserved
    assert_eq!(ip_key("142.250.187.206").unwrap(), "142.250.187.206");
    // Check that IPv4 mapped addresses are preserved
    assert_eq!(ip_key("::FFFF:142.250.187.206").unwrap(), "142.250.187.206");
    // Check that IPv6 addresses are grouped into /64 subnets
    assert_eq!(
        ip_key("2a00:1450:4009:81f::200e").unwrap(),
        "2a00:1450:4009:81f::/64"
    );
}

#[test]
fn test_ipv6_same_subnet_shares_key() {
    // Any two addresses inside one /64 block normalize to the same component.
    let a = ip_key("2a00:1450:4009:81f::200e").unwrap();
    let b = ip_key("2a00:1450:4009:81f:aaaa:bbbb:cccc:dddd").unwrap();
    assert_eq!(a, "2a00:1450:4009:81f::/64");
    assert_eq!(a, b);
}

#[test]
fn test_ip_key_more_v6_forms() {
    // A fully spelled-out address groups the same as its compressed form.
    assert_eq!(
        ip_key("2a00:1450:4009:081f:0000:0000:0000:200e").unwrap(),
        "2a00:1450:4009:81f::/64"
    );
    // Zero groups inside the kept prefix are rendered, not compressed.
    assert_eq!(ip_key("2a00:0:0:81f::1").unwrap(), "2a00:0:0:81f::/64");
    // Zero groups at the end of the kept prefix fold into the `::`.
    assert_eq!(ip_key("::ffff:0:0:0:1:2:3").unwrap(), "0:ffff::/64");
    // Only IPv4-mapped addresses convert: the all-zero and loopback
    // addresses group as /64 like any other IPv6 address.
    assert_eq!(ip_key("::").unwrap(), "::/64");
    assert_eq!(ip_key("::1").unwrap(), "::/64");
    assert_eq!(ip_key("::0.0.0.1").unwrap(), "::/64");
    // An embedded IPv4 address in the middle groups as IPv6.
    assert_eq!(ip_key("64:ff9b::1.2.3.4").unwrap(), "64:ff9b::/64");
}

#[test]
fn test_ip_key_folds_hex_case() {
    // Groups are rendered in lowercase whatever the input case.
    assert_eq!(
        ip_key("2A00:1450:4009:81F::200E").unwrap(),
        "2a00:1450:4009:81f::/64"
    );
}

#[test]
fn test_build_input_no_components() {
    // With nothing configured every request shares the one empty key.
    let builder = SimpleInputFunctionBuilder::new(1_000, 1);
    let input = builder.build_input(None, None, "/p", None).unwrap();
    assert_eq!(input.key, "");
}

#[test]
fn test_ip_key_malformed() {
    assert!(ip_key("").is_err());
    assert!(ip_key("not an ip").is_err());
    assert!(ip_key("256.0.0.1").is_err());
    assert!(ip_key("01.2.3.4").is_err());
    assert!(ip_key("1.2.3").is_err());
    assert!(ip_key("1.2.3.4.5").is_err());
    assert!(ip_key("1:2:3:4:5:6:7:8:9").is_err());
    assert!(ip_key("1::2::3").is_err());
    assert!(ip_key("1:2:3:4:5:6:7:8::").is_err());
    assert!(ip_key("12345::").is_err());
    assert!(ip_key(":1::").is_err());
}

#[test]
fn test_build_input_components() {
    let builder = SimpleInputFunctionBuilder::new(60_000, 5)
        .custom_key("api")
        .real_ip_key()
        .path_key();
    let input = builder
        .build_input(Some("2a00:1450:4009:81f::200e"), None, "/send", None)
        .unwrap();
    assert_eq!(input.interval, 60_000);
    assert_eq!(input.max_requests, 5);
    assert_eq!(input.key, "api-2a00:1450:4009:81f::/64-/send");
}

#[test]
fn test_build_input_peer_and_custom() {
    let builder = SimpleInputFunctionBuilder::new(1_000, 1).peer_ip_key();
    let input = builder
        .build_input(None, Some("127.0.0.1"), "/ignored", Some("user42".to_string()))
        .unwrap();
    assert_eq!(input.key, "127.0.0.1-user42");
}

#[test]
fn test_build_input_malformed_address_fails() {
    let builder = SimpleInputFunctionBuilder::new(1_000, 1).real_ip_key();
    assert!(builder
        .build_input(Some("not an ip"), None, "/", None)
        .is_err());
}
