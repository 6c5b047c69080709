use fixer::network_policy::{ClientIdentity, TrustedProxyError, TrustedProxyPolicy, client_identity};

#[test]
fn trusted_proxy_policies_are_normalized() {
    let policy = TrustedProxyPolicy::new(
        &vec!["10.0.0.0/8".to_owned(), "192.168.0.0/16".to_owned(), "10.0.0.0/8".to_owned()],
        "X-Real-IP",
    )
    .unwrap();
    assert!(policy.is_enabled());
    assert_eq!(policy.client_ip_header(), Some("x-real-ip"));
    assert_eq!(
        policy.trusted_ranges(),
        &vec!["10.0.0.0/8".to_owned(), "192.168.0.0/16".to_owned()]
    );
    assert!(!TrustedProxyPolicy::disabled().is_enabled());
}

#[test]
fn trusted_proxy_policies_refuse_bad_input() {
    assert_eq!(
        TrustedProxyPolicy::new(&vec!["10.0.0.0/8".to_owned()], "bad header").unwrap_err(),
        TrustedProxyError::InvalidHeader("bad header".to_owned())
    );
    assert_eq!(
        TrustedProxyPolicy::new(&vec!["10.0.0.0/8".to_owned()], "Cookie").unwrap_err(),
        TrustedProxyError::CredentialHeader("cookie".to_owned())
    );
    assert_eq!(
        TrustedProxyPolicy::new(&vec!["nope".to_owned()], "x-forwarded-for").unwrap_err(),
        TrustedProxyError::InvalidRange("nope".to_owned())
    );
    assert_eq!(
        TrustedProxyPolicy::new(&vec![], "x-forwarded-for").unwrap_err(),
        TrustedProxyError::NoRanges
    );
    assert_eq!(client_identity(true, true, true), ClientIdentity::Forwarded);
    assert_eq!(client_identity(true, false, true), ClientIdentity::Peer);
}
