use arti_core::authority::{AuthCert, AuthCertKeyIds, Authority, RsaIdentity};
use arti_core::connector::{
    after_dial, uri_to_host_port_tls, AfterDial, ConnectionError, ErrorKind, RequestUri,
    UriScheme, UseTls,
};
use arti_core::params::{
    padding_parameters, ChannelsParams, NetDirExtract, NetParameters, PaddingLevel,
    PaddingParameters, PaddingParametersBuilder, ParametersError,
};
use arti_core::time::Duration;

fn uri(scheme: UriScheme, host: Option<&str>, port: Option<u16>, text: &str) -> RequestUri {
    RequestUri {
        scheme,
        host: host.map(|h| h.to_string()),
        port,
        text: text.to_string(),
    }
}

#[test]
fn http_and_https_requests() {
    let r = uri_to_host_port_tls(uri(
        UriScheme::Http,
        Some("example.onion"),
        None,
        "http://example.onion/",
    ));
    assert!(matches!(r, Ok((h, 80, UseTls::Bare)) if h == "example.onion"));
    let r = uri_to_host_port_tls(uri(
        UriScheme::Https,
        Some("example.onion"),
        None,
        "https://example.onion/",
    ));
    assert!(matches!(r, Ok((h, 443, UseTls::Tls)) if h == "example.onion"));
    let r = uri_to_host_port_tls(uri(
        UriScheme::Http,
        Some("example.com"),
        Some(8080),
        "http://example.com:8080/",
    ));
    assert!(matches!(r, Ok((h, 8080, UseTls::Bare)) if h == "example.com"));
    let r = uri_to_host_port_tls(uri(
        UriScheme::Https,
        Some("example.com"),
        Some(80),
        "https://example.com:80/",
    ));
    assert!(matches!(r, Ok((h, 80, UseTls::Tls)) if h == "example.com"));
}

#[test]
fn requests_that_are_refused() {
    let r = uri_to_host_port_tls(uri(
        UriScheme::Other,
        Some("example.com"),
        None,
        "ftp://example.com/",
    ));
    match r {
        Err(e @ ConnectionError::UnsupportedUriScheme { .. }) => {
            assert_eq!(e.kind(), ErrorKind::NotImplemented);
            assert!(matches!(e, ConnectionError::UnsupportedUriScheme { uri } if uri == "ftp://example.com/"));
        }
        _ => panic!(),
    }
    // The scheme is looked at first.
    let r = uri_to_host_port_tls(uri(UriScheme::Other, None, None, "/index.html"));
    assert!(matches!(r, Err(ConnectionError::UnsupportedUriScheme { .. })));
    let r = uri_to_host_port_tls(uri(UriScheme::Http, None, Some(80), "http:"));
    match r {
        Err(e @ ConnectionError::MissingHostname { .. }) => {
            assert_eq!(e.kind(), ErrorKind::BadApiUsage);
            assert!(matches!(e, ConnectionError::MissingHostname { uri } if uri == "http:"));
        }
        _ => panic!(),
    }
    assert_eq!(ConnectionError::Arti.kind(), ErrorKind::OfOnionError);
    assert_eq!(ConnectionError::TLS.kind(), ErrorKind::RemoteProtocolFailed);
}

#[test]
fn steps_of_a_connection() {
    assert_eq!(after_dial(UseTls::Bare, true), AfterDial::ServePlain);
    assert_eq!(after_dial(UseTls::Tls, true), AfterDial::Handshake);
    assert_eq!(after_dial(UseTls::Bare, false), AfterDial::Fail);
    assert_eq!(after_dial(UseTls::Tls, false), AfterDial::Fail);
}

#[test]
fn authority_matches_by_identity_key() {
    let id = RsaIdentity::from([7u8; 20]);
    let other = RsaIdentity::from_bytes(b"xyzzyxyzzyxyzzyxyzzy").unwrap();
    assert_eq!(other.to_bytes(), *b"xyzzyxyzzyxyzzyxyzzy");
    assert!(RsaIdentity::from_bytes(b"xyzzy").is_none());
    let auth = Authority::new("moria1".to_string(), id);
    let ids = AuthCertKeyIds {
        id_fingerprint: id,
        sk_fingerprint: other,
    };
    assert!(auth.matches_keyid(&ids));
    assert!(auth.matches_cert(&AuthCert { key_ids: ids }));
    // The signing key does not count.
    let swapped = AuthCertKeyIds {
        id_fingerprint: other,
        sk_fingerprint: id,
    };
    assert!(!auth.matches_keyid(&swapped));
    assert!(!auth.matches_cert(&AuthCert { key_ids: swapped }));
    let mut near = [7u8; 20];
    near[19] = 8;
    assert!(!id.same(&RsaIdentity::from(near)));
    assert!(id.same(&RsaIdentity::from([7u8; 20])));
}

fn timing(p: PaddingParameters) -> (u32, u32) {
    (p.low_ms(), p.high_ms())
}

fn extract(low: i32, high: i32, low_reduced: i32, high_reduced: i32) -> NetDirExtract {
    NetDirExtract::from(&NetParameters {
        nf_ito_low: low,
        nf_ito_high: high,
        nf_ito_low_reduced: low_reduced,
        nf_ito_high_reduced: high_reduced,
    })
}

#[test]
fn padding_from_consensus() {
    let n = extract(2000, 3000, 4000, 5000);
    assert_eq!(n.nf_ito, [[2000, 3000], [4000, 5000]]);
    assert_eq!(
        timing(padding_parameters(PaddingLevel::Normal, Ok(&n)).unwrap()),
        (2000, 3000)
    );
    assert_eq!(
        timing(padding_parameters(PaddingLevel::Reduced, Ok(&n)).unwrap()),
        (4000, 5000)
    );
    assert_eq!(
        timing(padding_parameters(PaddingLevel::Disabled, Ok(&n)).unwrap()),
        (0, 0)
    );
    let n = extract(7, 7, 0, 60000);
    assert_eq!(
        timing(padding_parameters(PaddingLevel::Normal, Ok(&n)).unwrap()),
        (7, 7)
    );
    assert_eq!(
        timing(padding_parameters(PaddingLevel::Reduced, Ok(&n)).unwrap()),
        (0, 60000)
    );
}

#[test]
fn padding_without_consensus() {
    assert_eq!(
        timing(padding_parameters(PaddingLevel::Normal, Err(&())).unwrap()),
        (1500, 9500)
    );
    assert_eq!(
        timing(padding_parameters(PaddingLevel::Reduced, Err(&())).unwrap()),
        (9000, 14000)
    );
    assert_eq!(
        timing(padding_parameters(PaddingLevel::Disabled, Err(&())).unwrap()),
        (0, 0)
    );
}

#[test]
fn padding_from_a_bad_consensus() {
    // Out of order, or negative: the defaults of the level take over.
    let n = extract(3000, 2000, 5000, 4999);
    assert_eq!(
        timing(padding_parameters(PaddingLevel::Normal, Ok(&n)).unwrap()),
        (1500, 9500)
    );
    assert_eq!(
        timing(padding_parameters(PaddingLevel::Reduced, Ok(&n)).unwrap()),
        (9000, 14000)
    );
    let n = extract(1000, 60001, 9000, 14000);
    assert_eq!(
        timing(padding_parameters(PaddingLevel::Normal, Ok(&n)).unwrap()),
        (1500, 9500)
    );
    let n = extract(-1, 2000, 0, -5);
    assert_eq!(
        timing(padding_parameters(PaddingLevel::Normal, Ok(&n)).unwrap()),
        (1500, 9500)
    );
    assert_eq!(
        timing(padding_parameters(PaddingLevel::Reduced, Ok(&n)).unwrap()),
        (9000, 14000)
    );
}

#[test]
fn padding_parameters_builder() {
    assert_eq!(timing(PaddingParametersBuilder::default().build().unwrap()), (1500, 9500));
    assert_eq!(
        timing(PaddingParametersBuilder::default().low_ms(1234).build().unwrap()),
        (1234, 9500)
    );
    assert_eq!(
        timing(PaddingParametersBuilder::default().low_ms(1).high_ms(2).build().unwrap()),
        (1, 2)
    );
    assert_eq!(
        PaddingParametersBuilder::default().low_ms(9501).build(),
        Err(ParametersError::InvalidRange)
    );
    assert_eq!(
        PaddingParametersBuilder::default().high_ms(1499).build(),
        Err(ParametersError::InvalidRange)
    );
    assert_eq!(timing(PaddingParameters::default()), (1500, 9500));
    assert_eq!(timing(PaddingParameters::default_reduced()), (9000, 14000));
    assert_eq!(timing(PaddingParameters::all_zeroes()), (0, 0));
}

#[test]
fn update_reports_only_changes() {
    let mut params = ChannelsParams::default();
    assert!(!params.padding_enable);
    let same = PaddingParameters::default();
    let none = params.start_update().padding_parameters(same).finish(&mut params);
    assert_eq!(none, None);
    let reduced = PaddingParameters::default_reduced();
    let update = params
        .start_update()
        .padding_parameters(reduced)
        .finish(&mut params)
        .unwrap();
    assert_eq!(update.padding_parameters, Some(reduced));
    assert_eq!(update.padding_enable, None);
    assert_eq!(params.padding_parameters, reduced);
    // The same value again is no change.
    let none = params.start_update().padding_parameters(reduced).finish(&mut params);
    assert_eq!(none, None);
    let update = params
        .start_update()
        .padding_enable(true)
        .padding_parameters(same)
        .padding_enable(true)
        .finish(&mut params)
        .unwrap();
    assert_eq!(update.padding_enable, Some(true));
    assert_eq!(update.padding_parameters, Some(same));
    assert!(params.padding_enable);
}

#[test]
fn durations() {
    let a = Duration::from_secs(180);
    let b = Duration::from_millis(170_500);
    assert_eq!(a.as_secs(), 180);
    assert_eq!(b.as_secs(), 170);
    assert_eq!(b.subsec_nanos(), 500_000_000);
    let d = a.checked_sub(&b).unwrap();
    assert_eq!((d.as_secs(), d.subsec_nanos()), (9, 500_000_000));
    assert!(b.checked_sub(&a).is_none());
    let zero = a.checked_sub(&a).unwrap();
    assert_eq!((zero.as_secs(), zero.subsec_nanos()), (0, 0));
    assert!(b.le(&a));
    assert!(!a.le(&b));
    assert!(a.le(&a));
    assert_eq!(a.min(b).as_secs(), 170);
    assert_eq!(b.min(a).as_secs(), 170);
    let c = Duration::from_parts(1, 999_999_999).unwrap();
    assert!(Duration::from_parts(1, 1_000_000_000).is_none());
    let e = Duration::from_secs(2).checked_sub(&c).unwrap();
    assert_eq!((e.as_secs(), e.subsec_nanos()), (0, 1));
    assert_eq!(Duration::from_millis(u64::MAX).as_secs(), u64::MAX / 1000);
}
