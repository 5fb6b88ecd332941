use arti_core::microdesc::{Microdesc, MicrodescAnnotation, NetDocReader};
use arti_core::netdoc::{Error, Keyword};
use arti_core::values::{Iso8601TimeSp, PortRange};

const TESTDATA: &str = "onion-key\n-----BEGIN RSA PUBLIC KEY-----\nMIGJAoGBALcX/0qxGRkQrhrs1TyNueEnQ7WFVfMDTMxAyQZJeiEL1Qq9unAfvrk0\nJBDGyc6JOHnXesp7vrPKxyh8Wzgm2x8T0hVQ0ohVThHMiMMLTd3avR0gIudPXefa\nPoXx5tfwTDIkqyZ9NK0rxu7bBLAMMUWIuqd3Pv5Zv1rZeIxMeUqxAgMBAAE=\n-----END RSA PUBLIC KEY-----\nntor-onion-key +QAN7N170OnITr+G+BR8ex3+K4UqaSvdYIHG2x9vZwE=\nfamily $0102030405060708090A0B0C0D0E0F1011121314 a0a1a2a3a4a5a6a7a8a9aaabacadaeafb0b1b2b3=nick\np accept 53,80,443-445\np6 reject 1-1023\nid rsa1024 AAAA\nid ed25519 nJTij7yG9WGg3AUXdXLz39BHX3GCqtq8/86FvDFaeY8\n";
const MINIMAL: &str = "onion-key\n-----BEGIN RSA PUBLIC KEY-----\nMIGJAoGBALcX/0qxGRkQrhrs1TyNueEnQ7WFVfMDTMxAyQZJeiEL1Qq9unAfvrk0\nJBDGyc6JOHnXesp7vrPKxyh8Wzgm2x8T0hVQ0ohVThHMiMMLTd3avR0gIudPXefa\nPoXx5tfwTDIkqyZ9NK0rxu7bBLAMMUWIuqd3Pv5Zv1rZeIxMeUqxAgMBAAE=\n-----END RSA PUBLIC KEY-----\nntor-onion-key +QAN7N170OnITr+G+BR8ex3+K4UqaSvdYIHG2x9vZwE=\n";
const KEY: &str = "onion-key\n-----BEGIN RSA PUBLIC KEY-----\nMIGJAoGBALcX/0qxGRkQrhrs1TyNueEnQ7WFVfMDTMxAyQZJeiEL1Qq9unAfvrk0\nJBDGyc6JOHnXesp7vrPKxyh8Wzgm2x8T0hVQ0ohVThHMiMMLTd3avR0gIudPXefa\nPoXx5tfwTDIkqyZ9NK0rxu7bBLAMMUWIuqd3Pv5Zv1rZeIxMeUqxAgMBAAE=\n-----END RSA PUBLIC KEY-----\n";
const KEY_2048: &str = "onion-key\n-----BEGIN RSA PUBLIC KEY-----\nMIIBCgKCAQEA0KAL+n/FWuXi3kYCuuPzBDZeUWZlBEQP8/BtZY7EDH8teB6O3yIM\nZD40MVghviBGi16+EZlXC+d5nujJuKHbsxbePH7rkP8n+U+2p2SJxA2e53jPOSLL\ncNwipf4E4ZRNuUs8kXKPQ4tOqZdrBwJ1RmuCrH79cIWKyw572zZmaQqyG95/ALdS\ngYj7Atm5CKUsEGqzdrGaYUYbpjwyzvdLH7R5BD/sckGi/mB02hu1TVoO1yFtJhcQ\noL3Foj/jwNFv6Sxmap6NE3qvL7DxzvAsEXYSvPJTNRJjhUGQDbxBM6KKrPcswhxA\n8M4AX99evJCY3j5EdoI5Z9B581GF+EErJQIDAQAB\n-----END RSA PUBLIC KEY-----\n";
const KEY_E3: &str = "onion-key\n-----BEGIN RSA PUBLIC KEY-----\nMIGHAoGBAPoQu0QKuQnWGcWKBIO1TGwWNADxa4/sQdgtd+ydJUt0faPWcUf1fWOg\nswpcqHlqdF3/L6079nF9hj4tdzYJ22n8d1GORXJ300Gy7+q790mZLm37uQls0Q/1\nVpk5SiQVhEgPQRJS/m49Jl5aLHk4S1Hp/4saiEzdpBmqoGXIg9UzAgED\n-----END RSA PUBLIC KEY-----\n";
const NTOR: &str = "ntor-onion-key +QAN7N170OnITr+G+BR8ex3+K4UqaSvdYIHG2x9vZwE=\n";
const STREAM: &str = "@last-listed 2020-01-27 18:23:34\nonion-key\n-----BEGIN RSA PUBLIC KEY-----\nMIGJAoGBALcX/0qxGRkQrhrs1TyNueEnQ7WFVfMDTMxAyQZJeiEL1Qq9unAfvrk0\nJBDGyc6JOHnXesp7vrPKxyh8Wzgm2x8T0hVQ0ohVThHMiMMLTd3avR0gIudPXefa\nPoXx5tfwTDIkqyZ9NK0rxu7bBLAMMUWIuqd3Pv5Zv1rZeIxMeUqxAgMBAAE=\n-----END RSA PUBLIC KEY-----\nntor-onion-key +QAN7N170OnITr+G+BR8ex3+K4UqaSvdYIHG2x9vZwE=\nfamily $0102030405060708090A0B0C0D0E0F1011121314 a0a1a2a3a4a5a6a7a8a9aaabacadaeafb0b1b2b3=nick\np accept 53,80,443-445\np6 reject 1-1023\nid rsa1024 AAAA\nid ed25519 nJTij7yG9WGg3AUXdXLz39BHX3GCqtq8/86FvDFaeY8\n@last-listed 2021-02-28 23:59:59\n@downloaded-at 2021-03-01 00:00:00\nonion-key\n-----BEGIN RSA PUBLIC KEY-----\nMIGJAoGBALcX/0qxGRkQrhrs1TyNueEnQ7WFVfMDTMxAyQZJeiEL1Qq9unAfvrk0\nJBDGyc6JOHnXesp7vrPKxyh8Wzgm2x8T0hVQ0ohVThHMiMMLTd3avR0gIudPXefa\nPoXx5tfwTDIkqyZ9NK0rxu7bBLAMMUWIuqd3Pv5Zv1rZeIxMeUqxAgMBAAE=\n-----END RSA PUBLIC KEY-----\nntor-onion-key +QAN7N170OnITr+G+BR8ex3+K4UqaSvdYIHG2x9vZwE=\n";

fn parse_err(s: &str) -> Error {
    match Microdesc::parse(s) {
        Ok(_) => panic!("parsed"),
        Err(e) => e,
    }
}

fn doc(parts: &[&str]) -> String {
    parts.concat()
}

#[test]
fn parse_arbitrary() {
    let _md = Microdesc::parse(TESTDATA).unwrap();
}

#[test]
fn canonical_document_fields() {
    let md = Microdesc::parse(TESTDATA).unwrap();
    assert_eq!(md.sha256(), &[0xc1, 0xbd, 0x37, 0xe5, 0x81, 0x71, 0x42, 0x8e, 0x38, 0xc3, 0x6c, 0x24, 0x93, 0x48, 0x1b, 0x37, 0x31, 0x15, 0xf9, 0x86, 0x1f, 0xe7, 0x14, 0x89, 0x61, 0xf8, 0xf5, 0xcf, 0x35, 0x5c, 0xb7, 0x07]);
    assert_eq!(md.tap_onion_key(), &[0x30, 0x81, 0x89, 0x02, 0x81, 0x81, 0x00, 0xb7, 0x17, 0xff, 0x4a, 0xb1, 0x19, 0x19, 0x10, 0xae, 0x1a, 0xec, 0xd5, 0x3c, 0x8d, 0xb9, 0xe1, 0x27, 0x43, 0xb5, 0x85, 0x55, 0xf3, 0x03, 0x4c, 0xcc, 0x40, 0xc9, 0x06, 0x49, 0x7a, 0x21, 0x0b, 0xd5, 0x0a, 0xbd, 0xba, 0x70, 0x1f, 0xbe, 0xb9, 0x34, 0x24, 0x10, 0xc6, 0xc9, 0xce, 0x89, 0x38, 0x79, 0xd7, 0x7a, 0xca, 0x7b, 0xbe, 0xb3, 0xca, 0xc7, 0x28, 0x7c, 0x5b, 0x38, 0x26, 0xdb, 0x1f, 0x13, 0xd2, 0x15, 0x50, 0xd2, 0x88, 0x55, 0x4e, 0x11, 0xcc, 0x88, 0xc3, 0x0b, 0x4d, 0xdd, 0xda, 0xbd, 0x1d, 0x20, 0x22, 0xe7, 0x4f, 0x5d, 0xe7, 0xda, 0x3e, 0x85, 0xf1, 0xe6, 0xd7, 0xf0, 0x4c, 0x32, 0x24, 0xab, 0x26, 0x7d, 0x34, 0xad, 0x2b, 0xc6, 0xee, 0xdb, 0x04, 0xb0, 0x0c, 0x31, 0x45, 0x88, 0xba, 0xa7, 0x77, 0x3e, 0xfe, 0x59, 0xbf, 0x5a, 0xd9, 0x78, 0x8c, 0x4c, 0x79, 0x4a, 0xb1, 0x02, 0x03, 0x01, 0x00, 0x01].to_vec());
    // 1024 bits of modulus, and the exponent 65537, in DER.
    assert_eq!(md.tap_onion_key().len(), 140);
    assert_eq!(&md.tap_onion_key()[135..], &[0x02, 0x03, 0x01, 0x00, 0x01]);
    assert_eq!(md.ntor_onion_key(), &[0xf9, 0x00, 0x0d, 0xec, 0xdd, 0x7b, 0xd0, 0xe9, 0xc8, 0x4e, 0xbf, 0x86, 0xf8, 0x14, 0x7c, 0x7b, 0x1d, 0xfe, 0x2b, 0x85, 0x2a, 0x69, 0x2b, 0xdd, 0x60, 0x81, 0xc6, 0xdb, 0x1f, 0x6f, 0x67, 0x01]);
    assert_eq!(md.ntor_onion_key().len(), 32);
    assert_eq!(
        md.family(),
        &vec![[0x01, 0x02, 0x03, 0x04, 0x05, 0x06, 0x07, 0x08, 0x09, 0x0a, 0x0b, 0x0c, 0x0d, 0x0e, 0x0f, 0x10, 0x11, 0x12, 0x13, 0x14], [0xa0, 0xa1, 0xa2, 0xa3, 0xa4, 0xa5, 0xa6, 0xa7, 0xa8, 0xa9, 0xaa, 0xab, 0xac, 0xad, 0xae, 0xaf, 0xb0, 0xb1, 0xb2, 0xb3]]
    );
    assert_eq!(
        md.ipv4_policy().ranges(),
        vec![
            PortRange { lo: 53, hi: 53 },
            PortRange { lo: 80, hi: 80 },
            PortRange { lo: 443, hi: 445 }
        ]
    );
    assert!(md.ipv4_policy().allows_port(444));
    assert!(!md.ipv4_policy().allows_port(446));
    assert_eq!(
        md.ipv6_policy().ranges(),
        vec![PortRange { lo: 1024, hi: 65535 }]
    );
    assert!(!md.ipv6_policy().allows_port(80));
    assert!(md.ipv6_policy().allows_port(8080));
    assert_eq!(md.ed25519_id(), &Some([0x9c, 0x94, 0xe2, 0x8f, 0xbc, 0x86, 0xf5, 0x61, 0xa0, 0xdc, 0x05, 0x17, 0x75, 0x72, 0xf3, 0xdf, 0xd0, 0x47, 0x5f, 0x71, 0x82, 0xaa, 0xda, 0xbc, 0xff, 0xce, 0x85, 0xbc, 0x31, 0x5a, 0x79, 0x8f]));
}

#[test]
fn policies_default_to_reject_all() {
    let md = Microdesc::parse(MINIMAL).unwrap();
    assert_eq!(md.sha256(), &[0x3e, 0xf1, 0xae, 0xc0, 0x71, 0xb2, 0x9b, 0x3e, 0x94, 0x3d, 0xda, 0xbf, 0xf3, 0xaa, 0xd0, 0x2e, 0x31, 0xcb, 0xed, 0x24, 0x1b, 0xf3, 0x23, 0x1f, 0x98, 0xff, 0xe4, 0xc7, 0x86, 0xcb, 0x09, 0xe4]);
    assert!(md.ipv4_policy().ranges().is_empty());
    assert!(md.ipv6_policy().ranges().is_empty());
    assert!(!md.ipv4_policy().allows_port(80));
    assert!(md.family().is_empty());
    assert_eq!(md.ed25519_id(), &None);
}

#[test]
fn parsing_is_repeatable() {
    let a = Microdesc::parse(TESTDATA).unwrap();
    let b = Microdesc::parse(TESTDATA).unwrap();
    assert_eq!(a.sha256(), b.sha256());
    assert_eq!(a.tap_onion_key(), b.tap_onion_key());
    assert_eq!(a.family(), b.family());
}

#[test]
fn second_onion_key_ends_the_descriptor() {
    let two = doc(&[TESTDATA, MINIMAL]);
    let mut reader = NetDocReader::new(&two);
    let first = Microdesc::parse_from_reader(&mut reader).unwrap();
    assert_eq!(reader.position(), TESTDATA.len());
    // The digest covers everything from the first keyword on.
    assert_eq!(first.sha256(), &[0xa6, 0xb6, 0x79, 0xcf, 0xb0, 0xa8, 0xf0, 0xb0, 0x30, 0x55, 0xe7, 0x9a, 0xf7, 0x63, 0xb8, 0x24, 0x22, 0x39, 0xe2, 0x1f, 0xfa, 0x76, 0x28, 0x59, 0xee, 0x43, 0xfa, 0x7d, 0x6d, 0x5e, 0x80, 0x3e]);
    assert_eq!(first.family().len(), 2);
    let second = Microdesc::parse_from_reader(&mut reader).unwrap();
    assert!(reader.is_exhausted());
    assert_eq!(second.sha256(), &[0x3e, 0xf1, 0xae, 0xc0, 0x71, 0xb2, 0x9b, 0x3e, 0x94, 0x3d, 0xda, 0xbf, 0xf3, 0xaa, 0xd0, 0x2e, 0x31, 0xcb, 0xed, 0x24, 0x1b, 0xf3, 0x23, 0x1f, 0x98, 0xff, 0xe4, 0xc7, 0x86, 0xcb, 0x09, 0xe4]);
    assert!(second.family().is_empty());
}

#[test]
fn stream_with_annotations() {
    let mut reader = NetDocReader::new(STREAM);
    let ann = MicrodescAnnotation::parse_from_reader(&mut reader).unwrap();
    assert_eq!(
        ann.last_listed,
        Some(Iso8601TimeSp { year: 2020, month: 1, day: 27, hour: 18, minute: 23, second: 34 })
    );
    assert_eq!(reader.position(), 33);
    let first = Microdesc::parse_from_reader(&mut reader).unwrap();
    assert_eq!(reader.position(), 560);
    assert_eq!(first.sha256(), &[0x45, 0x9d, 0x55, 0x56, 0x48, 0xd9, 0xaa, 0xc2, 0xbd, 0xb1, 0xd0, 0x72, 0xd6, 0x28, 0xe2, 0x81, 0x9e, 0xf5, 0x6b, 0x28, 0x66, 0x2a, 0x40, 0x7e, 0x5c, 0xff, 0xcd, 0xb9, 0xcc, 0x05, 0x05, 0x18]);
    let ann = MicrodescAnnotation::parse_from_reader(&mut reader).unwrap();
    assert_eq!(
        ann.last_listed,
        Some(Iso8601TimeSp { year: 2021, month: 2, day: 28, hour: 23, minute: 59, second: 59 })
    );
    assert_eq!(reader.position(), 628);
    let second = Microdesc::parse_from_reader(&mut reader).unwrap();
    assert!(reader.is_exhausted());
    assert_eq!(second.sha256(), &[0x3e, 0xf1, 0xae, 0xc0, 0x71, 0xb2, 0x9b, 0x3e, 0x94, 0x3d, 0xda, 0xbf, 0xf3, 0xaa, 0xd0, 0x2e, 0x31, 0xcb, 0xed, 0x24, 0x1b, 0xf3, 0x23, 0x1f, 0x98, 0xff, 0xe4, 0xc7, 0x86, 0xcb, 0x09, 0xe4]);
}

#[test]
fn annotations_may_be_absent() {
    let mut reader = NetDocReader::new(MINIMAL);
    let ann = MicrodescAnnotation::parse_from_reader(&mut reader).unwrap();
    assert_eq!(ann.last_listed, None);
    assert_eq!(reader.position(), 0);
}

#[test]
fn bad_annotations() {
    let mut reader = NetDocReader::new("@last-listed 2021-02-30 10:00:00\n");
    assert_eq!(
        MicrodescAnnotation::parse_from_reader(&mut reader),
        Err(Error::BadArgument(Keyword::AnnLastListed))
    );
    assert_eq!(reader.position(), 0);
    let mut reader = NetDocReader::new("@last-listed 2020-02-29 10:00:00\n");
    assert!(MicrodescAnnotation::parse_from_reader(&mut reader).is_ok());
    let mut reader = NetDocReader::new("@last-listed\n");
    assert_eq!(
        MicrodescAnnotation::parse_from_reader(&mut reader),
        Err(Error::TooFewArguments(Keyword::AnnLastListed))
    );
    let mut reader =
        NetDocReader::new("@last-listed 2020-02-29 10:00:00\n@last-listed 2020-02-29 10:00:00\n");
    assert_eq!(
        MicrodescAnnotation::parse_from_reader(&mut reader),
        Err(Error::DuplicateToken(Keyword::AnnLastListed))
    );
}

#[test]
fn has_to_start_with_onion_key() {
    assert_eq!(parse_err(""), Error::MissingToken(Keyword::OnionKey));
    assert_eq!(parse_err(NTOR), Error::MissingToken(Keyword::OnionKey));
    assert_eq!(parse_err(STREAM), Error::MissingToken(Keyword::OnionKey));
    assert_eq!(parse_err("onion-key"), Error::MissingToken(Keyword::OnionKey));
}

#[test]
fn missing_and_duplicate_items() {
    assert_eq!(parse_err(KEY), Error::MissingToken(Keyword::NtorOnionKey));
    assert_eq!(
        parse_err(&doc(&[KEY, NTOR, NTOR])),
        Error::DuplicateToken(Keyword::NtorOnionKey)
    );
    assert_eq!(
        parse_err(&doc(&[KEY, NTOR, "p accept 80\n", "p accept 81\n"])),
        Error::DuplicateToken(Keyword::P)
    );
    assert_eq!(
        parse_err(&doc(&[KEY, NTOR, "family\n"])),
        Error::TooFewArguments(Keyword::Family)
    );
    assert_eq!(
        parse_err(&doc(&[KEY, NTOR, "p6 accept\n"])),
        Error::TooFewArguments(Keyword::P6)
    );
    assert_eq!(
        parse_err(&doc(&[KEY, NTOR, "id ed25519\n"])),
        Error::TooFewArguments(Keyword::Id)
    );
    assert_eq!(
        parse_err(&doc(&[KEY, "ntor-onion-key\n"])),
        Error::TooFewArguments(Keyword::NtorOnionKey)
    );
}

#[test]
fn objects_where_they_belong() {
    assert_eq!(
        parse_err(&doc(&["onion-key\n", NTOR])),
        Error::MissingObject(Keyword::OnionKey)
    );
    assert_eq!(
        parse_err(&doc(&[&KEY.replacen("onion-key", "onion-key extra", 1), NTOR])),
        Error::TooManyArguments(Keyword::OnionKey)
    );
    let with_object = doc(&[KEY, "ntor-onion-key ", &KEY["onion-key".len()..].replacen("\n", "+QAN7N170OnITr+G+BR8ex3+K4UqaSvdYIHG2x9vZwE=\n", 1)]);
    assert_eq!(
        parse_err(&with_object),
        Error::UnexpectedObject(Keyword::NtorOnionKey)
    );
    assert_eq!(
        parse_err(&doc(&[&KEY.replace("RSA PUBLIC KEY", "PUBLIC KEY"), NTOR])),
        Error::WrongObject(Keyword::OnionKey)
    );
    // An object may follow a keyword that is not known.
    let extra = "extra\n-----BEGIN SOME THING-----\nAAAA\n-----END SOME THING-----\n";
    assert!(Microdesc::parse(&doc(&[KEY, extra, NTOR])).is_ok());
    assert_eq!(
        parse_err(&doc(&[KEY, &extra.replace("END SOME", "END NO"), NTOR])),
        Error::BadObjectEndTag
    );
    assert_eq!(
        parse_err(&doc(&[KEY, &extra.replace("THING-----\nAAAA", "THING----\nAAAA"), NTOR])),
        Error::BadObjectBeginTag
    );
    assert_eq!(
        parse_err(&doc(&[KEY, &extra.replace("BEGIN SOME THING", "BEGIN SOME_THING"), NTOR])),
        Error::BadObjectBeginTag
    );
    assert_eq!(
        parse_err(&doc(&[KEY, &extra[..extra.len() - 30]])),
        Error::BadObjectEndTag
    );
    // A first item that cannot be read is no `onion-key`.
    assert_eq!(
        parse_err(&doc(&[&KEY.replace("BEGIN RSA", "BEGIN DSA"), NTOR])),
        Error::MissingToken(Keyword::OnionKey)
    );
}

#[test]
fn onion_key_has_to_be_rsa_1024_with_exponent_65537() {
    assert_eq!(
        parse_err(&doc(&[KEY_2048, NTOR])),
        Error::BadObjectVal(Keyword::OnionKey)
    );
    assert_eq!(
        parse_err(&doc(&[KEY_E3, NTOR])),
        Error::BadObjectVal(Keyword::OnionKey)
    );
    assert_eq!(
        parse_err(&doc(&[&KEY.replace("MIGJ", "M!GJ"), NTOR])),
        Error::BadObjectVal(Keyword::OnionKey)
    );
    assert_eq!(
        parse_err(&doc(&[&KEY.replace("MIGJ", "AAAA"), NTOR])),
        Error::BadObjectVal(Keyword::OnionKey)
    );
}

#[test]
fn bad_arguments() {
    assert_eq!(
        parse_err(&doc(&[KEY, "ntor-onion-key AAAA\n"])),
        Error::BadArgument(Keyword::NtorOnionKey)
    );
    assert_eq!(
        parse_err(&doc(&[KEY, "ntor-onion-key +QAN7N170OnITr+G+BR8ex3+K4UqaSvdYIHG2x9vZwE*\n"])),
        Error::BadArgument(Keyword::NtorOnionKey)
    );
    assert_eq!(
        parse_err(&doc(&[KEY, NTOR, "family $0102\n"])),
        Error::BadArgument(Keyword::Family)
    );
    assert_eq!(
        parse_err(&doc(&[KEY, NTOR, "family nickname\n"])),
        Error::BadArgument(Keyword::Family)
    );
    for p in ["p allow 80\n", "p accept 0\n", "p accept 80,70\n", "p accept 90-80\n",
              "p accept 65536\n", "p accept 80,\n", "p accept 80-\n", "p accept http\n"] {
        assert_eq!(parse_err(&doc(&[KEY, NTOR, p])), Error::BadArgument(Keyword::P));
    }
    assert_eq!(
        parse_err(&doc(&[KEY, NTOR, "p6 reject 1-65535,1\n"])),
        Error::BadArgument(Keyword::P6)
    );
    assert_eq!(
        parse_err(&doc(&[KEY, NTOR, "id ed25519 AAAA\n"])),
        Error::BadArgument(Keyword::Id)
    );
    // 32 bytes that are no point of the curve.
    assert_eq!(
        parse_err(&doc(&[KEY, NTOR, "id ed25519 AgAAAAAAAAAAAAAAAAAAAAAAAAAAAAAAAAAAAAAAAAA\n"])),
        Error::BadArgument(Keyword::Id)
    );
}

#[test]
fn policy_forms() {
    let md = Microdesc::parse(&doc(&[KEY, NTOR, "p reject 1-65535\n", "p6 accept 1-65535\n"])).unwrap();
    assert!(md.ipv4_policy().ranges().is_empty());
    assert_eq!(md.ipv6_policy().ranges(), vec![PortRange { lo: 1, hi: 65535 }]);
    let md = Microdesc::parse(&doc(&[KEY, NTOR, "p reject 25,119,135-139\n"])).unwrap();
    assert_eq!(
        md.ipv4_policy().ranges(),
        vec![
            PortRange { lo: 1, hi: 24 },
            PortRange { lo: 26, hi: 118 },
            PortRange { lo: 120, hi: 134 },
            PortRange { lo: 140, hi: 65535 }
        ]
    );
}

#[test]
fn first_ed25519_id_is_taken() {
    let md = Microdesc::parse(&doc(&[
        KEY,
        NTOR,
        "id rsa1024 AgAAAAAAAAAAAAAAAAAAAAAAAAAAAAAAAAAAAAAAAAA\n",
        "id ed25519 nJTij7yG9WGg3AUXdXLz39BHX3GCqtq8/86FvDFaeY8\n",
        "id ed25519 AgAAAAAAAAAAAAAAAAAAAAAAAAAAAAAAAAAAAAAAAAA\n",
    ]))
    .unwrap();
    assert_eq!(md.ed25519_id(), &Some([0x9c, 0x94, 0xe2, 0x8f, 0xbc, 0x86, 0xf5, 0x61, 0xa0, 0xdc, 0x05, 0x17, 0x75, 0x72, 0xf3, 0xdf, 0xd0, 0x47, 0x5f, 0x71, 0x82, 0xaa, 0xda, 0xbc, 0xff, 0xce, 0x85, 0xbc, 0x31, 0x5a, 0x79, 0x8f]));
    // Padding is accepted where the length calls for it.
    let md = Microdesc::parse(&doc(&[KEY, NTOR, "id ed25519 nJTij7yG9WGg3AUXdXLz39BHX3GCqtq8/86FvDFaeY8=\n"])).unwrap();
    assert_eq!(md.ed25519_id(), &Some([0x9c, 0x94, 0xe2, 0x8f, 0xbc, 0x86, 0xf5, 0x61, 0xa0, 0xdc, 0x05, 0x17, 0x75, 0x72, 0xf3, 0xdf, 0xd0, 0x47, 0x5f, 0x71, 0x82, 0xaa, 0xda, 0xbc, 0xff, 0xce, 0x85, 0xbc, 0x31, 0x5a, 0x79, 0x8f]));
}

#[test]
fn malformed_lines() {
    assert_eq!(parse_err(&doc(&[KEY, "ntor-onion-key AAAA"])), Error::TruncatedLine);
    assert_eq!(parse_err(&doc(&[KEY, "-bad x\n", NTOR])), Error::BadKeyword);
    assert_eq!(parse_err(&doc(&[KEY, "bad_word x\n", NTOR])), Error::BadKeyword);
    assert_eq!(parse_err(&doc(&[KEY, "\n", NTOR])), Error::BadKeyword);
}

#[test]
fn unrecognized_items_are_skipped() {
    let md = Microdesc::parse(&doc(&[KEY, "a 127.0.0.1:9001\n", NTOR, "pr Link=1-5\n"])).unwrap();
    assert_eq!(md.ntor_onion_key(), &[0xf9, 0x00, 0x0d, 0xec, 0xdd, 0x7b, 0xd0, 0xe9, 0xc8, 0x4e, 0xbf, 0x86, 0xf8, 0x14, 0x7c, 0x7b, 0x1d, 0xfe, 0x2b, 0x85, 0x2a, 0x69, 0x2b, 0xdd, 0x60, 0x81, 0xc6, 0xdb, 0x1f, 0x6f, 0x67, 0x01]);
}

#[test]
fn times_as_seconds() {
    let t = |year, month, day, hour, minute, second| Iso8601TimeSp {
        year,
        month,
        day,
        hour,
        minute,
        second,
    };
    assert_eq!(t(2020, 1, 27, 18, 23, 34).unix_seconds(), Some(1580149414));
    assert_eq!(t(1970, 1, 1, 0, 0, 0).unix_seconds(), Some(0));
    assert_eq!(t(2000, 3, 1, 0, 0, 0).unix_seconds(), Some(951868800));
    assert_eq!(t(9999, 12, 31, 23, 59, 59).unix_seconds(), Some(253402300799));
    assert_eq!(t(1969, 12, 31, 23, 59, 59).unix_seconds(), None);
    assert_eq!(t(2021, 2, 29, 0, 0, 0).unix_seconds(), None);
    assert_eq!(t(2021, 13, 1, 0, 0, 0).unix_seconds(), None);
    assert_eq!(t(2021, 1, 1, 24, 0, 0).unix_seconds(), None);
}
