use openehr_base::foundation_types::Any;
use openehr_base::uri::characters::CharSet;
use openehr_base::uri::codec::{decode_element, encode_element};
use openehr_base::uri::context::Context;
use openehr_base::uri::ipv4_address::validate_ipv4_address;
use openehr_base::uri::ipv6_address::validate_ipv6_address;
use openehr_base::{AbsoluteUri, Authority, Error, Uri};

fn resolve(base: &str, reference: &str) -> String {
    let base = Uri::parse(base).unwrap();
    let reference = Uri::parse(reference).unwrap();
    base.resolve(&reference).to_string()
}

#[test]
fn parse_splits_components() {
    let uri = Uri::parse("http://www.example.com/foo?bar#baz").unwrap();
    assert_eq!(uri.scheme(), Some("http"));
    assert_eq!(uri.authority().unwrap().host(), "www.example.com".as_bytes());
    assert_eq!(uri.host_to_string().unwrap().as_deref(), Some("www.example.com"));
    assert_eq!(uri.path_to_string().unwrap(), "/foo");
    assert_eq!(uri.query_to_string().unwrap().as_deref(), Some("bar"));
    assert_eq!(uri.fragment_to_string().unwrap().as_deref(), Some("baz"));
    assert_eq!(uri.to_string(), "http://www.example.com/foo?bar#baz");
}

#[test]
fn normalize_removes_dot_segments() {
    let mut uri = Uri::parse("/a/b/c/./../../g").unwrap();
    uri.normalize();
    assert_eq!(uri.path_to_string().unwrap(), "/a/g");
    assert_eq!(uri.to_string(), "/a/g");
}

#[test]
fn normalize_twice_changes_nothing_more() {
    let mut uri = Uri::parse("a//./b/../..//c/.").unwrap();
    uri.normalize();
    let once = uri.path().clone();
    uri.normalize();
    assert_eq!(uri.path(), &once);
}

#[test]
fn resolve_relative_path_with_query_and_fragment() {
    assert_eq!(resolve("http://a/b/c/d;p?q", "g;x?y#s"), "http://a/b/c/g;x?y#s");
}

#[test]
fn resolve_reference_examples() {
    assert_eq!(resolve("http://a/b/c/d;p?q", "g"), "http://a/b/c/g");
    assert_eq!(resolve("http://a/b/c/d;p?q", "./g"), "http://a/b/c/g");
    assert_eq!(resolve("http://a/b/c/d;p?q", "g/"), "http://a/b/c/g/");
    assert_eq!(resolve("http://a/b/c/d;p?q", "/g"), "http://a/g");
    assert_eq!(resolve("http://a/b/c/d;p?q", "?y"), "http://a/b/c/d;p?y");
    assert_eq!(resolve("http://a/b/c/d;p?q", "#s"), "http://a/b/c/d;p?q#s");
    assert_eq!(resolve("http://a/b/c/d;p?q", "../g"), "http://a/b/g");
    assert_eq!(resolve("http://a/b/c/d;p?q", "../.."), "http://a/");
    assert_eq!(resolve("http://a/b/c/d;p?q", "g:h"), "g:h");
}

#[test]
fn authority_parse_splits_user_host_port() {
    let authority = Authority::parse("user@host:8080").unwrap();
    assert_eq!(authority.user_info(), Some("user".as_bytes()));
    assert_eq!(authority.host(), "host".as_bytes());
    assert_eq!(authority.port(), Some(8080));
    assert_eq!(authority.to_string(), "user@host:8080");
}

#[test]
fn authority_parse_rejects_large_port() {
    assert!(matches!(Authority::parse("host:99999"), Err(Error::IllegalPortNumber(_))));
    assert!(matches!(Authority::parse("host:8x"), Err(Error::IllegalPortNumber(_))));
}

#[test]
fn authority_parse_empty_port_is_none() {
    let authority = Authority::parse("host:").unwrap();
    assert_eq!(authority.port(), None);
}

#[test]
fn authority_parse_host_errors() {
    assert_eq!(Authority::parse("[::1").unwrap_err(), Error::TruncatedHost);
    assert_eq!(
        Authority::parse("[::1]x").unwrap_err(),
        Error::IllegalCharacter(Context::Host)
    );
    assert_eq!(Authority::parse("us%ZZ@host").unwrap_err(), Error::IllegalPercentEncoding);
    assert_eq!(Authority::parse("ho^st").unwrap_err(), Error::IllegalCharacter(Context::Host));
}

#[test]
fn ipv4_validation_errors() {
    assert_eq!(validate_ipv4_address("1.2.3.256"), Err(Error::InvalidDecimalOctet));
    assert_eq!(validate_ipv4_address("1.2.3"), Err(Error::TooFewAddressParts));
    assert_eq!(validate_ipv4_address("1.2.3.4.5"), Err(Error::TooManyAddressParts));
    assert_eq!(validate_ipv4_address("1.2.3."), Err(Error::TruncatedHost));
    assert_eq!(
        validate_ipv4_address("1.2.x.4"),
        Err(Error::IllegalCharacter(Context::Ipv4Address))
    );
    assert_eq!(validate_ipv4_address("192.168.0.255"), Ok(()));
}

#[test]
fn ipv6_validation() {
    assert_eq!(validate_ipv6_address("::1"), Ok(()));
    assert_eq!(validate_ipv6_address("2001:db8:85a3:8d3:1319:8a2e:370:7348"), Ok(()));
    assert_eq!(validate_ipv6_address("::ffff:1.2.3.4"), Ok(()));
    assert_eq!(validate_ipv6_address("2001:db8:85a3::8a2e::"), Err(Error::TooManyDoubleColons));
    assert_eq!(validate_ipv6_address("20001:db8::1"), Err(Error::TooManyDigits));
    assert_eq!(validate_ipv6_address("2001:db8:85a3::8a2e:0:"), Err(Error::TruncatedHost));
    assert_eq!(validate_ipv6_address("::ffff:1.2.3.256"), Err(Error::InvalidDecimalOctet));
    assert_eq!(validate_ipv6_address("::ffff:1.2.3"), Err(Error::TooFewAddressParts));
    assert_eq!(validate_ipv6_address("1:2:3:4:5:6:7"), Err(Error::TooFewAddressParts));
    assert_eq!(validate_ipv6_address("1:2:3:4:5:6:7:8:9"), Err(Error::TooManyAddressParts));
    assert_eq!(
        validate_ipv6_address("1:2:g::"),
        Err(Error::IllegalCharacter(Context::Ipv6Address))
    );
}

#[test]
fn ipv6_host_round_trip() {
    let uri = Uri::parse("http://[::FFFF:1.2.3.4]:8080/x").unwrap();
    assert_eq!(uri.host(), Some("::FFFF:1.2.3.4".as_bytes()));
    assert_eq!(uri.port(), Some(8080));
    assert_eq!(uri.to_string(), "http://[::ffff:1.2.3.4]:8080/x");
}

#[test]
fn absolute_uri_needs_scheme() {
    let relative = Uri::parse("relative/path").unwrap();
    match AbsoluteUri::try_from(relative) {
        Err(Error::MissingScheme(e)) => {
            assert_eq!(e.uri_string, "relative/path");
            assert_eq!(e.message(), "missing scheme in uri: relative/path");
        },
        other => panic!("unexpected {:?}", other),
    }
    let absolute = AbsoluteUri::try_from(Uri::parse("http://x").unwrap()).unwrap();
    assert_eq!(absolute.scheme(), "http");
    assert_eq!(absolute.to_string(), "http://x/");
}

#[test]
fn absolute_uri_parse_and_resolve() {
    assert!(matches!(AbsoluteUri::parse("a/b"), Err(Error::MissingScheme(_))));
    assert_eq!(AbsoluteUri::parse("://x").unwrap_err(), Error::EmptyScheme);
    let base = AbsoluteUri::parse("http://a/b/c/d;p?q").unwrap();
    let resolved = base.resolve(&Uri::parse("../g").unwrap());
    assert_eq!(resolved.to_string(), "http://a/b/g");
    assert_eq!(resolved.scheme(), "http");
}

#[test]
fn absolute_uri_set_scheme() {
    let mut uri = AbsoluteUri::parse("http://x/").unwrap();
    assert_eq!(uri.set_scheme(""), Err(Error::EmptyScheme));
    assert_eq!(uri.set_scheme("1x"), Err(Error::IllegalCharacter(Context::Scheme)));
    assert_eq!(uri.scheme(), "http");
    assert_eq!(uri.set_scheme("ftp"), Ok(()));
    assert_eq!(uri.to_string(), "ftp://x/");
}

#[test]
fn parse_scheme_errors() {
    assert_eq!(Uri::parse("://x").unwrap_err(), Error::EmptyScheme);
    assert_eq!(Uri::parse("1http://x").unwrap_err(), Error::IllegalCharacter(Context::Scheme));
    assert_eq!(Uri::parse("HTTP://x/").unwrap().scheme(), Some("http"));
}

#[test]
fn parse_colon_after_query_is_no_scheme() {
    let uri = Uri::parse("foo?a:b").unwrap();
    assert_eq!(uri.scheme(), None);
    assert_eq!(uri.path_to_string().unwrap(), "foo");
    assert_eq!(uri.query(), Some("a:b".as_bytes()));
}

#[test]
fn parse_component_errors() {
    assert_eq!(Uri::parse("/a^b").unwrap_err(), Error::IllegalCharacter(Context::Path));
    assert_eq!(Uri::parse("/a?b^").unwrap_err(), Error::IllegalCharacter(Context::Query));
    assert_eq!(Uri::parse("/a#b^").unwrap_err(), Error::IllegalCharacter(Context::Fragment));
    assert_eq!(Uri::parse("/a%4").unwrap_err(), Error::IllegalPercentEncoding);
}

#[test]
fn path_special_forms() {
    assert_eq!(Uri::parse("").unwrap().path().len(), 0);
    assert_eq!(Uri::parse("/").unwrap().path(), &vec![Vec::<u8>::new()]);
    assert_eq!(Uri::parse("/").unwrap().to_string(), "/");
    let uri = Uri::parse("foo/bar/").unwrap();
    assert_eq!(uri.path(), &vec![b"foo".to_vec(), b"bar".to_vec(), Vec::new()]);
    assert!(uri.contains_relative_path());
    assert!(!Uri::parse("/foo").unwrap().contains_relative_path());
}

#[test]
fn query_plus_is_encoded_when_written() {
    let uri = Uri::parse("?a+b").unwrap();
    assert_eq!(uri.query(), Some("a+b".as_bytes()));
    assert_eq!(uri.to_string(), "?a%2Bb");
    assert_eq!(Uri::parse(uri.as_str()).unwrap().query(), Some("a+b".as_bytes()));
}

#[test]
fn codec_encodes_and_decodes() {
    assert_eq!(encode_element(b"a b", CharSet::PathChar), "a%20b");
    assert_eq!(encode_element(&[0xff, b'/'], CharSet::PathChar), "%FF%2F");
    assert_eq!(decode_element("a%20b", CharSet::PathChar, Context::Path), Ok(b"a b".to_vec()));
    assert_eq!(decode_element("%e2%82%ac", CharSet::PathChar, Context::Path), Ok(vec![0xe2, 0x82, 0xac]));
    assert_eq!(
        decode_element("%G1", CharSet::PathChar, Context::Path),
        Err(Error::IllegalPercentEncoding)
    );
    assert_eq!(
        decode_element("a^", CharSet::QueryOrFragment, Context::Query),
        Err(Error::IllegalCharacter(Context::Query))
    );
}

#[test]
fn codec_round_trip_on_all_bytes() {
    let bytes: Vec<u8> = (0..=255u8).collect();
    for set in [CharSet::PathChar, CharSet::UserInfo, CharSet::QueryWithoutPlus, CharSet::RegName] {
        let text = encode_element(&bytes, set);
        assert_eq!(decode_element(&text, set, Context::Path), Ok(bytes.clone()));
    }
}

#[test]
fn path_round_trip_through_text() {
    let mut uri = Uri::default();
    uri.set_path(vec![b"a".to_vec(), b"b c".to_vec(), Vec::new()]);
    assert_eq!(uri.to_string(), "a/b%20c/");
    let again = Uri::parse(uri.as_str()).unwrap();
    assert_eq!(again.path(), uri.path());
}

#[test]
fn build_from_components() {
    let mut uri = Uri::default();
    assert!(uri.set_scheme(Some(String::from("http"))).is_ok());
    let mut authority = Authority::default();
    authority.set_host(b"www.example.com".to_vec());
    uri.set_authority(Some(authority));
    uri.set_path_from_str("/foo");
    uri.set_query(Some(b"bar".to_vec()));
    uri.set_fragment(Some(b"baz".to_vec()));
    assert_eq!(uri.to_string(), "http://www.example.com/foo?bar#baz");
    assert!(!uri.is_relative_reference());
}

#[test]
fn set_scheme_rejects_bad_scheme() {
    let mut uri = Uri::parse("http://x/").unwrap();
    assert_eq!(uri.set_scheme(Some(String::from("1x"))), Err(Error::IllegalCharacter(Context::Scheme)));
    assert_eq!(uri.set_scheme(Some(String::new())), Err(Error::EmptyScheme));
    assert_eq!(uri.to_string(), "http://x/");
    assert_eq!(uri.set_scheme(None), Ok(()));
    assert_eq!(uri.to_string(), "//x/");
}

#[test]
fn to_string_fails_on_non_utf8() {
    let mut uri = Uri::default();
    uri.set_path(vec![vec![0xff]]);
    assert!(uri.path_to_string().is_err());
    uri.set_query(Some(vec![0xc3]));
    assert!(uri.query_to_string().is_err());
    assert_eq!(uri.to_string(), "%FF?%C3");
}

#[test]
fn user_info_is_decoded_and_encoded() {
    let uri = Uri::parse("http://us%20er:pw@h/").unwrap();
    assert_eq!(uri.user_info(), Some("us er:pw".as_bytes()));
    assert_eq!(uri.user_info_to_string().unwrap().as_deref(), Some("us er:pw"));
    assert_eq!(uri.to_string(), "http://us%20er:pw@h/");
}

#[test]
fn uri_is_equal_compares_written_form() {
    let a = Uri::parse("http://x/%41").unwrap();
    let b = Uri::parse("http://x/A").unwrap();
    let c = Uri::parse("http://x/B").unwrap();
    assert!(a.is_equal(&b));
    assert!(!a.is_equal(&c));
    assert!(a.is_equal(&a.clone()));
    assert!(a.instance_of("Uri"));
    assert_eq!(a.type_of(), "Uri");
}

#[test]
fn error_messages() {
    assert_eq!(Error::IllegalCharacter(Context::Query).message(), "illegal character in query");
    assert_eq!(Error::TruncatedHost.message(), "truncated host");
    let e = Authority::parse("h:x").unwrap_err();
    assert_eq!(e.message(), "illegal port number");
}
