use geodns::handler::{CodecError, Handler};
use geodns::name::DomainName;
use geodns::options::RecordType;
use geodns::rdata::{Property, RData, Url, Value};
use geodns::util::{caa_from_string, soa_from_string, srv_from_string};

fn handler() -> Handler {
    Handler { records: vec![], use_ip: None }
}

fn build(record_type: RecordType, value: &str, preference: Option<u16>) -> Result<RData, CodecError> {
    let name = DomainName::parse("www.example.com.").unwrap();
    handler().generate_record(&name, record_type, value, 77, preference).map(|a| {
        assert_eq!(a.ttl, 77);
        assert_eq!(a.name.text, "www.example.com.");
        assert_eq!(a.name.labels, name.labels);
        a.rdata
    })
}

fn label_text(name: &DomainName) -> Vec<String> {
    name.labels.iter().map(|l| String::from_utf8(l.clone()).unwrap()).collect()
}

#[test]
fn srv_value_is_read() {
    let srv = srv_from_string("10 20 5060 sip.example.com").unwrap();
    assert_eq!((srv.priority, srv.weight, srv.port), (10, 20, 5060));
    assert_eq!(srv.target.text, "sip.example.com");
    assert_eq!(label_text(&srv.target), vec!["sip", "example", "com"]);
    match build(RecordType::SRV, "10 20 5060 sip.example.com", None) {
        Ok(RData::SRV(s)) => assert_eq!((s.priority, s.weight, s.port), (10, 20, 5060)),
        other => panic!("{:?}", other),
    }
}

#[test]
fn srv_values_that_are_refused() {
    assert!(srv_from_string("").is_none());
    assert!(srv_from_string("10 20 5060").is_none());
    assert!(srv_from_string("10 20 5060 sip.example.com extra").is_none());
    assert!(srv_from_string("65536 20 5060 sip.example.com").is_none());
    assert!(srv_from_string("10 -1 5060 sip.example.com").is_none());
    assert!(srv_from_string("10 20 port sip.example.com").is_none());
    assert!(srv_from_string("10 20 5060 sip..example.com").is_none());
    assert_eq!(build(RecordType::SRV, "10 20", None).err(), Some(CodecError::MalformedValue));
}

#[test]
fn soa_value_is_read() {
    let soa =
        soa_from_string("ns.example.com. admin.example.com. 2024010101 7200 3600 1209600 300")
            .unwrap();
    assert_eq!(label_text(&soa.mname), vec!["ns", "example", "com"]);
    assert_eq!(label_text(&soa.rname), vec!["admin", "example", "com"]);
    assert_eq!(
        (soa.serial, soa.refresh, soa.retry, soa.expire, soa.minimum),
        (2024010101, 7200, 3600, 1209600, 300)
    );
    let soa = soa_from_string("  a  b\t4294967295 +1 007 0 3000000000 ").unwrap();
    assert_eq!(
        (soa.serial, soa.refresh, soa.retry, soa.expire, soa.minimum),
        (4294967295, 1, 7, 0, 3000000000)
    );
}

#[test]
fn soa_values_that_are_refused() {
    assert!(soa_from_string("ns.example.com admin.example.com 1 2 3 4").is_none());
    assert!(soa_from_string("ns.example.com admin.example.com 1 2 3 4 5 6").is_none());
    assert!(soa_from_string("ns.example.com admin.example.com 4294967296 2 3 4 5").is_none());
    assert!(soa_from_string("ns.example.com admin.example.com 1 -2 3 4 5").is_none());
    assert!(soa_from_string("ns.example.com admin.example.com 1 2 3 x 5").is_none());
    assert!(soa_from_string("ns..example.com admin.example.com 1 2 3 4 5").is_none());
    assert_eq!(build(RecordType::SOA, "a b c", None).err(), Some(CodecError::MalformedValue));
}

#[test]
fn caa_value_is_read() {
    let caa = caa_from_string("0 issue ca.example.net").unwrap();
    assert!(!caa.issuer_critical);
    assert_eq!(caa.tag, Property::Issue);
    match &caa.value {
        Value::Issuer(n) => assert_eq!(label_text(n), vec!["ca", "example", "net"]),
        other => panic!("{:?}", other),
    }
    let caa = caa_from_string("1 IssueWild ca.example.net").unwrap();
    assert!(caa.issuer_critical);
    assert_eq!(caa.tag, Property::IssueWild);
    let caa = caa_from_string("2 issue ca.example.net").unwrap();
    assert!(!caa.issuer_critical);
    let caa = caa_from_string("01 issue ca.example.net").unwrap();
    assert!(!caa.issuer_critical);
    let caa = caa_from_string("1 iodef HTTPS://Example.com/report").unwrap();
    assert_eq!(caa.tag, Property::Iodef);
    match &caa.value {
        Value::Url(u) => {
            assert_eq!(u.text, "HTTPS://Example.com/report");
            assert_eq!(u.href, "https://example.com/report");
        },
        other => panic!("{:?}", other),
    }
}

#[test]
fn caa_values_that_are_refused() {
    assert!(caa_from_string("").is_none());
    assert!(caa_from_string("0 issue").is_none());
    assert!(caa_from_string("0 issue ca.example.net extra").is_none());
    assert!(caa_from_string("0 contactemail ca.example.net").is_none());
    assert!(caa_from_string("0 iodef not-a-url").is_none());
    assert!(caa_from_string("0 issue ca..example.net").is_none());
    assert_eq!(build(RecordType::CAA, "0 unknown x", None).err(), Some(CodecError::MalformedValue));
}

#[test]
fn urls_are_read_by_the_url_parser() {
    let u = Url::parse("mailto:Security@Example.com").unwrap();
    assert_eq!(u.href, "mailto:Security@Example.com");
    let u = Url::parse("http://EXAMPLE.com").unwrap();
    assert_eq!(u.text, "http://EXAMPLE.com");
    assert_eq!(u.href, "http://example.com/");
    assert!(Url::parse("example.com/report").is_none());
    assert!(Url::parse("").is_none());
}

#[test]
fn addresses_are_read() {
    match build(RecordType::A, "5.6.7.8", None) {
        Ok(RData::A(a)) => assert_eq!(a, 0x0506_0708),
        other => panic!("{:?}", other),
    }
    match build(RecordType::AAAA, "2001:db8::1", None) {
        Ok(RData::AAAA(a)) => assert_eq!(a, 0x2001_0db8_0000_0000_0000_0000_0000_0001),
        other => panic!("{:?}", other),
    }
    assert_eq!(build(RecordType::A, "2001:db8::1", None).err(), Some(CodecError::MalformedValue));
    assert_eq!(build(RecordType::AAAA, "5.6.7.8", None).err(), Some(CodecError::MalformedValue));
    assert_eq!(build(RecordType::A, "", None).err(), Some(CodecError::MalformedValue));
}

#[test]
fn names_are_read() {
    match build(RecordType::CNAME, "target.example.com", None) {
        Ok(RData::CNAME(n)) => assert_eq!(label_text(&n), vec!["target", "example", "com"]),
        other => panic!("{:?}", other),
    }
    match build(RecordType::NS, "ns1.example.com.", None) {
        Ok(RData::NS(n)) => {
            assert_eq!(label_text(&n), vec!["ns1", "example", "com"]);
            assert!(n.fqdn);
        },
        other => panic!("{:?}", other),
    }
    assert_eq!(build(RecordType::CNAME, "a b", None).err(), Some(CodecError::MalformedValue));
    assert_eq!(build(RecordType::NS, "a..b", None).err(), Some(CodecError::MalformedValue));
}

#[test]
fn mail_exchange_needs_a_preference() {
    match build(RecordType::MX, "mail.example.com", Some(10)) {
        Ok(RData::MX(mx)) => {
            assert_eq!(mx.preference, 10);
            assert_eq!(mx.exchange.text, "mail.example.com");
            assert_eq!(label_text(&mx.exchange), vec!["mail", "example", "com"]);
        },
        other => panic!("{:?}", other),
    }
    assert_eq!(
        build(RecordType::MX, "mail.example.com", None).err(),
        Some(CodecError::MissingPreference)
    );
    assert_eq!(build(RecordType::MX, "a b", None).err(), Some(CodecError::MissingPreference));
    assert_eq!(build(RecordType::MX, "a b", Some(1)).err(), Some(CodecError::MalformedValue));
}

#[test]
fn text_is_kept_as_one_piece() {
    match build(RecordType::TXT, "v=spf1  include:example.net ~all", None) {
        Ok(RData::TXT(t)) => assert_eq!(t, "v=spf1  include:example.net ~all"),
        other => panic!("{:?}", other),
    }
    match build(RecordType::TXT, "", None) {
        Ok(RData::TXT(t)) => assert_eq!(t, ""),
        other => panic!("{:?}", other),
    }
}
