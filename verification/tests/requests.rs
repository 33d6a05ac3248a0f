use geodns::geo::LocationEntry;
use geodns::handler::{
    check_request, CodecError, Error, Handler, MessageType, OpCode, Request, ResponseCode,
};
use geodns::ip::IpAddress;
use geodns::name::DomainName;
use geodns::options::{Cli, Config, GeoRecord, Record, RecordType};
use geodns::rdata::RData;

fn record(name: &str, record_type: RecordType, value: &str) -> Record {
    Record {
        name: name.to_string(),
        record_type,
        value: value.to_string(),
        geo: vec![],
        ttl: 86400,
        preference: None,
    }
}

fn handler(records: Vec<Record>) -> Handler {
    let cli = Cli { config: String::from("config.yaml"), mmdb: String::from("db.mmdb"), use_ip: None };
    let config = Config { udp: vec![], tcp: vec![], records };
    Handler::new(&cli, &config)
}

fn query(name: &str) -> Request {
    Request {
        op_code: OpCode::Query,
        message_type: MessageType::Query,
        src: IpAddress::V4(0x0a00_0001),
        name: DomainName::parse(name).unwrap(),
    }
}

fn from(country: &str) -> LocationEntry {
    LocationEntry { continent: None, country: Some(country.to_string()) }
}

fn example() -> Handler {
    let mut a = record("example.com", RecordType::A, "1.2.3.4");
    a.geo.push(GeoRecord {
        value: String::from("5.6.7.8"),
        country: Some(String::from("US")),
        continent: None,
        ttl: None,
    });
    handler(vec![a])
}

#[test]
fn the_handler_keeps_what_it_is_configured_with() {
    let cli = Cli {
        config: String::from("c"),
        mmdb: String::from("m"),
        use_ip: Some(String::from("8.8.8.8")),
    };
    let config = Config {
        udp: vec![],
        tcp: vec![],
        records: vec![record("a.example", RecordType::TXT, "x"), record("b.example", RecordType::A, "1.1.1.1")],
    };
    let h = Handler::new(&cli, &config);
    assert_eq!(h.use_ip.as_deref(), Some("8.8.8.8"));
    assert_eq!(h.records.len(), 2);
    assert_eq!(h.records[0].name, "a.example");
    assert_eq!(h.records[1].value, "1.1.1.1");
}

#[test]
fn a_request_from_the_country_of_a_rule_gets_the_value_of_the_rule() {
    let h = example();
    let answers = h.do_handle_request(&query("www.example.com"), Some(&from("US"))).unwrap();
    assert_eq!(answers.len(), 1);
    assert!(matches!(answers[0].rdata, RData::A(0x0506_0708)));
    assert_eq!(answers[0].ttl, 86400);
    assert_eq!(answers[0].name.text, "www.example.com");
    let response = h.handle_request(&query("www.example.com"), Some(&from("US")));
    assert_eq!(response.code, ResponseCode::NoError);
    assert!(response.authoritative);
    assert_eq!(response.answers.len(), 1);
}

#[test]
fn a_request_from_another_country_gets_the_default() {
    let h = example();
    let answers = h.do_handle_request(&query("www.example.com"), Some(&from("FR"))).unwrap();
    assert_eq!(answers.len(), 1);
    assert!(matches!(answers[0].rdata, RData::A(0x0102_0304)));
    let answers = h.do_handle_request(&query("www.example.com"), None).unwrap();
    assert_eq!(answers.len(), 1);
    assert!(matches!(answers[0].rdata, RData::A(0x0102_0304)));
}

#[test]
fn a_mail_exchange_is_answered_with_its_preference() {
    let mut mx = record("example.com", RecordType::MX, "mail.example.com");
    mx.preference = Some(10);
    let h = handler(vec![mx]);
    let answers = h.do_handle_request(&query("example.com"), None).unwrap();
    assert_eq!(answers.len(), 1);
    match &answers[0].rdata {
        RData::MX(m) => {
            assert_eq!(m.preference, 10);
            assert_eq!(m.exchange.text, "mail.example.com");
            assert_eq!(m.exchange.labels, vec![b"mail".to_vec(), b"example".to_vec(), b"com".to_vec()]);
        },
        other => panic!("{:?}", other),
    }
}

#[test]
fn a_service_is_answered_with_its_location() {
    let h = handler(vec![record("example.com", RecordType::SRV, "10 20 5060 sip.example.com")]);
    let answers = h.do_handle_request(&query("_sip._udp.example.com"), None).unwrap();
    assert_eq!(answers.len(), 1);
    match &answers[0].rdata {
        RData::SRV(s) => {
            assert_eq!((s.priority, s.weight, s.port), (10, 20, 5060));
            assert_eq!(s.target.labels, vec![b"sip".to_vec(), b"example".to_vec(), b"com".to_vec()]);
        },
        other => panic!("{:?}", other),
    }
}

#[test]
fn a_name_outside_every_zone_gets_no_answer_and_no_failure() {
    let h = example();
    let response = h.handle_request(&query("www.example.org"), Some(&from("US")));
    assert_eq!(response.code, ResponseCode::NoError);
    assert!(response.authoritative);
    assert!(response.answers.is_empty());
    let response = handler(vec![]).handle_request(&query("www.example.org"), None);
    assert_eq!(response.code, ResponseCode::NoError);
    assert!(response.answers.is_empty());
}

#[test]
fn a_request_that_is_no_query_is_a_server_failure() {
    let h = example();
    for op_code in [OpCode::Status, OpCode::Notify, OpCode::Update] {
        let mut request = query("www.example.com");
        request.op_code = op_code;
        assert_eq!(check_request(&request), Err(Error::InvalidOpCode(op_code)));
        assert_eq!(h.request_ip(&request), Err(Error::InvalidOpCode(op_code)));
        assert_eq!(
            h.do_handle_request(&request, Some(&from("US"))).err(),
            Some(Error::InvalidOpCode(op_code))
        );
        let response = h.handle_request(&request, Some(&from("US")));
        assert_eq!(response.code, ResponseCode::ServFail);
        assert!(response.answers.is_empty());
    }
    let mut request = query("www.example.com");
    request.message_type = MessageType::Response;
    assert_eq!(check_request(&request), Err(Error::InvalidMessageType(MessageType::Response)));
    assert_eq!(h.handle_request(&request, None).code, ResponseCode::ServFail);
    request.op_code = OpCode::Update;
    assert_eq!(check_request(&request), Err(Error::InvalidOpCode(OpCode::Update)));
    assert_eq!(check_request(&query("www.example.com")), Ok(()));
}

#[test]
fn the_configured_address_goes_before_the_source_of_the_request() {
    let mut h = example();
    assert_eq!(h.request_ip(&query("www.example.com")), Ok(IpAddress::V4(0x0a00_0001)));
    h.use_ip = Some(String::from("8.8.4.4"));
    assert_eq!(h.request_ip(&query("www.example.com")), Ok(IpAddress::V4(0x0808_0404)));
    h.use_ip = Some(String::from("2001:4860:4860::8888"));
    assert_eq!(
        h.request_ip(&query("www.example.com")),
        Ok(IpAddress::V6(0x2001_4860_4860_0000_0000_0000_0000_8888))
    );
    h.use_ip = Some(String::from("nowhere"));
    assert_eq!(h.request_ip(&query("www.example.com")), Err(Error::InvalidAddress));
    assert_eq!(h.handle_request(&query("www.example.com"), None).code, ResponseCode::ServFail);
}

#[test]
fn all_the_records_of_a_zone_answer_in_order() {
    let h = handler(vec![
        record("example.com", RecordType::A, "1.1.1.1"),
        record("other.org", RecordType::A, "9.9.9.9"),
        record("www.example.com", RecordType::TXT, "hello"),
        record("Example.COM.", RecordType::A, "2.2.2.2"),
    ]);
    let answers = h.do_handle_request(&query("www.example.com"), None).unwrap();
    assert_eq!(answers.len(), 3);
    assert!(matches!(answers[0].rdata, RData::A(0x0101_0101)));
    assert!(matches!(&answers[1].rdata, RData::TXT(t) if t == "hello"));
    assert!(matches!(answers[2].rdata, RData::A(0x0202_0202)));
    let answers = h.do_handle_request(&query("example.com"), None).unwrap();
    assert_eq!(answers.len(), 2);
}

#[test]
fn a_value_that_cannot_be_read_fails_the_request() {
    let h = handler(vec![
        record("example.com", RecordType::A, "1.1.1.1"),
        record("example.com", RecordType::A, "one.one.one.one"),
    ]);
    assert_eq!(
        h.do_handle_request(&query("www.example.com"), None).err(),
        Some(Error::Codec(CodecError::MalformedValue))
    );
    assert_eq!(h.handle_request(&query("www.example.com"), None).code, ResponseCode::ServFail);
    assert!(h.do_handle_request(&query("www.example.org"), None).unwrap().is_empty());
    let h = handler(vec![record("example.com", RecordType::MX, "mail.example.com")]);
    assert_eq!(
        h.do_handle_request(&query("www.example.com"), None).err(),
        Some(Error::Codec(CodecError::MissingPreference))
    );
    let h = handler(vec![record("not a name", RecordType::A, "1.1.1.1")]);
    assert_eq!(
        h.do_handle_request(&query("www.example.com"), None).err(),
        Some(Error::InvalidRecordName)
    );
}

#[test]
fn a_value_that_is_not_selected_is_not_read() {
    let mut a = record("example.com", RecordType::A, "not-an-address");
    a.geo.push(GeoRecord {
        value: String::from("5.6.7.8"),
        country: Some(String::from("US")),
        continent: None,
        ttl: Some(30),
    });
    let h = handler(vec![a]);
    let answers = h.do_handle_request(&query("example.com"), Some(&from("US"))).unwrap();
    assert_eq!(answers.len(), 1);
    assert_eq!(answers[0].ttl, 30);
    assert!(h.do_handle_request(&query("example.com"), Some(&from("FR"))).is_err());
}
