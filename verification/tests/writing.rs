use geodns::handler::Handler;
use geodns::ip::{parse_ipv4, parse_ipv6, write_ipv4, write_ipv6};
use geodns::name::DomainName;
use geodns::options::RecordType;
use geodns::rdata::RData;

fn read(record_type: RecordType, value: &str, preference: Option<u16>) -> RData {
    let handler = Handler { records: vec![], use_ip: None };
    let name = DomainName::parse("example.com").unwrap();
    handler.generate_record(&name, record_type, value, 1, preference).unwrap().rdata
}

fn written_again(record_type: RecordType, value: &str, preference: Option<u16>) -> String {
    let first = read(record_type, value, preference);
    let text = first.to_text();
    let second = read(record_type, &text, preference);
    assert_eq!(format!("{:?}", first), format!("{:?}", second), "{:?}", value);
    assert_eq!(second.to_text(), text);
    text
}

#[test]
fn addresses_are_written_in_full() {
    let mut out = String::from("a=");
    write_ipv4(&mut out, 0x0102_0304);
    assert_eq!(out, "a=1.2.3.4");
    let mut out = String::new();
    write_ipv4(&mut out, 0xFF00_0A64);
    assert_eq!(out, "255.0.10.100");
    let mut out = String::from("b=");
    write_ipv6(&mut out, 1);
    assert_eq!(out, "b=0:0:0:0:0:0:0:1");
    let mut out = String::new();
    write_ipv6(&mut out, 0x2001_0db8_0000_0000_0000_ff00_0042_8329);
    assert_eq!(out, "2001:db8:0:0:0:ff00:42:8329");
    let mut out = String::new();
    write_ipv6(&mut out, u128::MAX);
    assert_eq!(out, "ffff:ffff:ffff:ffff:ffff:ffff:ffff:ffff");
}

#[test]
fn an_address_that_is_written_is_read_as_the_same_address() {
    let mut state: u128 = 0x9E37_79B9_7F4A_7C15_F39C_C060_5CED_C835;
    for _ in 0..2000 {
        state = state.wrapping_mul(0x2360_ED05_1FC6_5DA4_4385_DF64_9FCC_F645).wrapping_add(1);
        let a6 = state ^ (state >> 61);
        let mut out = String::new();
        write_ipv6(&mut out, a6);
        assert_eq!(parse_ipv6(&out), Some(a6), "{}", out);
        let a4 = (a6 >> 40) as u32;
        let mut out = String::new();
        write_ipv4(&mut out, a4);
        assert_eq!(parse_ipv4(&out), Some(a4), "{}", out);
    }
    for a in [0u128, 1, 0xFFFF, 0x1_0000, u128::MAX, 1 << 127, 0xFFFF << 112] {
        let mut out = String::new();
        write_ipv6(&mut out, a);
        assert_eq!(parse_ipv6(&out), Some(a), "{}", out);
    }
    for a in [0u32, 1, 255, 256, u32::MAX, 1 << 31] {
        let mut out = String::new();
        write_ipv4(&mut out, a);
        assert_eq!(parse_ipv4(&out), Some(a), "{}", out);
    }
}

#[test]
fn data_that_is_written_is_read_as_the_same_data() {
    assert_eq!(written_again(RecordType::A, "1.2.3.4", None), "1.2.3.4");
    assert_eq!(written_again(RecordType::AAAA, "2001:DB8::1", None), "2001:db8:0:0:0:0:0:1");
    assert_eq!(written_again(RecordType::AAAA, "::ffff:1.2.3.4", None), "0:0:0:0:0:ffff:102:304");
    assert_eq!(written_again(RecordType::CNAME, "Target.Example.com.", None), "Target.Example.com.");
    assert_eq!(written_again(RecordType::NS, "ns1.example.com", None), "ns1.example.com");
    assert_eq!(written_again(RecordType::MX, "mail.example.com", Some(10)), "mail.example.com");
    assert_eq!(
        written_again(RecordType::SRV, " 010  +20\t5060   sip.example.com ", None),
        "10 20 5060 sip.example.com"
    );
    assert_eq!(
        written_again(RecordType::SOA, "ns.example.com.  admin.example.com. 0002024 +7200 3600 1209600 4294967295", None),
        "ns.example.com. admin.example.com. 2024 7200 3600 1209600 4294967295"
    );
    assert_eq!(written_again(RecordType::CAA, "1  ISSUE  ca.example.net", None), "1 issue ca.example.net");
    assert_eq!(written_again(RecordType::CAA, "7 IssueWild ca.example.net", None), "0 issuewild ca.example.net");
    assert_eq!(
        written_again(RecordType::CAA, "0 iodef mailto:security@example.com", None),
        "0 iodef mailto:security@example.com"
    );
    assert_eq!(written_again(RecordType::TXT, " any  text at all ", None), " any  text at all ");
}
