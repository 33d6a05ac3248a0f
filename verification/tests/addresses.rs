use geodns::ip::{parse_ipv4, parse_ipv6, IpAddress};
use trust_dns_server::client::rr::RData;

/// The address that the data of an `A` record holds when it is read from `text`.
fn a_data(text: &str) -> Option<u32> {
    match RData::A(text.parse().ok()?) {
        RData::A(a) => Some(u32::from(a)),
        _ => None,
    }
}

/// The address that the data of an `AAAA` record holds when it is read from `text`.
fn aaaa_data(text: &str) -> Option<u128> {
    match RData::AAAA(text.parse().ok()?) {
        RData::AAAA(a) => Some(u128::from(a)),
        _ => None,
    }
}

fn agree(text: &str) {
    assert_eq!(parse_ipv4(text), a_data(text), "{:?}", text);
    assert_eq!(parse_ipv6(text), aaaa_data(text), "{:?}", text);
    let expected = match (a_data(text), aaaa_data(text)) {
        (Some(a), _) => Some(IpAddress::V4(a)),
        (None, Some(a)) => Some(IpAddress::V6(a)),
        (None, None) => None,
    };
    assert_eq!(IpAddress::parse(text), expected, "{:?}", text);
}

#[test]
fn literals_are_read_as_record_data_reads_them() {
    for text in [
        "", ".", "..", "...", "1", "1.2", "1.2.3", "1.2.3.4", "1.2.3.4.5", "01.2.3.4", "1.2.3.04",
        "0.0.0.0", "00.0.0.0", "255.255.255.255", "256.1.1.1", "1.1.1.256", "1.1.1.1000", "1.2.3.4.",
        ".1.2.3.4", "1..3.4", "a.b.c.d", "1.2.3.+4", "1.2.3.-4", " 1.2.3.4", "1.2.3.4 ", "1.2.3.4\n",
        "１.2.3.4", "0x1.2.3.4", "1.2.3.4/24", "127.1",
        ":", "::", ":::", "::::", "::1", "1::", ":1", "1:", "1::1", "::1::", "1::2::3", "::1:2:3:4:5:6:7",
        "::1:2:3:4:5:6:7:8", "1:2:3:4:5:6:7::", "1:2:3:4:5:6:7:8::", "1:2:3:4:5:6:7:8", "1:2:3:4:5:6:7",
        "1:2:3:4:5:6:7:8:9", "1:2:3:4:5:6:7:8:", ":1:2:3:4:5:6:7:8", "1:2:3:4::5:6:7", "1:2:3:4::5:6:7:8",
        "0:0:0:0:0:0:0:0", "ffff:ffff:ffff:ffff:ffff:ffff:ffff:ffff", "FFFF:FfFf::", "10000::", "fffff::",
        "0000::", "00000::", "g::", "::g", "2001:db8::1", "2001:DB8:0:0:0:0:0:1",
        "::1.2.3.4", "::ffff:1.2.3.4", "::ffff:1.2.3", "::ffff:1.2.3.4.5", "::ffff:01.2.3.4",
        "::ffff:256.2.3.4", "1:2:3:4:5:6:1.2.3.4", "1:2:3:4:5:6:7:1.2.3.4", "1:2:3:4:5:1.2.3.4",
        "1:2:3:4:5::1.2.3.4", "1:2:3:4:5:6::1.2.3.4", "1:2:3:4::1.2.3.4", "::1.2.3.4:5", "1.2.3.4::",
        "1.2.3.4::1", "::1.2.3.4::", "1::1.2.3.4", "::1.2.3.4.", "::.1.2.3", "::1.", "1:2:3:4:5:6:7.8.9.10",
        "1:2:3:4:5:6:255.255.255.255", "::255.255.255.255", "::0.0.0.0", "[::1]", "::1%eth0", "::1/128",
        " ::1", "::1 ", "fe80::1", "a:b:c:d:e:f:0:1", "A:B:C:D:E:F:0:1", "1:2:3:4:5:6:7:: ", "::a.b.c.d",
        "12345", "1:2:3:4:5:6:7:12345", "::12345", "1::2:3:4:5:6:7", "1::2:3:4:5:6:7:8", "1:2::3:4:5:6:7",
        "1:2::3:4:5:6:7:8", "::1:2.3.4.5", "1:::2", "1::::2", "::1:", ":::1",
    ] {
        agree(text);
    }
}

#[test]
fn generated_literals_are_read_as_record_data_reads_them() {
    let pieces = ["", "0", "1", "ff", "FFFF", "10000", "1.2.3.4", "256.0.0.1", "01.2.3.4", "g", "7.7"];
    let mut state: u64 = 0x2545_F491_4F6C_DD1D;
    for _ in 0..40000 {
        let mut text = String::new();
        state ^= state << 13;
        state ^= state >> 7;
        state ^= state << 17;
        let n = 1 + (state % 9) as usize;
        let mut bits = state >> 8;
        for i in 0..n {
            if i > 0 {
                text.push(if bits % 7 == 0 { '.' } else { ':' });
                bits /= 7;
            }
            text.push_str(pieces[(bits % pieces.len() as u64) as usize]);
            bits /= pieces.len() as u64;
        }
        agree(&text);
    }
}

#[test]
fn every_octet_is_read() {
    for a in 0u32..=255 {
        let text = format!("{}.{}.{}.{}", a, 255 - a, a / 2, 0);
        agree(&text);
        let text = format!("{:03}.0.0.0", a);
        agree(&text);
    }
}
