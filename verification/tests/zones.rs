use geodns::name::DomainName;

fn name(text: &str) -> DomainName {
    DomainName::parse(text).unwrap()
}

fn labels(text: &str) -> Vec<String> {
    name(text).labels.iter().map(|l| String::from_utf8(l.clone()).unwrap()).collect()
}

#[test]
fn names_are_read_into_labels() {
    assert_eq!(labels("www.example.com"), vec!["www", "example", "com"]);
    assert_eq!(labels("www.example.com."), vec!["www", "example", "com"]);
    assert!(!name("www.example.com").fqdn);
    assert!(name("www.example.com.").fqdn);
    assert_eq!(name("www.example.com").text, "www.example.com");
    assert_eq!(labels("."), Vec::<String>::new());
    assert!(name(".").fqdn);
    assert_eq!(labels("_sip._tcp.example.com"), vec!["_sip", "_tcp", "example", "com"]);
    assert_eq!(labels("a\\.b.example"), vec!["a.b", "example"]);
}

#[test]
fn names_that_are_refused() {
    assert!(DomainName::parse("a b.example.com").is_none());
    assert!(DomainName::parse("a..b").is_none());
    let long = "a".repeat(64);
    assert!(DomainName::parse(&format!("{}.example.com", long)).is_none());
}

#[test]
fn a_name_is_in_its_own_zone() {
    for text in ["example.com", "www.example.com.", ".", "a.b.c.d.e"] {
        assert!(name(text).zone_of(&name(text)), "{}", text);
    }
}

#[test]
fn a_zone_holds_the_names_below_it() {
    assert!(name("example.com").zone_of(&name("b.example.com")));
    assert!(!name("b.example.com").zone_of(&name("example.com")));
    assert!(name("example.com").zone_of(&name("a.b.example.com")));
    assert!(name("b.example.com").zone_of(&name("a.b.example.com")));
    assert!(name("com").zone_of(&name("www.example.com")));
    assert!(name(".").zone_of(&name("www.example.com")));
    assert!(!name("example.net").zone_of(&name("www.example.com")));
    assert!(!name("ample.com").zone_of(&name("example.com")));
    assert!(!name("www.example.com").zone_of(&name("example.com")));
}

#[test]
fn zones_match_without_regard_to_case_or_final_dot() {
    assert!(name("Example.COM").zone_of(&name("www.example.com.")));
    assert!(name("example.com.").zone_of(&name("WWW.EXAMPLE.COM")));
    let upper = DomainName {
        text: String::from("WWW.EXAMPLE.COM"),
        labels: vec![b"WWW".to_vec(), b"EXAMPLE".to_vec(), b"COM".to_vec()],
        fqdn: true,
    };
    assert!(name("example.com").zone_of(&upper));
    let other = DomainName {
        text: String::from("www.ex@mple.com"),
        labels: vec![b"www".to_vec(), b"ex@mple".to_vec(), b"com".to_vec()],
        fqdn: true,
    };
    let odd = DomainName {
        text: String::from("ex`mple.com"),
        labels: vec![b"ex`mple".to_vec(), b"com".to_vec()],
        fqdn: true,
    };
    assert!(!odd.zone_of(&other));
}

#[test]
fn a_copy_of_a_name_is_the_same_name() {
    let n = name("mail.example.com.");
    let c = n.clone();
    assert_eq!(c.text, n.text);
    assert_eq!(c.labels, n.labels);
    assert_eq!(c.fqdn, n.fqdn);
}
