//! Record values that are written as several words: certification authority
//! authorizations, starts of authority and service locations.

use vstd::prelude::*;
use vstd::string::StrSliceExecFns;
use crate::name::DomainName;
use crate::numeral::{read_u16, read_u32, unsigned_16, unsigned_32};
use crate::rdata::{CAAView, Property, SOAView, SRVView, Url, Value, ValueView, CAA, SOA, SRV};
use crate::text::{ascii_lower, chars_of, is_keyword, slices, word_ranges, words};

verus! {

/// The property that the tag `word` names, without regard to case; `None`
/// for a tag that is not known.
pub open spec fn property_of(word: Seq<char>) -> Option<Property> {
    let tag = ascii_lower(word);
    if tag == "issue"@ {
        Some(Property::Issue)
    } else if tag == "issuewild"@ {
        Some(Property::IssueWild)
    } else if tag == "iodef"@ {
        Some(Property::Iodef)
    } else {
        None
    }
}

/// What the value `word` of a property `tag` stands for: the domain name of
/// an issuer for `issue` and `issuewild`, a URL for `iodef`.
pub open spec fn caa_value_of(tag: Property, word: Seq<char>) -> Option<ValueView> {
    match tag {
        Property::Issue | Property::IssueWild => if DomainName::is_name(word) {
            Some(ValueView::Issuer(DomainName::of_text(word)))
        } else {
            None
        },
        Property::Iodef => if Url::is_url(word) {
            Some(ValueView::Url(Url::of_text(word)))
        } else {
            None
        },
    }
}

/// The authorization that `s` is written for: three words, which are a
/// flag, a tag and a value. The flag says "critical" where it is `1`, and
/// "not critical" where it is anything else.
pub open spec fn caa_of_text(s: Seq<char>) -> Option<CAAView> {
    let w = words(s);
    if w.len() == 3 && property_of(w[1]) is Some && caa_value_of(property_of(w[1])->Some_0, w[2])
        is Some {
        Some(
            CAAView {
                issuer_critical: w[0] == seq!['1'],
                tag: property_of(w[1])->Some_0,
                value: caa_value_of(property_of(w[1])->Some_0, w[2])->Some_0,
            },
        )
    } else {
        None
    }
}

/// Reads `cs[from..to]` as the tag of a property.
fn read_property(cs: &Vec<char>, from: usize, to: usize) -> (r: Option<Property>)
    requires
        from <= to <= cs@.len(),
    ensures
        r == property_of(cs@.subrange(from as int, to as int)),
{
    if is_keyword(cs, from, to, "issue") {
        Some(Property::Issue)
    } else if is_keyword(cs, from, to, "issuewild") {
        Some(Property::IssueWild)
    } else if is_keyword(cs, from, to, "iodef") {
        Some(Property::Iodef)
    } else {
        None
    }
}

/// Reads a certification authority authorization, written as in
/// `0 issue ca.example.net`.
pub fn caa_from_string(input: &str) -> (r: Option<CAA>)
    ensures
        r.deep_view() == caa_of_text(input@),
{
    let cs = chars_of(input);
    let w = word_ranges(&cs);
    if w.len() != 3 {
        return None;
    }
    proof {
        assert(words(input@)[0] == slices(cs@, w@)[0]);
        assert(words(input@)[1] == slices(cs@, w@)[1]);
        assert(words(input@)[2] == slices(cs@, w@)[2]);
    }
    let issuer_critical = w[0].1 - w[0].0 == 1 && cs[w[0].0] == '1';
    proof {
        let flag = cs@.subrange(w@[0].0 as int, w@[0].1 as int);
        if issuer_critical {
            assert(flag =~= seq!['1']);
        } else if flag.len() == 1 {
            assert(flag[0] != seq!['1'][0]);
        }
    }
    let tag = match read_property(&cs, w[1].0, w[1].1) {
        Some(tag) => tag,
        None => {
            return None;
        },
    };
    let word = input.substring_char(w[2].0, w[2].1);
    let value = match tag {
        Property::Issue | Property::IssueWild => match DomainName::parse(word) {
            Some(name) => Value::Issuer(name),
            None => {
                return None;
            },
        },
        Property::Iodef => match Url::parse(word) {
            Some(url) => Value::Url(url),
            None => {
                return None;
            },
        },
    };
    Some(CAA { issuer_critical, tag, value })
}

/// The start of authority that `s` is written for: seven words, which are
/// two domain names and five unsigned integers of 32 bits.
pub open spec fn soa_of_text(s: Seq<char>) -> Option<SOAView> {
    let w = words(s);
    if w.len() == 7 && DomainName::is_name(w[0]) && DomainName::is_name(w[1]) && unsigned_32(w[2])
        is Some && unsigned_32(w[3]) is Some && unsigned_32(w[4]) is Some && unsigned_32(w[5])
        is Some && unsigned_32(w[6]) is Some {
        Some(
            SOAView {
                mname: DomainName::of_text(w[0]),
                rname: DomainName::of_text(w[1]),
                serial: unsigned_32(w[2])->Some_0,
                refresh: unsigned_32(w[3])->Some_0,
                retry: unsigned_32(w[4])->Some_0,
                expire: unsigned_32(w[5])->Some_0,
                minimum: unsigned_32(w[6])->Some_0,
            },
        )
    } else {
        None
    }
}

/// Reads a start of authority, written as in
/// `ns.example.com admin.example.com 2024010101 7200 3600 1209600 300`.
pub fn soa_from_string(input: &str) -> (r: Option<SOA>)
    ensures
        r.deep_view() == soa_of_text(input@),
{
    let cs = chars_of(input);
    let w = word_ranges(&cs);
    if w.len() != 7 {
        return None;
    }
    proof {
        assert(words(input@)[0] == slices(cs@, w@)[0]);
        assert(words(input@)[1] == slices(cs@, w@)[1]);
        assert(words(input@)[2] == slices(cs@, w@)[2]);
        assert(words(input@)[3] == slices(cs@, w@)[3]);
        assert(words(input@)[4] == slices(cs@, w@)[4]);
        assert(words(input@)[5] == slices(cs@, w@)[5]);
        assert(words(input@)[6] == slices(cs@, w@)[6]);
    }
    let mname = match DomainName::parse(input.substring_char(w[0].0, w[0].1)) {
        Some(name) => name,
        None => {
            return None;
        },
    };
    let rname = match DomainName::parse(input.substring_char(w[1].0, w[1].1)) {
        Some(name) => name,
        None => {
            return None;
        },
    };
    let serial = match read_u32(&cs, w[2].0, w[2].1) {
        Some(v) => v,
        None => {
            return None;
        },
    };
    let refresh = match read_u32(&cs, w[3].0, w[3].1) {
        Some(v) => v,
        None => {
            return None;
        },
    };
    let retry = match read_u32(&cs, w[4].0, w[4].1) {
        Some(v) => v,
        None => {
            return None;
        },
    };
    let expire = match read_u32(&cs, w[5].0, w[5].1) {
        Some(v) => v,
        None => {
            return None;
        },
    };
    let minimum = match read_u32(&cs, w[6].0, w[6].1) {
        Some(v) => v,
        None => {
            return None;
        },
    };
    Some(SOA { mname, rname, serial, refresh, retry, expire, minimum })
}

/// The service location that `s` is written for: four words, which are
/// three unsigned integers of 16 bits and a domain name.
pub open spec fn srv_of_text(s: Seq<char>) -> Option<SRVView> {
    let w = words(s);
    if w.len() == 4 && unsigned_16(w[0]) is Some && unsigned_16(w[1]) is Some && unsigned_16(w[2])
        is Some && DomainName::is_name(w[3]) {
        Some(
            SRVView {
                priority: unsigned_16(w[0])->Some_0,
                weight: unsigned_16(w[1])->Some_0,
                port: unsigned_16(w[2])->Some_0,
                target: DomainName::of_text(w[3]),
            },
        )
    } else {
        None
    }
}

/// Reads a service location, written as in `10 20 5060 sip.example.com`.
pub fn srv_from_string(input: &str) -> (r: Option<SRV>)
    ensures
        r.deep_view() == srv_of_text(input@),
{
    let cs = chars_of(input);
    let w = word_ranges(&cs);
    if w.len() != 4 {
        return None;
    }
    proof {
        assert(words(input@)[0] == slices(cs@, w@)[0]);
        assert(words(input@)[1] == slices(cs@, w@)[1]);
        assert(words(input@)[2] == slices(cs@, w@)[2]);
        assert(words(input@)[3] == slices(cs@, w@)[3]);
    }
    let priority = match read_u16(&cs, w[0].0, w[0].1) {
        Some(v) => v,
        None => {
            return None;
        },
    };
    let weight = match read_u16(&cs, w[1].0, w[1].1) {
        Some(v) => v,
        None => {
            return None;
        },
    };
    let port = match read_u16(&cs, w[2].0, w[2].1) {
        Some(v) => v,
        None => {
            return None;
        },
    };
    let target = match DomainName::parse(input.substring_char(w[3].0, w[3].1)) {
        Some(name) => name,
        None => {
            return None;
        },
    };
    Some(SRV { priority, weight, port, target })
}

} // verus!
