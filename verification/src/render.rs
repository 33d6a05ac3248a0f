//! Writing the data of an answer as the text that it is configured with.
//!
//! Addresses and numbers are written in one fixed way; names and URLs are
//! written as the text that they were read from. What is written is read
//! again as the same data.

use vstd::prelude::*;
use vstd::string::StringExecFns;
use crate::handler::{rdata_of, CodecError};
use crate::ip::{
    ipv4_text, ipv6_text, lemma_ipv4_round_trip, lemma_ipv6_round_trip, write_ipv4, write_ipv6,
};
use crate::name::DomainName;
use crate::numeral::{
    lemma_numeral, lemma_numeral_is_plain, numeral, unsigned_16, unsigned_32, write_numeral,
};
use crate::options::RecordType;
use crate::rdata::{
    CAAView, Property, RData, RDataView, SOAView, SRVView, Url, Value, ValueView, CAA, SOA, SRV,
};
use crate::text::{
    ascii_lower, is_word, lemma_words_are_words, lemma_words_one, lemma_words_then, then, words,
};
use crate::util::{caa_of_text, caa_value_of, property_of, soa_of_text, srv_of_text};

verus! {

/// How the flag of an authorization is written.
pub open spec fn flag_text(critical: bool) -> Seq<char> {
    if critical {
        seq!['1']
    } else {
        seq!['0']
    }
}

/// How the tag of a property is written.
pub open spec fn property_text(tag: Property) -> Seq<char> {
    match tag {
        Property::Issue => "issue"@,
        Property::IssueWild => "issuewild"@,
        Property::Iodef => "iodef"@,
    }
}

/// How the value of an authorization is written.
pub open spec fn value_text(value: ValueView) -> Seq<char> {
    match value {
        ValueView::Issuer(name) => name.text,
        ValueView::Url(url) => url.text,
    }
}

/// How an authorization is written: flag, tag and value, with one space
/// between them.
pub open spec fn caa_text(c: CAAView) -> Seq<char> {
    then(flag_text(c.issuer_critical), ' ', then(property_text(c.tag), ' ', value_text(c.value)))
}

/// How a start of authority is written: its seven fields, with one space
/// between them.
pub open spec fn soa_text(s: SOAView) -> Seq<char> {
    then(
        s.mname.text,
        ' ',
        then(
            s.rname.text,
            ' ',
            then(
                numeral(s.serial as nat, 10),
                ' ',
                then(
                    numeral(s.refresh as nat, 10),
                    ' ',
                    then(
                        numeral(s.retry as nat, 10),
                        ' ',
                        then(numeral(s.expire as nat, 10), ' ', numeral(s.minimum as nat, 10)),
                    ),
                ),
            ),
        ),
    )
}

/// How a service location is written: its four fields, with one space
/// between them.
pub open spec fn srv_text(s: SRVView) -> Seq<char> {
    then(
        numeral(s.priority as nat, 10),
        ' ',
        then(
            numeral(s.weight as nat, 10),
            ' ',
            then(numeral(s.port as nat, 10), ' ', s.target.text),
        ),
    )
}

/// How the data of an answer is written.
pub open spec fn rdata_text(d: RDataView) -> Seq<char> {
    match d {
        RDataView::A(a) => ipv4_text(a),
        RDataView::AAAA(a) => ipv6_text(a),
        RDataView::CAA(c) => caa_text(c),
        RDataView::CNAME(n) => n.text,
        RDataView::MX(m) => m.exchange.text,
        RDataView::NS(n) => n.text,
        RDataView::SOA(s) => soa_text(s),
        RDataView::SRV(s) => srv_text(s),
        RDataView::TXT(t) => t,
    }
}

/// A number of 32 bits that is written is a word, and is read as the same
/// number.
proof fn lemma_u32_round_trip(n: u32)
    ensures
        is_word(numeral(n as nat, 10)),
        unsigned_32(numeral(n as nat, 10)) == Some(n),
{
    lemma_numeral(n as nat, 10);
    lemma_numeral_is_plain(n as nat, 10);
}

/// A number of 16 bits that is written is a word, and is read as the same
/// number.
proof fn lemma_u16_round_trip(n: u16)
    ensures
        is_word(numeral(n as nat, 10)),
        unsigned_16(numeral(n as nat, 10)) == Some(n),
{
    lemma_numeral(n as nat, 10);
    lemma_numeral_is_plain(n as nat, 10);
}

/// A tag that is written is a word, and is read as the same tag.
proof fn lemma_property_round_trip(tag: Property)
    ensures
        is_word(property_text(tag)),
        property_of(property_text(tag)) == Some(tag),
{
    reveal_strlit("issue");
    reveal_strlit("issuewild");
    reveal_strlit("iodef");
    let t = property_text(tag);
    assert(ascii_lower(t) =~= t);
    assert("issue"@[1] != "iodef"@[1]);
}

/// A service location that is read and written again is read as the same
/// service location.
pub proof fn lemma_srv_round_trip(text: Seq<char>)
    requires
        srv_of_text(text) is Some,
    ensures
        srv_of_text(srv_text(srv_of_text(text)->Some_0)) == srv_of_text(text),
{
    let s = srv_of_text(text)->Some_0;
    let w = words(text);
    lemma_words_are_words(text);
    assert(is_word(w[3]));
    let p = numeral(s.priority as nat, 10);
    let q = numeral(s.weight as nat, 10);
    let r = numeral(s.port as nat, 10);
    let t = s.target.text;
    assert(t == w[3]);
    lemma_u16_round_trip(s.priority);
    lemma_u16_round_trip(s.weight);
    lemma_u16_round_trip(s.port);
    lemma_words_one(t);
    lemma_words_then(r, t);
    lemma_words_then(q, then(r, ' ', t));
    lemma_words_then(p, then(q, ' ', then(r, ' ', t)));
    let v = words(srv_text(s));
    assert(v =~= seq![p, q, r, t]);
    assert(v[0] == p && v[1] == q && v[2] == r && v[3] == t);
}

/// A start of authority that is read and written again is read as the same
/// start of authority.
pub proof fn lemma_soa_round_trip(text: Seq<char>)
    requires
        soa_of_text(text) is Some,
    ensures
        soa_of_text(soa_text(soa_of_text(text)->Some_0)) == soa_of_text(text),
{
    let s = soa_of_text(text)->Some_0;
    let w = words(text);
    lemma_words_are_words(text);
    assert(is_word(w[0]));
    assert(is_word(w[1]));
    let m = s.mname.text;
    let r = s.rname.text;
    assert(m == w[0] && r == w[1]);
    let n2 = numeral(s.serial as nat, 10);
    let n3 = numeral(s.refresh as nat, 10);
    let n4 = numeral(s.retry as nat, 10);
    let n5 = numeral(s.expire as nat, 10);
    let n6 = numeral(s.minimum as nat, 10);
    lemma_u32_round_trip(s.serial);
    lemma_u32_round_trip(s.refresh);
    lemma_u32_round_trip(s.retry);
    lemma_u32_round_trip(s.expire);
    lemma_u32_round_trip(s.minimum);
    let t6 = n6;
    let t5 = then(n5, ' ', t6);
    let t4 = then(n4, ' ', t5);
    let t3 = then(n3, ' ', t4);
    let t2 = then(n2, ' ', t3);
    let t1 = then(r, ' ', t2);
    lemma_words_one(n6);
    lemma_words_then(n5, t6);
    lemma_words_then(n4, t5);
    lemma_words_then(n3, t4);
    lemma_words_then(n2, t3);
    lemma_words_then(r, t2);
    lemma_words_then(m, t1);
    let v = words(soa_text(s));
    assert(v =~= seq![m, r, n2, n3, n4, n5, n6]);
    assert(v[0] == m && v[1] == r && v[2] == n2 && v[3] == n3 && v[4] == n4 && v[5] == n5 && v[6]
        == n6);
}

/// An authorization that is read and written again is read as the same
/// authorization.
pub proof fn lemma_caa_round_trip(text: Seq<char>)
    requires
        caa_of_text(text) is Some,
    ensures
        caa_of_text(caa_text(caa_of_text(text)->Some_0)) == caa_of_text(text),
{
    let c = caa_of_text(text)->Some_0;
    let w = words(text);
    lemma_words_are_words(text);
    assert(is_word(w[2]));
    let f = flag_text(c.issuer_critical);
    let p = property_text(c.tag);
    let x = value_text(c.value);
    assert(x == w[2]);
    lemma_property_round_trip(c.tag);
    assert(is_word(f)) by {
        assert(f.len() == 1);
        assert(f[0] == '1' || f[0] == '0');
    }
    lemma_words_one(x);
    lemma_words_then(p, x);
    lemma_words_then(f, then(p, ' ', x));
    let v = words(caa_text(c));
    assert(v =~= seq![f, p, x]);
    assert(v[0] == f && v[1] == p && v[2] == x);
    assert((f == seq!['1']) == c.issuer_critical) by {
        if !c.issuer_critical {
            assert(f[0] != seq!['1'][0]);
        }
    }
    assert(caa_value_of(c.tag, x) == Some(c.value));
}

/// The data of an answer that is read from a value and written again is
/// read as the same data: an address, a name, a mail exchange, a service
/// location, a start of authority, an authorization or a text.
pub proof fn lemma_rdata_round_trip(
    record_type: RecordType,
    value: Seq<char>,
    preference: Option<u16>,
)
    requires
        rdata_of(record_type, value, preference) is Ok,
    ensures
        rdata_of(record_type, rdata_text(rdata_of(record_type, value, preference)->Ok_0), preference)
            == rdata_of(record_type, value, preference),
{
    reveal(rdata_of);
    let d = rdata_of(record_type, value, preference)->Ok_0;
    match record_type {
        RecordType::A => {
            lemma_ipv4_round_trip(d->A_0);
        },
        RecordType::AAAA => {
            lemma_ipv6_round_trip(d->AAAA_0);
        },
        RecordType::CAA => {
            lemma_caa_round_trip(value);
        },
        RecordType::SOA => {
            lemma_soa_round_trip(value);
        },
        RecordType::SRV => {
            lemma_srv_round_trip(value);
        },
        _ => {},
    }
}

/// Writes a start of authority.
fn write_soa(out: &mut String, s: &SOA)
    ensures
        final(out)@ == old(out)@ + soa_text(s@),
{
    proof {
        reveal_strlit(" ");
    }
    out.append(s.mname.text.as_str());
    out.append(" ");
    out.append(s.rname.text.as_str());
    out.append(" ");
    write_numeral(out, s.serial, 10);
    out.append(" ");
    write_numeral(out, s.refresh, 10);
    out.append(" ");
    write_numeral(out, s.retry, 10);
    out.append(" ");
    write_numeral(out, s.expire, 10);
    out.append(" ");
    write_numeral(out, s.minimum, 10);
    proof {
        assert(" "@ =~= seq![' ']);
        assert(out@ =~= old(out)@ + soa_text(s@));
    }
}

/// Writes a service location.
fn write_srv(out: &mut String, s: &SRV)
    ensures
        final(out)@ == old(out)@ + srv_text(s@),
{
    proof {
        reveal_strlit(" ");
    }
    write_numeral(out, s.priority as u32, 10);
    out.append(" ");
    write_numeral(out, s.weight as u32, 10);
    out.append(" ");
    write_numeral(out, s.port as u32, 10);
    out.append(" ");
    out.append(s.target.text.as_str());
    proof {
        assert(" "@ =~= seq![' ']);
        assert(out@ =~= old(out)@ + srv_text(s@));
    }
}

/// Writes an authorization.
fn write_caa(out: &mut String, c: &CAA)
    ensures
        final(out)@ == old(out)@ + caa_text(c@),
{
    proof {
        reveal_strlit(" ");
        reveal_strlit("1");
        reveal_strlit("0");
    }
    if c.issuer_critical {
        out.append("1");
    } else {
        out.append("0");
    }
    out.append(" ");
    match c.tag {
        Property::Issue => out.append("issue"),
        Property::IssueWild => out.append("issuewild"),
        Property::Iodef => out.append("iodef"),
    }
    out.append(" ");
    match &c.value {
        Value::Issuer(name) => out.append(name.text.as_str()),
        Value::Url(url) => out.append(url.text.as_str()),
    }
    proof {
        assert(" "@ =~= seq![' ']);
        assert("1"@ =~= seq!['1']);
        assert("0"@ =~= seq!['0']);
        assert(out@ =~= old(out)@ + caa_text(c@));
    }
}

impl RData {
    /// The value that this data is configured with.
    pub fn to_text(&self) -> (r: String)
        ensures
            r@ == rdata_text(self@),
    {
        let mut out = String::new();
        match self {
            RData::A(a) => write_ipv4(&mut out, *a),
            RData::AAAA(a) => write_ipv6(&mut out, *a),
            RData::CAA(c) => write_caa(&mut out, c),
            RData::CNAME(n) => out.append(n.text.as_str()),
            RData::MX(m) => out.append(m.exchange.text.as_str()),
            RData::NS(n) => out.append(n.text.as_str()),
            RData::SOA(s) => write_soa(&mut out, s),
            RData::SRV(s) => write_srv(&mut out, s),
            RData::TXT(t) => out.append(t.as_str()),
        }
        proof {
            assert(out@ =~= rdata_text(self@));
        }
        out
    }
}

} // verus!
