//! The data that answers carry, one shape for each kind of record.

use vstd::prelude::*;
use crate::name::{DomainName, DomainNameView};

verus! {

/// A URL: the text it was written as, and the form in which the URL parser
/// writes it back.
#[derive(Debug)]
pub struct Url {
    pub text: String,
    pub href: String,
}

/// What a `Url` stands for.
pub struct UrlView {
    pub text: Seq<char>,
    pub href: Seq<char>,
}

impl View for Url {
    type V = UrlView;

    open spec fn view(&self) -> UrlView {
        UrlView { text: self.text@, href: self.href@ }
    }
}

/// What `url::Url::parse` makes of `text`: the URL as that crate writes it
/// back, or `None` where it refuses the text.
pub uninterp spec fn url_of_text(text: Seq<char>) -> Option<Seq<char>>;

/// Calls `url::Url::parse` on `text`. The contract claims only that the
/// outcome is a function of the text: what comes back is the URL's own
/// serialisation, which `url_of_text` names, and an error comes back exactly
/// where `url_of_text` is `None`.
#[verifier::external_body]
fn url_parse(text: &str) -> (r: Option<String>)
    ensures
        r.deep_view() == url_of_text(text@),
{
    match url::Url::parse(text) {
        Ok(parsed) => Some(String::from(parsed)),
        Err(_) => None,
    }
}

impl Url {
    /// Whether `text` is written as an absolute URL; `parse` succeeds
    /// exactly on such text.
    pub open spec fn is_url(text: Seq<char>) -> bool {
        url_of_text(text) is Some
    }

    /// The URL that `text` is written for.
    pub open spec fn of_text(text: Seq<char>) -> UrlView
        recommends
            Self::is_url(text),
    {
        UrlView { text, href: url_of_text(text)->Some_0 }
    }

    /// Reads `text` as an absolute URL.
    pub fn parse(text: &str) -> (r: Option<Url>)
        ensures
            r is Some <==> Self::is_url(text@),
            r matches Some(u) ==> u@ == Self::of_text(text@),
    {
        match url_parse(text) {
            Some(href) => Some(Url { text: text.to_owned(), href }),
            None => None,
        }
    }
}

impl Clone for Url {
    fn clone(&self) -> (r: Url)
        ensures
            r@ == self@,
    {
        Url { text: self.text.clone(), href: self.href.clone() }
    }
}

/// A mail exchange and how much it is preferred; lower is preferred.
#[derive(Debug)]
pub struct MX {
    pub preference: u16,
    pub exchange: DomainName,
}

/// What an `MX` stands for.
pub struct MXView {
    pub preference: u16,
    pub exchange: DomainNameView,
}

impl View for MX {
    type V = MXView;

    open spec fn view(&self) -> MXView {
        MXView { preference: self.preference, exchange: self.exchange@ }
    }
}

/// The start of a zone of authority.
#[derive(Debug)]
pub struct SOA {
    /// The name server that is the source of the zone's data.
    pub mname: DomainName,
    /// The mailbox of the person responsible for the zone.
    pub rname: DomainName,
    pub serial: u32,
    pub refresh: u32,
    pub retry: u32,
    pub expire: u32,
    pub minimum: u32,
}

/// What an `SOA` stands for.
pub struct SOAView {
    pub mname: DomainNameView,
    pub rname: DomainNameView,
    pub serial: u32,
    pub refresh: u32,
    pub retry: u32,
    pub expire: u32,
    pub minimum: u32,
}

impl View for SOA {
    type V = SOAView;

    open spec fn view(&self) -> SOAView {
        SOAView {
            mname: self.mname@,
            rname: self.rname@,
            serial: self.serial,
            refresh: self.refresh,
            retry: self.retry,
            expire: self.expire,
            minimum: self.minimum,
        }
    }
}

impl DeepView for SOA {
    type V = SOAView;

    open spec fn deep_view(&self) -> SOAView {
        self@
    }
}

/// Where a service is found.
#[derive(Debug)]
pub struct SRV {
    pub priority: u16,
    pub weight: u16,
    pub port: u16,
    pub target: DomainName,
}

/// What an `SRV` stands for.
pub struct SRVView {
    pub priority: u16,
    pub weight: u16,
    pub port: u16,
    pub target: DomainNameView,
}

impl View for SRV {
    type V = SRVView;

    open spec fn view(&self) -> SRVView {
        SRVView {
            priority: self.priority,
            weight: self.weight,
            port: self.port,
            target: self.target@,
        }
    }
}

impl DeepView for SRV {
    type V = SRVView;

    open spec fn deep_view(&self) -> SRVView {
        self@
    }
}

/// What a certification authority authorization is about.
#[derive(Clone, Copy, Debug, PartialEq, Eq, Structural)]
pub enum Property {
    /// Who may issue certificates for the domain.
    Issue,
    /// Who may issue wildcard certificates for the domain.
    IssueWild,
    /// Where to report requests that go against the authorization.
    Iodef,
}

/// The value of a certification authority authorization.
#[derive(Debug)]
pub enum Value {
    /// The domain name of an issuer.
    Issuer(DomainName),
    /// A URL to report to.
    Url(Url),
}

/// What a `Value` stands for.
pub enum ValueView {
    Issuer(DomainNameView),
    Url(UrlView),
}

impl View for Value {
    type V = ValueView;

    open spec fn view(&self) -> ValueView {
        match self {
            Value::Issuer(name) => ValueView::Issuer(name@),
            Value::Url(url) => ValueView::Url(url@),
        }
    }
}

/// A certification authority authorization.
#[derive(Debug)]
pub struct CAA {
    /// Whether an issuer that does not understand the property must refuse.
    pub issuer_critical: bool,
    pub tag: Property,
    pub value: Value,
}

/// What a `CAA` stands for.
pub struct CAAView {
    pub issuer_critical: bool,
    pub tag: Property,
    pub value: ValueView,
}

impl View for CAA {
    type V = CAAView;

    open spec fn view(&self) -> CAAView {
        CAAView { issuer_critical: self.issuer_critical, tag: self.tag, value: self.value@ }
    }
}

impl DeepView for CAA {
    type V = CAAView;

    open spec fn deep_view(&self) -> CAAView {
        self@
    }
}

/// The data of an answer.
#[derive(Debug)]
pub enum RData {
    /// An IPv4 address.
    A(u32),
    /// An IPv6 address.
    AAAA(u128),
    CAA(CAA),
    /// The name that the queried name is an alias of.
    CNAME(DomainName),
    MX(MX),
    /// A name server of the zone.
    NS(DomainName),
    SOA(SOA),
    SRV(SRV),
    /// Free text, as one piece.
    TXT(String),
}

/// What an `RData` stands for.
pub enum RDataView {
    A(u32),
    AAAA(u128),
    CAA(CAAView),
    CNAME(DomainNameView),
    MX(MXView),
    NS(DomainNameView),
    SOA(SOAView),
    SRV(SRVView),
    TXT(Seq<char>),
}

impl View for RData {
    type V = RDataView;

    open spec fn view(&self) -> RDataView {
        match self {
            RData::A(a) => RDataView::A(*a),
            RData::AAAA(a) => RDataView::AAAA(*a),
            RData::CAA(c) => RDataView::CAA(c@),
            RData::CNAME(n) => RDataView::CNAME(n@),
            RData::MX(m) => RDataView::MX(m@),
            RData::NS(n) => RDataView::NS(n@),
            RData::SOA(s) => RDataView::SOA(s@),
            RData::SRV(s) => RDataView::SRV(s@),
            RData::TXT(t) => RDataView::TXT(t@),
        }
    }
}

/// An answer: the name that was asked for, how long the answer may be kept,
/// and the data.
#[derive(Debug)]
pub struct ResolvedAnswer {
    pub name: DomainName,
    pub ttl: u32,
    pub rdata: RData,
}

/// What a `ResolvedAnswer` stands for.
pub struct ResolvedAnswerView {
    pub name: DomainNameView,
    pub ttl: u32,
    pub rdata: RDataView,
}

impl View for ResolvedAnswer {
    type V = ResolvedAnswerView;

    open spec fn view(&self) -> ResolvedAnswerView {
        ResolvedAnswerView { name: self.name@, ttl: self.ttl, rdata: self.rdata@ }
    }
}

impl DeepView for ResolvedAnswer {
    type V = ResolvedAnswerView;

    open spec fn deep_view(&self) -> ResolvedAnswerView {
        self@
    }
}

} // verus!
