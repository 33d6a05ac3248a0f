//! What the operator configures: the command line, and the records that the
//! server answers with.

use vstd::prelude::*;

verus! {

/// The command line.
#[derive(Debug)]
pub struct Cli {
    /// Path of the configuration file.
    pub config: String,
    /// Path of the location database file.
    pub mmdb: String,
    /// An address to locate every request by, in place of its own source.
    pub use_ip: Option<String>,
}

/// What a `Cli` stands for.
pub struct CliView {
    pub config: Seq<char>,
    pub mmdb: Seq<char>,
    pub use_ip: Option<Seq<char>>,
}

impl View for Cli {
    type V = CliView;

    open spec fn view(&self) -> CliView {
        CliView { config: self.config@, mmdb: self.mmdb@, use_ip: self.use_ip.deep_view() }
    }
}

/// The kinds of record that can be configured.
#[derive(Clone, Copy, Debug, PartialEq, Eq, Structural)]
pub enum RecordType {
    A,
    AAAA,
    CAA,
    CNAME,
    MX,
    NS,
    SOA,
    SRV,
    TXT,
}

/// A value that a record takes for requests from one country or continent.
#[derive(Debug)]
pub struct GeoRecord {
    /// The value, written as the record's kind asks.
    pub value: String,
    /// The country that the rule is for.
    pub country: Option<String>,
    /// The continent that the rule is for.
    pub continent: Option<String>,
    /// Time to live; the record's own where there is none.
    pub ttl: Option<u32>,
}

/// What a `GeoRecord` stands for.
pub struct GeoRecordView {
    pub value: Seq<char>,
    pub country: Option<Seq<char>>,
    pub continent: Option<Seq<char>>,
    pub ttl: Option<u32>,
}

impl View for GeoRecord {
    type V = GeoRecordView;

    open spec fn view(&self) -> GeoRecordView {
        GeoRecordView {
            value: self.value@,
            country: self.country.deep_view(),
            continent: self.continent.deep_view(),
            ttl: self.ttl,
        }
    }
}

impl DeepView for GeoRecord {
    type V = GeoRecordView;

    open spec fn deep_view(&self) -> GeoRecordView {
        self@
    }
}

/// A configured record: the zone it answers for, its kind, and the values it
/// takes.
#[derive(Debug)]
pub struct Record {
    /// The domain name of the zone.
    pub name: String,
    /// The kind of record.
    pub record_type: RecordType,
    /// The value where no rule in `geo` applies.
    pub value: String,
    /// The values by location, in the order in which they are tried.
    pub geo: Vec<GeoRecord>,
    /// Time to live, in seconds.
    pub ttl: u32,
    /// The preference of a mail exchange.
    pub preference: Option<u16>,
}

/// What a `Record` stands for.
pub struct RecordView {
    pub name: Seq<char>,
    pub record_type: RecordType,
    pub value: Seq<char>,
    pub geo: Seq<GeoRecordView>,
    pub ttl: u32,
    pub preference: Option<u16>,
}

impl View for Record {
    type V = RecordView;

    open spec fn view(&self) -> RecordView {
        RecordView {
            name: self.name@,
            record_type: self.record_type,
            value: self.value@,
            geo: self.geo.deep_view(),
            ttl: self.ttl,
            preference: self.preference,
        }
    }
}

impl DeepView for Record {
    type V = RecordView;

    open spec fn deep_view(&self) -> RecordView {
        self@
    }
}

/// The configuration file.
#[derive(Debug)]
pub struct Config {
    /// The addresses to listen on for UDP.
    pub udp: Vec<String>,
    /// The addresses to listen on for TCP.
    pub tcp: Vec<String>,
    /// The records, in the order in which they answer.
    pub records: Vec<Record>,
}

/// What a `Config` stands for.
pub struct ConfigView {
    pub udp: Seq<Seq<char>>,
    pub tcp: Seq<Seq<char>>,
    pub records: Seq<RecordView>,
}

impl View for Config {
    type V = ConfigView;

    open spec fn view(&self) -> ConfigView {
        ConfigView {
            udp: self.udp.deep_view(),
            tcp: self.tcp.deep_view(),
            records: self.records.deep_view(),
        }
    }
}

/// The addresses that are listened on where the configuration names none:
/// port 53 on every IPv4 and on every IPv6 address.
pub open spec fn default_listeners() -> Seq<Seq<char>> {
    seq!["0.0.0.0:53"@, "[::]:53"@]
}

/// The UDP addresses to listen on where the configuration names none.
pub fn udp_default() -> (r: Vec<String>)
    ensures
        r.deep_view() == default_listeners(),
{
    let mut out: Vec<String> = Vec::new();
    out.push("0.0.0.0:53".to_owned());
    out.push("[::]:53".to_owned());
    proof {
        assert(out.deep_view() =~= default_listeners());
    }
    out
}

/// The TCP addresses to listen on where the configuration names none.
pub fn tcp_default() -> (r: Vec<String>)
    ensures
        r.deep_view() == default_listeners(),
{
    let mut out: Vec<String> = Vec::new();
    out.push("0.0.0.0:53".to_owned());
    out.push("[::]:53".to_owned());
    proof {
        assert(out.deep_view() =~= default_listeners());
    }
    out
}

/// The time to live of a record that names none: one day.
pub fn ttl_default() -> (r: u32)
    ensures
        r == 86400,
{
    86400
}

/// The list of a record that names none.
pub fn empty_vec<T>() -> (r: Vec<T>)
    ensures
        r@.len() == 0,
{
    Vec::new()
}

impl Clone for GeoRecord {
    fn clone(&self) -> (r: GeoRecord)
        ensures
            r@ == self@,
    {
        GeoRecord {
            value: self.value.clone(),
            country: match &self.country {
                Some(c) => Some(c.clone()),
                None => None,
            },
            continent: match &self.continent {
                Some(c) => Some(c.clone()),
                None => None,
            },
            ttl: self.ttl,
        }
    }
}

impl Clone for Record {
    fn clone(&self) -> (r: Record)
        ensures
            r@ == self@,
    {
        let mut geo: Vec<GeoRecord> = Vec::new();
        let mut i: usize = 0;
        while i < self.geo.len()
            invariant
                i <= self.geo@.len(),
                geo@.len() == i,
                forall|j: int| 0 <= j < i ==> (#[trigger] geo@[j])@ == self.geo@[j]@,
            decreases self.geo@.len() - i,
        {
            geo.push(self.geo[i].clone());
            i += 1;
        }
        proof {
            assert(geo.deep_view() =~= self.geo.deep_view());
        }
        Record {
            name: self.name.clone(),
            record_type: self.record_type,
            value: self.value.clone(),
            geo,
            ttl: self.ttl,
            preference: self.preference,
        }
    }
}

/// Copies a list of records.
pub fn clone_records(records: &Vec<Record>) -> (r: Vec<Record>)
    ensures
        r.deep_view() == records.deep_view(),
{
    let mut out: Vec<Record> = Vec::new();
    let mut i: usize = 0;
    while i < records.len()
        invariant
            i <= records@.len(),
            out@.len() == i,
            forall|j: int| 0 <= j < i ==> (#[trigger] out@[j])@ == records@[j]@,
        decreases records@.len() - i,
    {
        out.push(records[i].clone());
        i += 1;
    }
    proof {
        assert(out.deep_view() =~= records.deep_view());
    }
    out
}

} // verus!
