//! Answering a request: which requests are accepted, where a request is
//! located, which records answer it, and what is sent back.

use vstd::prelude::*;
use crate::geo::{locate, select, selection, Location, LocationEntry, LocationView, SelectedView, location_of};
use crate::ip::{ip_value, ipv4_value, ipv6_value, parse_ipv4, parse_ipv6, IpAddress};
use crate::name::{is_zone_of, DomainName, DomainNameView};
use crate::options::{clone_records, Cli, Config, Record, RecordType, RecordView};
use crate::rdata::{MXView, RData, RDataView, ResolvedAnswer, ResolvedAnswerView, MX};
use crate::util::{
    caa_from_string, caa_of_text, soa_from_string, soa_of_text, srv_from_string, srv_of_text,
};

verus! {

/// What a message asks the server to do.
#[derive(Clone, Copy, Debug, PartialEq, Eq, Structural)]
pub enum OpCode {
    Query,
    Status,
    Notify,
    Update,
}

/// Whether a message asks or answers.
#[derive(Clone, Copy, Debug, PartialEq, Eq, Structural)]
pub enum MessageType {
    Query,
    Response,
}

/// How a response says that it went.
#[derive(Clone, Copy, Debug, PartialEq, Eq, Structural)]
pub enum ResponseCode {
    NoError,
    ServFail,
}

/// Why a value could not be made into the data of an answer.
#[derive(Clone, Copy, Debug, PartialEq, Eq, Structural)]
pub enum CodecError {
    /// The value is not written as its kind of record asks.
    MalformedValue,
    /// A mail exchange is configured without a preference.
    MissingPreference,
}

/// Why a request was not answered.
#[derive(Clone, Copy, Debug, PartialEq, Eq, Structural)]
pub enum Error {
    /// The request is not a query.
    InvalidOpCode(OpCode),
    /// The message is not a question.
    InvalidMessageType(MessageType),
    /// The response could not be sent.
    Io,
    /// Something happened that the request was not waiting for.
    OutOfTurn,
    /// The address to locate every request by is not an address.
    InvalidAddress,
    /// A record is configured for a zone whose name is not a domain name.
    InvalidRecordName,
    /// A value of a record that answers the request could not be read.
    Codec(CodecError),
}

/// What is read of a request.
#[derive(Debug)]
pub struct Request {
    pub op_code: OpCode,
    pub message_type: MessageType,
    /// The address that the request came from.
    pub src: IpAddress,
    /// The name that is asked for.
    pub name: DomainName,
}

/// What a `Request` stands for.
pub struct RequestView {
    pub op_code: OpCode,
    pub message_type: MessageType,
    pub src: IpAddress,
    pub name: DomainNameView,
}

impl View for Request {
    type V = RequestView;

    open spec fn view(&self) -> RequestView {
        RequestView {
            op_code: self.op_code,
            message_type: self.message_type,
            src: self.src,
            name: self.name@,
        }
    }
}

/// What is sent back.
#[derive(Debug)]
pub struct Response {
    pub code: ResponseCode,
    /// Whether the server answers for the zone itself.
    pub authoritative: bool,
    pub answers: Vec<ResolvedAnswer>,
}

/// What a `Response` stands for.
pub struct ResponseView {
    pub code: ResponseCode,
    pub authoritative: bool,
    pub answers: Seq<ResolvedAnswerView>,
}

impl View for Response {
    type V = ResponseView;

    open spec fn view(&self) -> ResponseView {
        ResponseView {
            code: self.code,
            authoritative: self.authoritative,
            answers: self.answers.deep_view(),
        }
    }
}

/// Answers requests from the configured records.
#[derive(Debug)]
pub struct Handler {
    /// The records, in the order in which they answer.
    pub records: Vec<Record>,
    /// An address to locate every request by, in place of its own source.
    pub use_ip: Option<String>,
}

/// What a `Handler` stands for.
pub struct HandlerView {
    pub records: Seq<RecordView>,
    pub use_ip: Option<Seq<char>>,
}

impl View for Handler {
    type V = HandlerView;

    open spec fn view(&self) -> HandlerView {
        HandlerView { records: self.records.deep_view(), use_ip: self.use_ip.deep_view() }
    }
}

/// The data that `value` is written for, as a record of kind `record_type`.
#[verifier::opaque]
pub open spec fn rdata_of(record_type: RecordType, value: Seq<char>, preference: Option<u16>) -> Result<
    RDataView,
    CodecError,
> {
    match record_type {
        RecordType::A => match ipv4_value(value) {
            Some(a) => Ok(RDataView::A(a)),
            None => Err(CodecError::MalformedValue),
        },
        RecordType::AAAA => match ipv6_value(value) {
            Some(a) => Ok(RDataView::AAAA(a)),
            None => Err(CodecError::MalformedValue),
        },
        RecordType::CAA => match caa_of_text(value) {
            Some(c) => Ok(RDataView::CAA(c)),
            None => Err(CodecError::MalformedValue),
        },
        RecordType::CNAME => if DomainName::is_name(value) {
            Ok(RDataView::CNAME(DomainName::of_text(value)))
        } else {
            Err(CodecError::MalformedValue)
        },
        RecordType::MX => match preference {
            None => Err(CodecError::MissingPreference),
            Some(p) => if DomainName::is_name(value) {
                Ok(RDataView::MX(MXView { preference: p, exchange: DomainName::of_text(value) }))
            } else {
                Err(CodecError::MalformedValue)
            },
        },
        RecordType::NS => if DomainName::is_name(value) {
            Ok(RDataView::NS(DomainName::of_text(value)))
        } else {
            Err(CodecError::MalformedValue)
        },
        RecordType::SOA => match soa_of_text(value) {
            Some(s) => Ok(RDataView::SOA(s)),
            None => Err(CodecError::MalformedValue),
        },
        RecordType::SRV => match srv_of_text(value) {
            Some(s) => Ok(RDataView::SRV(s)),
            None => Err(CodecError::MalformedValue),
        },
        RecordType::TXT => Ok(RDataView::TXT(value)),
    }
}

/// The answer to a question for `name` that `value` gives.
pub open spec fn answer_of(
    name: DomainNameView,
    record_type: RecordType,
    value: Seq<char>,
    ttl: u32,
    preference: Option<u16>,
) -> Result<ResolvedAnswerView, CodecError> {
    match rdata_of(record_type, value, preference) {
        Ok(rdata) => Ok(ResolvedAnswerView { name, ttl, rdata }),
        Err(e) => Err(e),
    }
}

/// The answers that the selected values give, in their order; the error of
/// the first value that cannot be read, if there is one.
pub open spec fn answers_of(
    name: DomainNameView,
    record_type: RecordType,
    preference: Option<u16>,
    selected: Seq<SelectedView>,
) -> Result<Seq<ResolvedAnswerView>, CodecError>
    decreases selected.len(),
{
    if selected.len() == 0 {
        Ok(Seq::empty())
    } else {
        match answers_of(name, record_type, preference, selected.drop_last()) {
            Err(e) => Err(e),
            Ok(before) => match answer_of(
                name,
                record_type,
                selected.last().value,
                selected.last().ttl,
                preference,
            ) {
                Err(e) => Err(e),
                Ok(a) => Ok(before.push(a)),
            },
        }
    }
}

/// The answers of one record to a question for `name` from `location`: none
/// where the record's zone does not hold the name, else one for each value
/// that is selected.
pub open spec fn record_answers(record: RecordView, name: DomainNameView, location: LocationView) -> Result<
    Seq<ResolvedAnswerView>,
    Error,
> {
    if !DomainName::is_name(record.name) {
        Err(Error::InvalidRecordName)
    } else if !is_zone_of(DomainName::of_text(record.name).labels, name.labels) {
        Ok(Seq::empty())
    } else {
        match answers_of(
            name,
            record.record_type,
            record.preference,
            selection(record, location.country, location.continent),
        ) {
            Ok(answers) => Ok(answers),
            Err(e) => Err(Error::Codec(e)),
        }
    }
}

/// The answers of all the records, in the order of the records; the error
/// of the first record that fails, if there is one.
pub open spec fn all_answers(records: Seq<RecordView>, name: DomainNameView, location: LocationView) -> Result<
    Seq<ResolvedAnswerView>,
    Error,
>
    decreases records.len(),
{
    if records.len() == 0 {
        Ok(Seq::empty())
    } else {
        match all_answers(records.drop_last(), name, location) {
            Err(e) => Err(e),
            Ok(before) => match record_answers(records.last(), name, location) {
                Err(e) => Err(e),
                Ok(answers) => Ok(before + answers),
            },
        }
    }
}

/// Whether a request is one that is answered: a query, in a message that
/// asks.
pub open spec fn accepted(request: RequestView) -> Result<(), Error> {
    if request.op_code != OpCode::Query {
        Err(Error::InvalidOpCode(request.op_code))
    } else if request.message_type != MessageType::Query {
        Err(Error::InvalidMessageType(request.message_type))
    } else {
        Ok(())
    }
}

/// The address that a request is located by: the configured one where there
/// is one, else the one that the request came from.
pub open spec fn effective_ip(use_ip: Option<Seq<char>>, src: IpAddress) -> Result<IpAddress, Error> {
    match use_ip {
        Some(text) => match ip_value(text) {
            Some(ip) => Ok(ip),
            None => Err(Error::InvalidAddress),
        },
        None => Ok(src),
    }
}

/// The address that an accepted request is located by.
pub open spec fn request_ip_of(handler: HandlerView, request: RequestView) -> Result<IpAddress, Error> {
    match accepted(request) {
        Err(e) => Err(e),
        Ok(_) => effective_ip(handler.use_ip, request.src),
    }
}

/// The answers to a request that was located at `location`.
pub open spec fn request_answers(handler: HandlerView, request: RequestView, location: LocationView) -> Result<
    Seq<ResolvedAnswerView>,
    Error,
> {
    match request_ip_of(handler, request) {
        Err(e) => Err(e),
        Ok(_) => all_answers(handler.records, request.name, location),
    }
}

/// What is sent back for an outcome: the answers, with authority, where
/// there was no error; a server failure without answers where there was one.
pub open spec fn response_of(outcome: Result<Seq<ResolvedAnswerView>, Error>) -> ResponseView {
    match outcome {
        Ok(answers) => ResponseView { code: ResponseCode::NoError, authoritative: true, answers },
        Err(_) => ResponseView {
            code: ResponseCode::ServFail,
            authoritative: false,
            answers: Seq::empty(),
        },
    }
}

/// Whether `r` is the outcome `expected`, taken by its view.
pub open spec fn is_outcome(
    r: Result<Vec<ResolvedAnswer>, Error>,
    expected: Result<Seq<ResolvedAnswerView>, Error>,
) -> bool {
    match r {
        Ok(answers) => expected == Ok::<Seq<ResolvedAnswerView>, Error>(answers.deep_view()),
        Err(e) => expected == Err::<Seq<ResolvedAnswerView>, Error>(e),
    }
}

/// Tells whether a request is one that is answered.
pub fn check_request(request: &Request) -> (r: Result<(), Error>)
    ensures
        r == accepted(request@),
{
    match request.op_code {
        OpCode::Query => {},
        _ => {
            return Err(Error::InvalidOpCode(request.op_code));
        },
    }
    match request.message_type {
        MessageType::Query => Ok(()),
        _ => Err(Error::InvalidMessageType(request.message_type)),
    }
}

impl Handler {
    /// A handler for the records of `options`, which locates requests as
    /// `cli` says.
    pub fn new(cli: &Cli, options: &Config) -> (r: Handler)
        ensures
            r@.records == options@.records,
            r@.use_ip == cli@.use_ip,
    {
        Handler {
            records: clone_records(&options.records),
            use_ip: match &cli.use_ip {
                Some(ip) => Some(ip.clone()),
                None => None,
            },
        }
    }

    /// Makes the answer to a question for `name` that `value` gives, as a
    /// record of kind `record_type`.
    pub fn generate_record(
        &self,
        name: &DomainName,
        record_type: RecordType,
        value: &str,
        ttl: u32,
        preference: Option<u16>,
    ) -> (r: Result<ResolvedAnswer, CodecError>)
        ensures
            match r {
                Ok(answer) => answer_of(name@, record_type, value@, ttl, preference) == Ok::<
                    ResolvedAnswerView,
                    CodecError,
                >(answer@),
                Err(e) => answer_of(name@, record_type, value@, ttl, preference) == Err::<
                    ResolvedAnswerView,
                    CodecError,
                >(e),
            },
    {
        reveal(rdata_of);
        let rdata = match record_type {
            RecordType::A => match parse_ipv4(value) {
                Some(a) => RData::A(a),
                None => {
                    return Err(CodecError::MalformedValue);
                },
            },
            RecordType::AAAA => match parse_ipv6(value) {
                Some(a) => RData::AAAA(a),
                None => {
                    return Err(CodecError::MalformedValue);
                },
            },
            RecordType::CAA => match caa_from_string(value) {
                Some(c) => RData::CAA(c),
                None => {
                    return Err(CodecError::MalformedValue);
                },
            },
            RecordType::CNAME => match DomainName::parse(value) {
                Some(n) => RData::CNAME(n),
                None => {
                    return Err(CodecError::MalformedValue);
                },
            },
            RecordType::MX => match preference {
                None => {
                    return Err(CodecError::MissingPreference);
                },
                Some(p) => match DomainName::parse(value) {
                    Some(n) => RData::MX(MX { preference: p, exchange: n }),
                    None => {
                        return Err(CodecError::MalformedValue);
                    },
                },
            },
            RecordType::NS => match DomainName::parse(value) {
                Some(n) => RData::NS(n),
                None => {
                    return Err(CodecError::MalformedValue);
                },
            },
            RecordType::SOA => match soa_from_string(value) {
                Some(s) => RData::SOA(s),
                None => {
                    return Err(CodecError::MalformedValue);
                },
            },
            RecordType::SRV => match srv_from_string(value) {
                Some(s) => RData::SRV(s),
                None => {
                    return Err(CodecError::MalformedValue);
                },
            },
            RecordType::TXT => RData::TXT(value.to_owned()),
        };
        Ok(ResolvedAnswer { name: name.clone(), ttl, rdata })
    }

    /// The address to locate a request by, if the request is accepted.
    pub fn request_ip(&self, request: &Request) -> (r: Result<IpAddress, Error>)
        ensures
            r == request_ip_of(self@, request@),
    {
        match check_request(request) {
            Err(e) => {
                return Err(e);
            },
            Ok(_) => {},
        }
        match &self.use_ip {
            Some(text) => match IpAddress::parse(text.as_str()) {
                Some(ip) => Ok(ip),
                None => Err(Error::InvalidAddress),
            },
            None => Ok(request.src),
        }
    }

    /// The answers of one record to a question for `name` from `location`.
    pub fn answer_record(&self, record: &Record, name: &DomainName, location: &Location) -> (r:
        Result<Vec<ResolvedAnswer>, Error>)
        ensures
            is_outcome(r, record_answers(record@, name@, location@)),
    {
        let zone = match DomainName::parse(record.name.as_str()) {
            Some(zone) => zone,
            None => {
                return Err(Error::InvalidRecordName);
            },
        };
        if !zone.zone_of(name) {
            let out: Vec<ResolvedAnswer> = Vec::new();
            proof {
                assert(out.deep_view() =~= Seq::<ResolvedAnswerView>::empty());
            }
            return Ok(out);
        }
        let selected = select(record, location);
        let ghost sel = selection(record@, location@.country, location@.continent);
        let mut out: Vec<ResolvedAnswer> = Vec::new();
        let mut i: usize = 0;
        proof {
            assert(sel.take(0) =~= Seq::<SelectedView>::empty());
            assert(out.deep_view() =~= Seq::<ResolvedAnswerView>::empty());
        }
        while i < selected.len()
            invariant
                i <= selected@.len(),
                selected.deep_view() == sel,
                sel == selection(record@, location@.country, location@.continent),
                DomainName::is_name(record@.name),
                is_zone_of(DomainName::of_text(record@.name).labels, name@.labels),
                answers_of(name@, record@.record_type, record@.preference, sel.take(i as int))
                    == Ok::<Seq<ResolvedAnswerView>, CodecError>(out.deep_view()),
            decreases selected@.len() - i,
        {
            let one = &selected[i];
            proof {
                assert(sel.take(i + 1).drop_last() =~= sel.take(i as int));
                assert(sel.take(i + 1).last() == one@);
            }
            match self.generate_record(
                name,
                record.record_type,
                one.value.as_str(),
                one.ttl,
                record.preference,
            ) {
                Ok(answer) => {
                    let ghost before = out.deep_view();
                    let ghost a = answer@;
                    out.push(answer);
                    proof {
                        assert(out.deep_view() =~= before.push(a));
                    }
                },
                Err(e) => {
                    proof {
                        lemma_answers_of_error(
                            name@,
                            record@.record_type,
                            record@.preference,
                            sel,
                            i + 1,
                        );
                    }
                    return Err(Error::Codec(e));
                },
            }
            i += 1;
        }
        proof {
            assert(sel.take(sel.len() as int) =~= sel);
        }
        Ok(out)
    }

    /// The answers to a request that was located at `location`, from all the
    /// records.
    pub fn answers(&self, name: &DomainName, location: &Location) -> (r: Result<
        Vec<ResolvedAnswer>,
        Error,
    >)
        ensures
            is_outcome(r, all_answers(self@.records, name@, location@)),
    {
        let ghost records = self@.records;
        let mut out: Vec<ResolvedAnswer> = Vec::new();
        let mut i: usize = 0;
        proof {
            assert(records.take(0) =~= Seq::<RecordView>::empty());
            assert(out.deep_view() =~= Seq::<ResolvedAnswerView>::empty());
        }
        while i < self.records.len()
            invariant
                i <= self.records@.len(),
                records == self@.records,
                all_answers(records.take(i as int), name@, location@) == Ok::<
                    Seq<ResolvedAnswerView>,
                    Error,
                >(out.deep_view()),
            decreases self.records@.len() - i,
        {
            let record = &self.records[i];
            proof {
                assert(records.take(i + 1).drop_last() =~= records.take(i as int));
                assert(records.take(i + 1).last() == record@);
            }
            match self.answer_record(record, name, location) {
                Ok(mut answers) => {
                    let ghost before = out.deep_view();
                    let ghost more = answers.deep_view();
                    out.append(&mut answers);
                    proof {
                        assert(out.deep_view() =~= before + more);
                    }
                },
                Err(e) => {
                    proof {
                        lemma_all_answers_error(records, name@, location@, i + 1);
                    }
                    return Err(e);
                },
            }
            i += 1;
        }
        proof {
            assert(records.take(records.len() as int) =~= records);
        }
        Ok(out)
    }

    /// Answers a request, given what the location database holds for the
    /// address that `request_ip` names: the request is checked, located,
    /// matched against the zones of the records, and answered by the values
    /// that are selected.
    pub fn do_handle_request(&self, request: &Request, found: Option<&LocationEntry>) -> (r:
        Result<Vec<ResolvedAnswer>, Error>)
        ensures
            is_outcome(r, request_answers(self@, request@, location_of(found.deep_view()))),
    {
        match self.request_ip(request) {
            Err(e) => {
                return Err(e);
            },
            Ok(_) => {},
        }
        let location = locate(found);
        self.answers(&request.name, &location)
    }

    /// What is sent back for a request: the answers, with authority; or a
    /// server failure, without answers, where the request is not accepted
    /// or cannot be answered.
    pub fn handle_request(&self, request: &Request, found: Option<&LocationEntry>) -> (r: Response)
        ensures
            r@ == response_of(request_answers(self@, request@, location_of(found.deep_view()))),
    {
        match self.do_handle_request(request, found) {
            Ok(answers) => Response { code: ResponseCode::NoError, authoritative: true, answers },
            Err(_) => {
                let answers: Vec<ResolvedAnswer> = Vec::new();
                proof {
                    assert(answers.deep_view() =~= Seq::<ResolvedAnswerView>::empty());
                }
                Response { code: ResponseCode::ServFail, authoritative: false, answers }
            },
        }
    }
}

/// Where the values up to the `k`-th give an error, all the values give
/// that error.
pub proof fn lemma_answers_of_error(
    name: DomainNameView,
    record_type: RecordType,
    preference: Option<u16>,
    selected: Seq<SelectedView>,
    k: int,
)
    requires
        0 <= k <= selected.len(),
        answers_of(name, record_type, preference, selected.take(k)) is Err,
    ensures
        answers_of(name, record_type, preference, selected) == answers_of(
            name,
            record_type,
            preference,
            selected.take(k),
        ),
    decreases selected.len() - k,
{
    if k == selected.len() {
        assert(selected.take(k) =~= selected);
    } else {
        assert(selected.drop_last().take(k) =~= selected.take(k));
        lemma_answers_of_error(name, record_type, preference, selected.drop_last(), k);
    }
}

/// Where the records up to the `k`-th give an error, all the records give
/// that error.
pub proof fn lemma_all_answers_error(
    records: Seq<RecordView>,
    name: DomainNameView,
    location: LocationView,
    k: int,
)
    requires
        0 <= k <= records.len(),
        all_answers(records.take(k), name, location) is Err,
    ensures
        all_answers(records, name, location) == all_answers(records.take(k), name, location),
    decreases records.len() - k,
{
    if k == records.len() {
        assert(records.take(k) =~= records);
    } else {
        assert(records.drop_last().take(k) =~= records.take(k));
        lemma_all_answers_error(records.drop_last(), name, location, k);
    }
}

} // verus!
