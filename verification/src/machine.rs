//! The course of one request, as steps between the things that happen
//! outside: the lookup of a location, and the sending of the response.
//!
//! A request is received, checked, located, matched against the zones,
//! answered and sent. The handler waits in `Validated` for the location and
//! in `Built` for the response to be sent; locating, matching and building
//! are one step, as nothing outside happens between them.

use vstd::prelude::*;
use crate::geo::{locate, location_of, LocationEntry, LocationEntryView};
use crate::handler::{
    accepted, all_answers, request_answers, request_ip_of, response_of, Error, Handler,
    HandlerView, Request, RequestView, ResponseCode,
};
use crate::ip::IpAddress;
use crate::rdata::{ResolvedAnswer, ResolvedAnswerView};

verus! {

/// Where a request stands.
#[derive(Clone, Copy, Debug, PartialEq, Eq, Structural)]
pub enum State {
    /// The request has come in; nothing is decided.
    Received,
    /// The request is accepted, and the location of its address is asked
    /// for.
    Validated,
    /// The request is located, matched and answered, and the answers are
    /// handed over to be sent.
    Built,
    /// The response is sent.
    Sent,
    /// The request is not one that is answered.
    Rejected,
    /// The request could not be answered, or the response could not be
    /// sent.
    Failed,
}

/// What happened outside.
#[derive(Debug)]
pub enum Event {
    /// A request came in.
    Request,
    /// The location database was asked, and found this.
    Located(Option<LocationEntry>),
    /// The response was sent.
    Sent,
    /// The response could not be sent.
    SendFailed,
}

/// What an `Event` stands for.
pub enum EventView {
    Request,
    Located(Option<LocationEntryView>),
    Sent,
    SendFailed,
}

impl View for Event {
    type V = EventView;

    open spec fn view(&self) -> EventView {
        match self {
            Event::Request => EventView::Request,
            Event::Located(found) => EventView::Located(found.deep_view()),
            Event::Sent => EventView::Sent,
            Event::SendFailed => EventView::SendFailed,
        }
    }
}

/// What is to be done outside.
#[derive(Debug)]
pub enum Action {
    /// Ask the location database for this address.
    Locate(IpAddress),
    /// Send these answers, with authority.
    Send(Vec<ResolvedAnswer>),
    /// Nothing more: the response is sent.
    Done,
    /// Nothing more: the request ends as a server failure, for this reason.
    Fail(Error),
}

/// What an `Action` stands for.
pub enum ActionView {
    Locate(IpAddress),
    Send(Seq<ResolvedAnswerView>),
    Done,
    Fail(Error),
}

/// The code that a request ends with, for an action that ends it.
pub open spec fn code_of(action: ActionView) -> Option<ResponseCode> {
    match action {
        ActionView::Done => Some(ResponseCode::NoError),
        ActionView::Fail(_) => Some(ResponseCode::ServFail),
        _ => None,
    }
}

impl View for Action {
    type V = ActionView;

    open spec fn view(&self) -> ActionView {
        match self {
            Action::Locate(ip) => ActionView::Locate(*ip),
            Action::Send(answers) => ActionView::Send(answers.deep_view()),
            Action::Done => ActionView::Done,
            Action::Fail(e) => ActionView::Fail(*e),
        }
    }
}

/// The state that follows `state` when `event` happens, and what is to be
/// done then. An event that the state does not wait for ends the request
/// in failure.
pub open spec fn next(handler: HandlerView, request: RequestView, state: State, event: EventView) -> (
    State,
    ActionView,
) {
    match (state, event) {
        (State::Received, EventView::Request) => match request_ip_of(handler, request) {
            Ok(ip) => (State::Validated, ActionView::Locate(ip)),
            Err(e) => if accepted(request) is Err {
                (State::Rejected, ActionView::Fail(e))
            } else {
                (State::Failed, ActionView::Fail(e))
            },
        },
        (State::Validated, EventView::Located(found)) => match all_answers(
            handler.records,
            request.name,
            location_of(found),
        ) {
            Ok(answers) => (State::Built, ActionView::Send(answers)),
            Err(e) => (State::Failed, ActionView::Fail(e)),
        },
        (State::Built, EventView::Sent) => (State::Sent, ActionView::Done),
        (State::Built, EventView::SendFailed) => (State::Failed, ActionView::Fail(Error::Io)),
        _ => (State::Failed, ActionView::Fail(Error::OutOfTurn)),
    }
}

/// A request that is not a query, or whose message does not ask, is
/// rejected at once with a server failure: nothing is looked up and no
/// answer is sent.
pub proof fn lemma_rejected(handler: HandlerView, request: RequestView)
    requires
        accepted(request) is Err,
    ensures
        next(handler, request, State::Received, EventView::Request).0 == State::Rejected,
        code_of(next(handler, request, State::Received, EventView::Request).1) == Some(
            ResponseCode::ServFail,
        ),
{
}

/// A request that goes through all the steps is sent the answers that
/// `request_answers` names, and ends without error.
pub proof fn lemma_answered(
    handler: HandlerView,
    request: RequestView,
    found: Option<LocationEntryView>,
)
    requires
        request_answers(handler, request, location_of(found)) is Ok,
    ensures
        next(handler, request, State::Received, EventView::Request).0 == State::Validated,
        next(handler, request, State::Validated, EventView::Located(found)) == (
            State::Built,
            ActionView::Send(response_of(request_answers(handler, request, location_of(found))).answers),
        ),
        next(handler, request, State::Built, EventView::Sent) == (State::Sent, ActionView::Done),
        code_of(ActionView::Done) == Some(ResponseCode::NoError),
{
}

/// Once a request is sent, rejected or failed, every event ends it in
/// failure: no state is left again.
pub proof fn lemma_ended(handler: HandlerView, request: RequestView, state: State, event: EventView)
    requires
        state == State::Sent || state == State::Rejected || state == State::Failed,
    ensures
        next(handler, request, state, event) == (
            State::Failed,
            ActionView::Fail(Error::OutOfTurn),
        ),
{
}

impl Action {
    /// The code that the request ends with, where this action ends it.
    pub fn response_code(&self) -> (r: Option<ResponseCode>)
        ensures
            r == code_of(self@),
    {
        match self {
            Action::Done => Some(ResponseCode::NoError),
            Action::Fail(_) => Some(ResponseCode::ServFail),
            _ => None,
        }
    }
}

impl Handler {
    /// Takes one step for `request`: from `state`, when `event` happened.
    pub fn step(&self, request: &Request, state: State, event: Event) -> (r: (State, Action))
        ensures
            (r.0, r.1@) == next(self@, request@, state, event@),
    {
        match (state, event) {
            (State::Received, Event::Request) => match self.request_ip(request) {
                Ok(ip) => (State::Validated, Action::Locate(ip)),
                Err(e) => match e {
                    Error::InvalidOpCode(_) | Error::InvalidMessageType(_) => (
                        State::Rejected,
                        Action::Fail(e),
                    ),
                    _ => (State::Failed, Action::Fail(e)),
                },
            },
            (State::Validated, Event::Located(found)) => {
                let location = locate(found.as_ref());
                match self.answers(&request.name, &location) {
                    Ok(answers) => (State::Built, Action::Send(answers)),
                    Err(e) => (State::Failed, Action::Fail(e)),
                }
            },
            (State::Built, Event::Sent) => (State::Sent, Action::Done),
            (State::Built, Event::SendFailed) => (State::Failed, Action::Fail(Error::Io)),
            _ => (State::Failed, Action::Fail(Error::OutOfTurn)),
        }
    }
}

} // verus!
