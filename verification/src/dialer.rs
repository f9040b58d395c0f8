//! The initiator ("dialer") state machine.
//!
//! The dialer sends the handshake header, awaits the acceptor's echo of it,
//! then proposes one candidate protocol and interprets the acceptor's
//! response. Its primitive is "propose one name, observe one outcome":
//! retrying with another candidate after a rejection is the caller's policy,
//! composed by proposing again. As with the listener, a driving loop outside
//! this crate moves the frames; every decision about the bytes is made here.

use vstd::prelude::*;

use crate::errors::MultistreamSelectError;
use crate::message::{
    decode_request_spec, decode_response_spec, encode_request_spec, encode_response_spec,
    frame_is_header, frame_view, header_frame, lemma_accept_round_trip, lemma_propose_round_trip,
    msg_multistream, protocol_line, valid_protocol_name, RequestModel, Response, ResponseModel,
};
use crate::message;

verus! {

/// Where the dialer stands in the negotiation.
#[derive(Clone, Copy, Debug, PartialEq, Eq, Structural)]
pub enum DialerPhase {
    /// The handshake header is being sent.
    SendingHeader,
    /// Waiting for the acceptor to echo the header.
    AwaitingEcho,
    /// The handshake is complete; a candidate may be proposed.
    Ready,
    /// A proposal frame is being sent.
    Proposing,
    /// Waiting for the acceptor's answer to the proposal.
    AwaitingResponse,
    /// The acceptor accepted the proposed protocol; negotiation succeeded.
    Done,
    /// The handshake or the negotiation failed; the connection is presumed
    /// desynchronized and is not reused.
    Failed,
}

/// The initiator role of one negotiation attempt. While a proposal is in
/// flight, `candidate` is the name it carries; once `Done`, it is the agreed
/// name.
pub struct Dialer {
    /// Where this dialer stands.
    pub phase: DialerPhase,
    /// The protocol name most recently proposed.
    pub candidate: Vec<u8>,
}

/// Where the dialer stands after the acceptor's answer to a proposal, and
/// what that answer means against the proposed candidate: an echo of the
/// candidate completes the negotiation; an echo of any other name is the
/// fatal mismatch; the not-available answer returns the dialer to `Ready`
/// so that the caller may propose another candidate; anything else is the
/// fatal decode failure.
pub open spec fn after_response(candidate: Seq<u8>, frame: Seq<u8>) -> DialerPhase {
    match decode_response_spec(frame) {
        Some(ResponseModel::Protocol { name }) => if name == candidate {
            DialerPhase::Done
        } else {
            DialerPhase::Failed
        },
        Some(ResponseModel::NotAvailable) => DialerPhase::Ready,
        _ => DialerPhase::Failed,
    }
}

/// What the acceptor's answer to a proposal yields.
pub open spec fn response_result(candidate: Seq<u8>, frame: Seq<u8>) -> Result<
    ResponseModel,
    MultistreamSelectError,
> {
    match decode_response_spec(frame) {
        Some(ResponseModel::Protocol { name }) => if name == candidate {
            Ok(ResponseModel::Protocol { name })
        } else {
            Err(MultistreamSelectError::InvalidProtocolName)
        },
        Some(ResponseModel::NotAvailable) => Ok(ResponseModel::NotAvailable),
        _ => Err(MultistreamSelectError::UnknownMessage),
    }
}

/// The model of what `Dialer::on_response` returned.
pub open spec fn response_result_view(r: Result<Response, MultistreamSelectError>) -> Result<
    ResponseModel,
    MultistreamSelectError,
> {
    match r {
        Ok(resp) => Ok(resp@),
        Err(e) => Err(e),
    }
}

impl Dialer {
    /// A fresh initiator, about to send the handshake header.
    pub fn new() -> (r: Dialer)
        ensures
            r.phase == DialerPhase::SendingHeader,
            r.candidate@ == Seq::<u8>::empty(),
    {
        Dialer { phase: DialerPhase::SendingHeader, candidate: Vec::new() }
    }

    /// The header frame to send first; handed to the framed transport
    /// unchanged.
    pub fn header_frame(&self) -> (frame: Vec<u8>)
        requires
            self.phase == DialerPhase::SendingHeader,
        ensures
            frame@ == msg_multistream(),
    {
        header_frame()
    }

    /// The header has been fully sent: wait for the acceptor's echo.
    pub fn on_header_sent(&mut self)
        requires
            old(self).phase == DialerPhase::SendingHeader,
        ensures
            final(self).phase == DialerPhase::AwaitingEcho,
            final(self).candidate == old(self).candidate,
    {
        self.phase = DialerPhase::AwaitingEcho;
    }

    /// Judge the acceptor's first frame (or its absence, when the stream
    /// ended before any frame). Exactly the header is accepted; anything
    /// else fails the handshake.
    pub fn on_echo_frame(&mut self, frame: Option<&Vec<u8>>) -> (r: Result<
        (),
        MultistreamSelectError,
    >)
        requires
            old(self).phase == DialerPhase::AwaitingEcho,
        ensures
            final(self).candidate == old(self).candidate,
            frame_view(frame) == Some(msg_multistream()) ==> final(self).phase == DialerPhase::Ready
                && r is Ok,
            frame_view(frame) != Some(msg_multistream()) ==> final(self).phase
                == DialerPhase::Failed && r == Err::<(), _>(
                MultistreamSelectError::FailedHandshake,
            ),
    {
        match frame {
            Some(f) if frame_is_header(f) => {
                self.phase = DialerPhase::Ready;
                Ok(())
            },
            _ => {
                self.phase = DialerPhase::Failed;
                Err(MultistreamSelectError::FailedHandshake)
            },
        }
    }

    /// Propose one candidate protocol: the returned frame carries the
    /// proposal and is handed to the framed transport unchanged.
    pub fn propose(&mut self, candidate: Vec<u8>) -> (frame: Vec<u8>)
        requires
            old(self).phase == DialerPhase::Ready,
            valid_protocol_name(candidate@),
        ensures
            final(self).phase == DialerPhase::Proposing,
            final(self).candidate@ == candidate@,
            frame@ == encode_request_spec(RequestModel::Protocol { name: candidate@ }),
    {
        let frame = protocol_line(&candidate);
        self.candidate = candidate;
        self.phase = DialerPhase::Proposing;
        frame
    }

    /// The proposal has been fully sent: wait for the acceptor's answer.
    pub fn on_proposal_sent(&mut self)
        requires
            old(self).phase == DialerPhase::Proposing,
        ensures
            final(self).phase == DialerPhase::AwaitingResponse,
            final(self).candidate == old(self).candidate,
    {
        self.phase = DialerPhase::AwaitingResponse;
    }

    /// Interpret the acceptor's answer to the proposal. An echo of the
    /// proposed candidate succeeds; an echo of any other name is the fatal
    /// `InvalidProtocolName` mismatch — the acceptor is desynchronized or
    /// misbehaving, and the attempt is not retried on this connection. The
    /// not-available answer rejects only this candidate: the dialer is
    /// `Ready` again and the caller decides whether to propose another.
    pub fn on_response(&mut self, frame: &Vec<u8>) -> (r: Result<
        Response,
        MultistreamSelectError,
    >)
        requires
            old(self).phase == DialerPhase::AwaitingResponse,
        ensures
            final(self).phase == after_response(old(self).candidate@, frame@),
            response_result_view(r) == response_result(old(self).candidate@, frame@),
            final(self).candidate == old(self).candidate,
    {
        match message::decode_response(frame) {
            Ok(Response::Protocol { name }) => {
                if message::bytes_eq(&name, &self.candidate) {
                    self.phase = DialerPhase::Done;
                    Ok(Response::Protocol { name })
                } else {
                    self.phase = DialerPhase::Failed;
                    Err(MultistreamSelectError::InvalidProtocolName)
                }
            },
            Ok(Response::NotAvailable) => {
                self.phase = DialerPhase::Ready;
                Ok(Response::NotAvailable)
            },
            Ok(Response::ProtocolsList { .. }) => {
                proof {
                    assert(false);
                }
                unreached()
            },
            Err(e) => {
                self.phase = DialerPhase::Failed;
                Err(e)
            },
        }
    }

    /// The agreed protocol name, once negotiation has succeeded.
    pub fn agreed_protocol(&self) -> (name: &Vec<u8>)
        requires
            self.phase == DialerPhase::Done,
        ensures
            name@ == self.candidate@,
    {
        &self.candidate
    }
}

/// Agreement: for every protocol name that starts with `/` and contains no
/// newline, the frame that proposes it decodes on the acceptor's side to
/// exactly that proposal, and the frame that echoes it back completes the
/// dialer's negotiation with the same agreed name — so both roles end the
/// happy path holding one name.
pub proof fn lemma_agreement(name: Seq<u8>)
    requires
        name.len() > 0,
        name.first() == 47u8,
        forall|i: int| 0 <= i < name.len() ==> name[i] != 10u8,
    ensures
        decode_request_spec(encode_request_spec(RequestModel::Protocol { name })) == Some(
            RequestModel::Protocol { name },
        ),
        after_response(name, encode_response_spec(ResponseModel::Protocol { name }))
            == DialerPhase::Done,
        response_result(name, encode_response_spec(ResponseModel::Protocol { name })) == Ok::<
            _,
            MultistreamSelectError,
        >(ResponseModel::Protocol { name }),
{
    lemma_propose_round_trip(name);
    assert(name != seq![110u8, 97u8]) by {
        assert(seq![110u8, 97u8][0] == 110u8);
    }
    lemma_accept_round_trip(name);
}

/// Mismatch detection: whatever single valid name the acceptor echoes, the
/// dialer accepts it exactly when it is the proposed candidate; every other
/// echoed name fails the attempt with `InvalidProtocolName`, and a frame
/// that carries no single response at all fails it with `UnknownMessage`.
pub proof fn lemma_mismatch_detection(candidate: Seq<u8>, frame: Seq<u8>)
    ensures
        after_response(candidate, frame) == DialerPhase::Done <==> decode_response_spec(frame)
            == Some(ResponseModel::Protocol { name: candidate }),
        decode_response_spec(frame) matches Some(ResponseModel::Protocol { name })
            && name != candidate ==> after_response(candidate, frame) == DialerPhase::Failed
            && response_result(candidate, frame) == Err::<ResponseModel, _>(
            MultistreamSelectError::InvalidProtocolName,
        ),
        decode_response_spec(frame) is None ==> response_result(candidate, frame) == Err::<
            ResponseModel,
            _,
        >(MultistreamSelectError::UnknownMessage),
{
}

/// One input to the dialer, as the model sees it: each variant stands for
/// one of the methods above being driven with that method's argument.
pub enum DialerEvent {
    /// The header frame was fully sent.
    HeaderSent,
    /// The acceptor's first frame arrived, or the stream ended before one.
    EchoFrame(Option<Seq<u8>>),
    /// A candidate was proposed.
    Proposed(Seq<u8>),
    /// The proposal frame was fully sent.
    ProposalSent,
    /// The acceptor's answer to the proposal arrived.
    ResponseFrame(Seq<u8>),
}

/// Where the dialer stands after one event, as a phase and the candidate it
/// carries. An event that the current phase does not expect leaves the
/// dialer where it stands (the methods' preconditions refuse such calls
/// altogether).
pub open spec fn dialer_step(state: (DialerPhase, Seq<u8>), ev: DialerEvent) -> (
    DialerPhase,
    Seq<u8>,
) {
    match ev {
        DialerEvent::HeaderSent => if state.0 == DialerPhase::SendingHeader {
            (DialerPhase::AwaitingEcho, state.1)
        } else {
            state
        },
        DialerEvent::EchoFrame(frame) => if state.0 == DialerPhase::AwaitingEcho {
            if frame == Some(msg_multistream()) {
                (DialerPhase::Ready, state.1)
            } else {
                (DialerPhase::Failed, state.1)
            }
        } else {
            state
        },
        DialerEvent::Proposed(name) => if state.0 == DialerPhase::Ready {
            (DialerPhase::Proposing, name)
        } else {
            state
        },
        DialerEvent::ProposalSent => if state.0 == DialerPhase::Proposing {
            (DialerPhase::AwaitingResponse, state.1)
        } else {
            state
        },
        DialerEvent::ResponseFrame(frame) => if state.0 == DialerPhase::AwaitingResponse {
            (after_response(state.1, frame), state.1)
        } else {
            state
        },
    }
}

/// The state a dialer reaches after a whole run of events.
pub open spec fn dialer_run(state: (DialerPhase, Seq<u8>), evs: Seq<DialerEvent>) -> (
    DialerPhase,
    Seq<u8>,
)
    decreases evs.len(),
{
    if evs.len() == 0 {
        state
    } else {
        dialer_run(dialer_step(state, evs[0]), evs.drop_first())
    }
}

/// A completed negotiation is final: no later event moves a dialer out of
/// `Done` or changes the agreed name.
pub proof fn lemma_done_is_final(candidate: Seq<u8>, evs: Seq<DialerEvent>)
    ensures
        dialer_run((DialerPhase::Done, candidate), evs) == (DialerPhase::Done, candidate),
    decreases evs.len(),
{
    if evs.len() > 0 {
        lemma_done_is_final(candidate, evs.drop_first());
    }
}

/// A failed dialer likewise stays failed: a failed handshake, a mismatched
/// echo or a desynchronized frame is permanent.
pub proof fn lemma_dialer_failure_is_permanent(candidate: Seq<u8>, evs: Seq<DialerEvent>)
    ensures
        dialer_run((DialerPhase::Failed, candidate), evs) == (DialerPhase::Failed, candidate),
    decreases evs.len(),
{
    if evs.len() > 0 {
        lemma_dialer_failure_is_permanent(candidate, evs.drop_first());
    }
}

/// Mismatch detection over whole runs: however a dialer is driven, it ends
/// up `Done` holding an agreed name only if some response frame it saw
/// decoded to an acceptance of exactly that name — the name it was carrying
/// as its candidate at that moment. It never reports agreement on a name no
/// response accepted.
pub proof fn lemma_done_needs_accept(state: (DialerPhase, Seq<u8>), evs: Seq<DialerEvent>)
    requires
        state.0 != DialerPhase::Done,
        dialer_run(state, evs).0 == DialerPhase::Done,
    ensures
        exists|i: int|
            0 <= i < evs.len() && ((#[trigger] evs[i]) matches DialerEvent::ResponseFrame(frame)
                && decode_response_spec(frame) == Some(ResponseModel::Protocol {
                name: dialer_run(state, evs).1,
            })),
    decreases evs.len(),
{
    let next = dialer_step(state, evs[0]);
    let rest = evs.drop_first();
    if next.0 == DialerPhase::Done {
        lemma_done_is_final(next.1, rest);
        assert(evs[0] matches DialerEvent::ResponseFrame(frame) && decode_response_spec(frame)
            == Some(ResponseModel::Protocol { name: dialer_run(state, evs).1 }));
    } else {
        lemma_done_needs_accept(next, rest);
        let j = choose|j: int|
            0 <= j < rest.len() && ((#[trigger] rest[j]) matches DialerEvent::ResponseFrame(frame)
                && decode_response_spec(frame) == Some(ResponseModel::Protocol {
                name: dialer_run(next, rest).1,
            }));
        assert(evs[j + 1] == rest[j]);
    }
}

} // verus!
