//! The acceptor ("listener") state machine.
//!
//! The listener waits for the handshake header as the very first frame,
//! echoes it back, and is then established: it produces decoded requests
//! from incoming frames and encodes responses into outgoing frames. A
//! driving loop outside this crate moves the frames over the framed
//! transport and feeds each arrival (or its end-of-stream signal) to the
//! methods here; every decision about the bytes is made and verified here.

use vstd::prelude::*;

use crate::errors::MultistreamSelectError;
use crate::message::{
    decode_request_spec, encode_response_spec, frame_is_header, frame_view, header_frame,
    msg_multistream, valid_response, Request, RequestModel, Response,
};
use crate::message;

verus! {

/// Where the listener stands in the negotiation.
#[derive(Clone, Copy, Debug, PartialEq, Eq, Structural)]
pub enum ListenerPhase {
    /// Waiting for the very first frame, which must be the header.
    AwaitingHeader,
    /// The header matched; its echo is being sent back.
    SendingEcho,
    /// The handshake is complete; requests flow in and responses flow out.
    Established,
    /// The frame stream ended cleanly; no request will follow.
    Ended,
    /// The handshake failed or a frame matched no request shape; the
    /// connection is presumed desynchronized and is not reused.
    Failed,
}

/// The acceptor role of one negotiation attempt.
pub struct Listener {
    /// Where this listener stands.
    pub phase: ListenerPhase,
}

/// Where the listener stands after seeing the first frame: the echo phase
/// exactly when that frame was the header, and failure otherwise.
pub open spec fn after_first_frame(frame: Option<Seq<u8>>) -> ListenerPhase {
    if frame == Some(msg_multistream()) {
        ListenerPhase::SendingEcho
    } else {
        ListenerPhase::Failed
    }
}

/// What seeing the first frame yields: the header echo to send back, or the
/// handshake failure.
pub open spec fn first_frame_result(frame: Option<Seq<u8>>) -> Result<
    Seq<u8>,
    MultistreamSelectError,
> {
    if frame == Some(msg_multistream()) {
        Ok(msg_multistream())
    } else {
        Err(MultistreamSelectError::FailedHandshake)
    }
}

/// Where the listener stands after one established-phase arrival.
pub open spec fn next_request_phase(phase: ListenerPhase, frame: Option<Seq<u8>>) -> ListenerPhase {
    match phase {
        ListenerPhase::Established => match frame {
            None => ListenerPhase::Ended,
            Some(f) => if decode_request_spec(f) is Some {
                ListenerPhase::Established
            } else {
                ListenerPhase::Failed
            },
        },
        _ => phase,
    }
}

/// What one established-phase arrival yields: a decoded request, the clean
/// end-of-stream signal `Ok(None)`, or the fatal decode failure.
pub open spec fn next_request_result(phase: ListenerPhase, frame: Option<Seq<u8>>) -> Result<
    Option<RequestModel>,
    MultistreamSelectError,
> {
    match phase {
        ListenerPhase::Established => match frame {
            None => Ok(None),
            Some(f) => match decode_request_spec(f) {
                Some(req) => Ok(Some(req)),
                None => Err(MultistreamSelectError::UnknownMessage),
            },
        },
        ListenerPhase::Ended => Ok(None),
        _ => Err(MultistreamSelectError::UnknownMessage),
    }
}

/// The model of what `Listener::next_request` returned.
pub open spec fn request_result_view(r: Result<Option<Request>, MultistreamSelectError>) -> Result<
    Option<RequestModel>,
    MultistreamSelectError,
> {
    match r {
        Ok(Some(req)) => Ok(Some(req@)),
        Ok(None) => Ok(None),
        Err(e) => Err(e),
    }
}

impl Listener {
    /// A fresh acceptor, waiting for the handshake header.
    pub fn new() -> (r: Listener)
        ensures
            r.phase == ListenerPhase::AwaitingHeader,
    {
        Listener { phase: ListenerPhase::AwaitingHeader }
    }

    /// Judge the very first frame of the connection (or its absence, when
    /// the stream ended before any frame). Exactly the header is accepted;
    /// the frame to echo back is returned. Anything else fails the
    /// handshake: this is a distinct condition, not a decode failure.
    pub fn on_first_frame(&mut self, frame: Option<&Vec<u8>>) -> (r: Result<
        Vec<u8>,
        MultistreamSelectError,
    >)
        requires
            old(self).phase == ListenerPhase::AwaitingHeader,
        ensures
            final(self).phase == after_first_frame(frame_view(frame)),
            match r {
                Ok(echo) => first_frame_result(frame_view(frame)) == Ok::<_,
                MultistreamSelectError>(echo@),
                Err(e) => first_frame_result(frame_view(frame)) == Err::<Seq<u8>, _>(e),
            },
    {
        match frame {
            Some(f) if frame_is_header(f) => {
                self.phase = ListenerPhase::SendingEcho;
                Ok(header_frame())
            },
            _ => {
                self.phase = ListenerPhase::Failed;
                Err(MultistreamSelectError::FailedHandshake)
            },
        }
    }

    /// The echo of the header has been fully sent: the handshake is
    /// complete and the listener is established.
    pub fn on_echo_sent(&mut self)
        requires
            old(self).phase == ListenerPhase::SendingEcho,
        ensures
            final(self).phase == ListenerPhase::Established,
    {
        self.phase = ListenerPhase::Established;
    }

    /// Read one arrival from the established connection: a frame is decoded
    /// as a request, and the end of the stream is the clean `Ok(None)`
    /// signal. A frame that decodes as no request is fatal: the listener
    /// fails and every later call keeps failing. Once the stream has ended,
    /// every later call keeps reporting `Ok(None)`.
    pub fn next_request(&mut self, frame: Option<&Vec<u8>>) -> (r: Result<
        Option<Request>,
        MultistreamSelectError,
    >)
        requires
            old(self).phase == ListenerPhase::Established || old(self).phase
                == ListenerPhase::Ended || old(self).phase == ListenerPhase::Failed,
        ensures
            final(self).phase == next_request_phase(old(self).phase, frame_view(frame)),
            request_result_view(r) == next_request_result(old(self).phase, frame_view(frame)),
    {
        match self.phase {
            ListenerPhase::Ended => Ok(None),
            ListenerPhase::Failed => Err(MultistreamSelectError::UnknownMessage),
            _ => match frame {
                None => {
                    self.phase = ListenerPhase::Ended;
                    Ok(None)
                },
                Some(f) => match message::decode_request(f) {
                    Ok(req) => Ok(Some(req)),
                    Err(e) => {
                        self.phase = ListenerPhase::Failed;
                        Err(e)
                    },
                },
            },
        }
    }

    /// Encode a response for the established connection; the returned frame
    /// is handed to the framed transport unchanged.
    pub fn response_frame(&self, r: &Response) -> (frame: Vec<u8>)
        requires
            self.phase == ListenerPhase::Established,
            valid_response(r@),
        ensures
            frame@ == encode_response_spec(r@),
    {
        message::encode_response(r)
    }
}

/// Handshake gating: whatever the first frame is, the acceptor never moves
/// past it into the established phase directly, it moves to the echo phase
/// exactly when the frame is the multistream header, and any other first
/// frame (or an ended stream) fails the handshake with `FailedHandshake`.
pub proof fn lemma_handshake_gating(frame: Option<Seq<u8>>)
    ensures
        after_first_frame(frame) != ListenerPhase::Established,
        after_first_frame(frame) == ListenerPhase::SendingEcho <==> frame == Some(
            msg_multistream(),
        ),
        frame != Some(msg_multistream()) ==> after_first_frame(frame) == ListenerPhase::Failed
            && first_frame_result(frame) == Err::<Seq<u8>, _>(
            MultistreamSelectError::FailedHandshake,
        ),
{
}

/// Clean end of stream, one step: once the request stream has ended, any
/// further arrival leaves it ended and yields the end-of-stream signal
/// again — never an error and never a decoded request.
pub proof fn lemma_end_of_stream_is_stable(frame: Option<Seq<u8>>)
    ensures
        next_request_phase(ListenerPhase::Ended, frame) == ListenerPhase::Ended,
        next_request_result(ListenerPhase::Ended, frame) == Ok::<_, MultistreamSelectError>(
            None::<RequestModel>,
        ),
{
}

/// One input to the listener, as the model sees it: each variant stands for
/// one of the methods above being driven with that method's argument.
pub enum ListenerEvent {
    /// The first frame arrived, or the stream ended before one.
    FirstFrame(Option<Seq<u8>>),
    /// The echo of the header was fully sent.
    EchoSent,
    /// An established-phase arrival: a frame, or the end of the stream.
    Arrival(Option<Seq<u8>>),
}

/// Where the listener stands after one event. An event that the current
/// phase does not expect leaves the listener where it stands (the methods'
/// preconditions refuse such calls altogether).
pub open spec fn listener_step(phase: ListenerPhase, ev: ListenerEvent) -> ListenerPhase {
    match ev {
        ListenerEvent::FirstFrame(frame) => if phase == ListenerPhase::AwaitingHeader {
            after_first_frame(frame)
        } else {
            phase
        },
        ListenerEvent::EchoSent => if phase == ListenerPhase::SendingEcho {
            ListenerPhase::Established
        } else {
            phase
        },
        ListenerEvent::Arrival(frame) => next_request_phase(phase, frame),
    }
}

/// The phase a listener reaches after a whole run of events.
pub open spec fn listener_run(phase: ListenerPhase, evs: Seq<ListenerEvent>) -> ListenerPhase
    decreases evs.len(),
{
    if evs.len() == 0 {
        phase
    } else {
        listener_run(listener_step(phase, evs[0]), evs.drop_first())
    }
}

/// Clean end of stream, any number of steps: an ended listener stays ended
/// through every later event, so repeated polls keep reporting the
/// end-of-stream signal.
pub proof fn lemma_end_of_stream_forever(evs: Seq<ListenerEvent>)
    ensures
        listener_run(ListenerPhase::Ended, evs) == ListenerPhase::Ended,
    decreases evs.len(),
{
    if evs.len() > 0 {
        lemma_end_of_stream_forever(evs.drop_first());
    }
}

/// A failed listener likewise stays failed: a failed handshake or a decode
/// failure is permanent, and no later event yields a request again.
pub proof fn lemma_failure_is_permanent(evs: Seq<ListenerEvent>)
    ensures
        listener_run(ListenerPhase::Failed, evs) == ListenerPhase::Failed,
    decreases evs.len(),
{
    if evs.len() > 0 {
        lemma_failure_is_permanent(evs.drop_first());
    }
}

/// A run that never sees the header as its first-frame event makes no
/// progress: the listener is still waiting, or has failed for good.
proof fn lemma_no_header_no_progress(evs: Seq<ListenerEvent>)
    requires
        forall|i: int|
            0 <= i < evs.len() ==> evs[i] != ListenerEvent::FirstFrame(
                Some(msg_multistream()),
            ),
    ensures
        listener_run(ListenerPhase::AwaitingHeader, evs) == ListenerPhase::AwaitingHeader
            || listener_run(ListenerPhase::AwaitingHeader, evs) == ListenerPhase::Failed,
    decreases evs.len(),
{
    if evs.len() > 0 {
        let rest = evs.drop_first();
        assert(forall|i: int|
            0 <= i < rest.len() ==> rest[i] == evs[i + 1] && evs[i + 1]
                != ListenerEvent::FirstFrame(Some(msg_multistream())));
        match evs[0] {
            ListenerEvent::FirstFrame(frame) => {
                assert(frame != Some(msg_multistream()));
                lemma_failure_is_permanent(rest);
            },
            _ => {
                lemma_no_header_no_progress(rest);
            },
        }
    }
}

/// Handshake gating over whole runs: however a fresh listener is driven, it
/// reaches the established phase (or anything past the header phase) only
/// if the exact multistream header was seen as its first frame.
pub proof fn lemma_established_needs_header(evs: Seq<ListenerEvent>)
    requires
        listener_run(ListenerPhase::AwaitingHeader, evs) != ListenerPhase::AwaitingHeader,
        listener_run(ListenerPhase::AwaitingHeader, evs) != ListenerPhase::Failed,
    ensures
        exists|i: int|
            0 <= i < evs.len() && evs[i] == ListenerEvent::FirstFrame(Some(msg_multistream())),
{
    if forall|i: int|
        0 <= i < evs.len() ==> evs[i] != ListenerEvent::FirstFrame(Some(msg_multistream())) {
        lemma_no_header_no_progress(evs);
    }
}

} // verus!
