//! The message model: wire-level encode and decode rules for the handshake
//! header, the dialer's requests and the acceptor's responses.
//!
//! One message is exactly one frame. Every encoded message ends with a single
//! newline terminator, and a protocol name never contains that terminator.

use vstd::prelude::*;

use crate::errors::MultistreamSelectError;

verus! {

/// The exact bytes of the handshake header frame: `/multistream/1.0.0`
/// followed by a newline. Both roles must exchange exactly this sequence as
/// the very first frame in each direction.
pub open spec fn msg_multistream() -> Seq<u8> {
    seq![
        47u8, 109u8, 117u8, 108u8, 116u8, 105u8, 115u8, 116u8, 114u8, 101u8,
        97u8, 109u8, 47u8, 49u8, 46u8, 48u8, 46u8, 48u8, 10u8,
    ]
}

/// The exact bytes of the list-protocols request frame: `ls` plus newline.
pub open spec fn msg_ls() -> Seq<u8> {
    seq![108u8, 115u8, 10u8]
}

/// The exact bytes of the not-available response frame: `na` plus newline.
pub open spec fn msg_na() -> Seq<u8> {
    seq![110u8, 97u8, 10u8]
}

/// A frame, or the end-of-stream signal, as the model sees it.
pub open spec fn frame_view(frame: Option<&Vec<u8>>) -> Option<Seq<u8>> {
    match frame {
        Some(f) => Some(f@),
        None => None,
    }
}

/// A protocol name that may be put on the wire: non-empty and free of the
/// newline terminator. (Names conventionally also begin with `/`, but that
/// is a convention, not a requirement of the wire format.)
pub open spec fn valid_protocol_name(name: Seq<u8>) -> bool {
    &&& name.len() > 0
    &&& forall|i: int| 0 <= i < name.len() ==> name[i] != 10u8
}

/// Mathematical model of a request: what the initiator sends after the
/// handshake.
pub enum RequestModel {
    /// Propose one protocol by name.
    Protocol { name: Seq<u8> },
    /// Ask for the list of supported protocols.
    ListProtocols,
}

/// Mathematical model of a response: what the acceptor sends back.
pub enum ResponseModel {
    /// Accept a proposed protocol, echoing its name.
    Protocol { name: Seq<u8> },
    /// The proposed protocol is not supported.
    NotAvailable,
    /// The list of supported protocols.
    ProtocolsList { names: Seq<Seq<u8>> },
}

/// A request, decoded by the acceptor and produced by the initiator.
pub enum Request {
    /// Propose one protocol by name.
    Protocol { name: Vec<u8> },
    /// Ask for the list of supported protocols.
    ListProtocols,
}

/// A response, produced by the acceptor and interpreted by the initiator.
pub enum Response {
    /// Accept a proposed protocol, echoing its name.
    Protocol { name: Vec<u8> },
    /// The proposed protocol is not supported.
    NotAvailable,
    /// The list of supported protocols.
    ProtocolsList { names: Vec<Vec<u8>> },
}

impl View for Request {
    type V = RequestModel;

    open spec fn view(&self) -> RequestModel {
        match self {
            Request::Protocol { name } => RequestModel::Protocol { name: name@ },
            Request::ListProtocols => RequestModel::ListProtocols,
        }
    }
}

impl View for Response {
    type V = ResponseModel;

    open spec fn view(&self) -> ResponseModel {
        match self {
            Response::Protocol { name } => ResponseModel::Protocol { name: name@ },
            Response::NotAvailable => ResponseModel::NotAvailable,
            Response::ProtocolsList { names } => ResponseModel::ProtocolsList {
                names: names.deep_view(),
            },
        }
    }
}

/// A request whose names may be put on the wire.
pub open spec fn valid_request(r: RequestModel) -> bool {
    match r {
        RequestModel::Protocol { name } => valid_protocol_name(name),
        RequestModel::ListProtocols => true,
    }
}

/// A response whose names may be put on the wire.
pub open spec fn valid_response(r: ResponseModel) -> bool {
    match r {
        ResponseModel::Protocol { name } => valid_protocol_name(name),
        ResponseModel::NotAvailable => true,
        ResponseModel::ProtocolsList { names } => forall|i: int|
            0 <= i < names.len() ==> valid_protocol_name(#[trigger] names[i]),
    }
}

/// The frame that encodes a request: the proposed name followed by the
/// newline terminator, or the fixed `ls` literal.
pub open spec fn encode_request_spec(r: RequestModel) -> Seq<u8> {
    match r {
        RequestModel::Protocol { name } => name.push(10u8),
        RequestModel::ListProtocols => msg_ls(),
    }
}

/// Each name followed by the newline terminator, in order. This is the wire
/// layout chosen here for the list-of-protocols response: the whole listing
/// is one frame holding one such line per supported protocol.
pub open spec fn lines_concat(names: Seq<Seq<u8>>) -> Seq<u8>
    decreases names.len(),
{
    if names.len() == 0 {
        Seq::empty()
    } else {
        names[0].push(10u8) + lines_concat(names.drop_first())
    }
}

/// The frame that encodes a response.
pub open spec fn encode_response_spec(r: ResponseModel) -> Seq<u8> {
    match r {
        ResponseModel::Protocol { name } => name.push(10u8),
        ResponseModel::NotAvailable => msg_na(),
        ResponseModel::ProtocolsList { names } => lines_concat(names),
    }
}

/// How the acceptor reads a frame as a request. A frame whose first byte is
/// `/` and whose last byte is the newline terminator is a proposal; the name
/// is everything before the terminator, preserved verbatim. A frame equal to
/// the `ls` literal asks for the protocol list. Nothing else is a request.
pub open spec fn decode_request_spec(frame: Seq<u8>) -> Option<RequestModel> {
    if frame.len() > 0 && frame.first() == 47u8 && frame.last() == 10u8 {
        Some(RequestModel::Protocol { name: frame.drop_last() })
    } else if frame == msg_ls() {
        Some(RequestModel::ListProtocols)
    } else {
        None
    }
}

/// How the dialer reads a frame as a response. The fixed `na` literal means
/// not-available; otherwise a frame carrying one valid name followed by the
/// newline terminator echoes an accepted protocol. A frame with an embedded
/// terminator cannot carry a single valid name, so it matches no response
/// shape. (The protocol listing is not decoded here: its layout is a reply
/// to an explicit `ls` request, which the dialer state machine never sends.)
pub open spec fn decode_response_spec(frame: Seq<u8>) -> Option<ResponseModel> {
    if frame == msg_na() {
        Some(ResponseModel::NotAvailable)
    } else if frame.len() > 0 && frame.last() == 10u8 && valid_protocol_name(frame.drop_last()) {
        Some(ResponseModel::Protocol { name: frame.drop_last() })
    } else {
        None
    }
}

/// The handshake header as an owned frame, ready to send.
pub fn header_frame() -> (frame: Vec<u8>)
    ensures
        frame@ == msg_multistream(),
{
    let mut v: Vec<u8> = Vec::new();
    v.push(47u8);
    v.push(109u8);
    v.push(117u8);
    v.push(108u8);
    v.push(116u8);
    v.push(105u8);
    v.push(115u8);
    v.push(116u8);
    v.push(114u8);
    v.push(101u8);
    v.push(97u8);
    v.push(109u8);
    v.push(47u8);
    v.push(49u8);
    v.push(46u8);
    v.push(48u8);
    v.push(46u8);
    v.push(48u8);
    v.push(10u8);
    proof {
        assert(v@ =~= msg_multistream());
    }
    v
}

/// Byte-for-byte equality of two buffers.
pub fn bytes_eq(a: &Vec<u8>, b: &Vec<u8>) -> (r: bool)
    ensures
        r == (a@ == b@),
{
    if a.len() != b.len() {
        return false;
    }
    let n = a.len();
    let mut i: usize = 0;
    while i < n
        invariant
            n == a@.len(),
            n == b@.len(),
            i <= n,
            forall|j: int| 0 <= j < i ==> a@[j] == b@[j],
        decreases n - i,
    {
        if a[i] != b[i] {
            return false;
        }
        i += 1;
    }
    proof {
        assert(a@ =~= b@);
    }
    true
}

/// Whether a frame is exactly the handshake header.
pub fn frame_is_header(frame: &Vec<u8>) -> (r: bool)
    ensures
        r == (frame@ == msg_multistream()),
{
    let header = header_frame();
    bytes_eq(frame, &header)
}

/// An owned copy of a byte buffer.
fn copy_bytes(src: &Vec<u8>) -> (r: Vec<u8>)
    ensures
        r@ == src@,
{
    let n = src.len();
    let mut v: Vec<u8> = Vec::new();
    let mut i: usize = 0;
    while i < n
        invariant
            n == src@.len(),
            i <= n,
            v@ == src@.take(i as int),
        decreases n - i,
    {
        v.push(src[i]);
        proof {
            assert(src@.take(i as int).push(src@[i as int]) =~= src@.take(i as int + 1));
        }
        i += 1;
    }
    proof {
        assert(src@.take(n as int) =~= src@);
    }
    v
}

/// One protocol name as a wire line: the name's bytes followed by the
/// newline terminator.
pub fn protocol_line(name: &Vec<u8>) -> (frame: Vec<u8>)
    ensures
        frame@ == name@.push(10u8),
{
    let mut frame = copy_bytes(name);
    frame.push(10u8);
    frame
}

/// The fixed `ls` request frame.
fn ls_frame() -> (frame: Vec<u8>)
    ensures
        frame@ == msg_ls(),
{
    let mut v: Vec<u8> = Vec::new();
    v.push(108u8);
    v.push(115u8);
    v.push(10u8);
    proof {
        assert(v@ =~= msg_ls());
    }
    v
}

/// The fixed `na` response frame.
fn na_frame() -> (frame: Vec<u8>)
    ensures
        frame@ == msg_na(),
{
    let mut v: Vec<u8> = Vec::new();
    v.push(110u8);
    v.push(97u8);
    v.push(10u8);
    proof {
        assert(v@ =~= msg_na());
    }
    v
}

/// Encode a request as the frame that carries it. Encoding always appends
/// the single trailing terminator; the name itself must not contain one.
pub fn encode_request(r: &Request) -> (frame: Vec<u8>)
    requires
        valid_request(r@),
    ensures
        frame@ == encode_request_spec(r@),
{
    match r {
        Request::Protocol { name } => protocol_line(name),
        Request::ListProtocols => ls_frame(),
    }
}

/// Encode a response as the frame that carries it. Encoding always appends
/// one trailing terminator per name; no name may contain one.
pub fn encode_response(r: &Response) -> (frame: Vec<u8>)
    requires
        valid_response(r@),
    ensures
        frame@ == encode_response_spec(r@),
{
    match r {
        Response::Protocol { name } => protocol_line(name),
        Response::NotAvailable => na_frame(),
        Response::ProtocolsList { names } => {
            let mut frame: Vec<u8> = Vec::new();
            let n = names.len();
            let mut i: usize = 0;
            while i < n
                invariant
                    n == names@.len(),
                    i <= n,
                    valid_response(ResponseModel::ProtocolsList { names: names.deep_view() }),
                    names.deep_view().len() == n,
                    frame@ == lines_concat(names.deep_view().take(i as int)),
                decreases n - i,
            {
                let mut line = protocol_line(&names[i]);
                proof {
                    assert(names.deep_view()[i as int] == names@[i as int]@);
                }
                frame.append(&mut line);
                proof {
                    lemma_lines_concat_snoc(names.deep_view(), i as int);
                }
                i += 1;
            }
            proof {
                assert(names.deep_view().take(n as int) =~= names.deep_view());
            }
            frame
        },
    }
}

/// Appending one more name to a listing appends exactly its line.
proof fn lemma_lines_concat_snoc(names: Seq<Seq<u8>>, i: int)
    requires
        0 <= i < names.len(),
    ensures
        lines_concat(names.take(i + 1)) == lines_concat(names.take(i)) + names[i].push(10u8),
    decreases i,
{
    if i == 0 {
        assert(names.take(0) =~= Seq::<Seq<u8>>::empty());
        assert(names.take(1).drop_first() =~= Seq::<Seq<u8>>::empty());
        assert(names.take(1)[0] == names[0]);
        assert(lines_concat(names.take(1)) == names[0].push(10u8) + lines_concat(
            Seq::<Seq<u8>>::empty(),
        ));
        assert(lines_concat(names.take(1)) =~= lines_concat(names.take(0)) + names[0].push(10u8));
    } else {
        lemma_lines_concat_snoc(names.drop_first(), i - 1);
        assert(names.take(i + 1).drop_first() =~= names.drop_first().take(i));
        assert(names.take(i).drop_first() =~= names.drop_first().take(i - 1));
        assert(names.take(i + 1)[0] == names[0]);
        assert(names.take(i)[0] == names[0]);
        assert(names.drop_first()[i - 1] == names[i]);
        assert(lines_concat(names.take(i + 1)) =~= lines_concat(names.take(i)) + names[i].push(
            10u8,
        ));
    }
}

/// Decode a frame as a request, exactly as `decode_request_spec` reads it;
/// a frame that matches neither request shape is an `UnknownMessage`.
pub fn decode_request(frame: &Vec<u8>) -> (r: Result<Request, MultistreamSelectError>)
    ensures
        match r {
            Ok(req) => decode_request_spec(frame@) == Some(req@),
            Err(e) => {
                &&& e == MultistreamSelectError::UnknownMessage
                &&& decode_request_spec(frame@) is None
            },
        },
{
    let n = frame.len();
    if n > 0 && frame[0] == 47u8 && frame[n - 1] == 10u8 {
        let name = frame_name(frame);
        Ok(Request::Protocol { name })
    } else if n == 3 && frame[0] == 108u8 && frame[1] == 115u8 && frame[2] == 10u8 {
        proof {
            assert(frame@ =~= msg_ls());
        }
        Ok(Request::ListProtocols)
    } else {
        proof {
            if frame@ == msg_ls() {
                assert(frame@[0] == 108u8 && frame@[1] == 115u8 && frame@[2] == 10u8);
            }
        }
        Err(MultistreamSelectError::UnknownMessage)
    }
}

/// Decode a frame as a response, exactly as `decode_response_spec` reads it;
/// a frame that matches neither response shape is an `UnknownMessage`.
pub fn decode_response(frame: &Vec<u8>) -> (r: Result<Response, MultistreamSelectError>)
    ensures
        match r {
            Ok(resp) => decode_response_spec(frame@) == Some(resp@),
            Err(e) => {
                &&& e == MultistreamSelectError::UnknownMessage
                &&& decode_response_spec(frame@) is None
            },
        },
{
    let n = frame.len();
    if n == 3 && frame[0] == 110u8 && frame[1] == 97u8 && frame[2] == 10u8 {
        proof {
            assert(frame@ =~= msg_na());
        }
        Ok(Response::NotAvailable)
    } else if n >= 2 && frame[n - 1] == 10u8 && name_has_no_terminator(frame, n - 1) {
        proof {
            if frame@ == msg_na() {
                assert(frame@[0] == 110u8 && frame@[1] == 97u8 && frame@[2] == 10u8);
            }
            assert(valid_protocol_name(frame@.drop_last())) by {
                assert forall|i: int| 0 <= i < frame@.drop_last().len() implies frame@.drop_last()[i]
                    != 10u8 by {
                    assert(frame@.drop_last()[i] == frame@[i]);
                }
            }
        }
        let name = frame_name(frame);
        Ok(Response::Protocol { name })
    } else {
        proof {
            if frame@ == msg_na() {
                assert(frame@[0] == 110u8 && frame@[1] == 97u8 && frame@[2] == 10u8);
            }
            if frame@.len() > 0 && frame@.last() == 10u8 && valid_protocol_name(
                frame@.drop_last(),
            ) {
                assert(frame@.drop_last().len() > 0);
                assert(frame@.len() >= 2);
                assert forall|i: int| 0 <= i < frame@.len() - 1 implies frame@[i] != 10u8 by {
                    assert(frame@.drop_last()[i] == frame@[i]);
                    assert(frame@.drop_last()[i] != 10u8);
                }
                assert(false);
            }
        }
        Err(MultistreamSelectError::UnknownMessage)
    }
}

/// Whether the first `end` bytes of a frame are free of the terminator.
fn name_has_no_terminator(frame: &Vec<u8>, end: usize) -> (r: bool)
    requires
        end <= frame@.len(),
    ensures
        r == (forall|i: int| 0 <= i < end ==> frame@[i] != 10u8),
{
    let mut i: usize = 0;
    while i < end
        invariant
            end <= frame@.len(),
            i <= end,
            forall|j: int| 0 <= j < i ==> frame@[j] != 10u8,
        decreases end - i,
    {
        if frame[i] == 10u8 {
            proof {
                assert(frame@[i as int] == 10u8);
            }
            return false;
        }
        i += 1;
    }
    true
}

/// The position of the first terminator in a frame, or the frame's length
/// when it holds none.
pub open spec fn line_end(frame: Seq<u8>) -> int
    decreases frame.len(),
{
    if frame.len() == 0 {
        0
    } else if frame[0] == 10u8 {
        0
    } else {
        1 + line_end(frame.drop_first())
    }
}

/// How a listing frame is read back as names: a run of lines, each a valid
/// (non-empty, terminator-free) name followed by one terminator, and nothing
/// else. A frame that is not exactly such a run is no listing.
pub open spec fn split_lines(frame: Seq<u8>) -> Option<Seq<Seq<u8>>>
    decreases frame.len(),
{
    if frame.len() == 0 {
        Some(Seq::empty())
    } else {
        let k = line_end(frame);
        if k <= 0 || k >= frame.len() {
            None
        } else {
            match split_lines(frame.subrange(k + 1, frame.len() as int)) {
                Some(rest) => Some(seq![frame.subrange(0, k)] + rest),
                None => None,
            }
        }
    }
}

/// The first terminator of a frame stands where its first terminator-free
/// run ends.
proof fn lemma_line_end_at(frame: Seq<u8>, m: int)
    requires
        0 <= m < frame.len(),
        forall|i: int| 0 <= i < m ==> frame[i] != 10u8,
        frame[m] == 10u8,
    ensures
        line_end(frame) == m,
    decreases m,
{
    if m > 0 {
        let rest = frame.drop_first();
        assert(forall|i: int| 0 <= i < m - 1 ==> rest[i] == frame[i + 1]);
        lemma_line_end_at(rest, m - 1);
    }
}

/// Decode/encode consistency for the protocol listing: any run of valid
/// names comes back unchanged from a split of its own concatenation.
pub proof fn lemma_protocols_list_round_trip(names: Seq<Seq<u8>>)
    requires
        forall|i: int| 0 <= i < names.len() ==> valid_protocol_name(#[trigger] names[i]),
    ensures
        split_lines(lines_concat(names)) == Some(names),
    decreases names.len(),
{
    if names.len() == 0 {
        assert(lines_concat(names).len() == 0);
        assert(Some(Seq::<Seq<u8>>::empty()) == Some(names)) by {
            assert(names =~= Seq::<Seq<u8>>::empty());
        }
    } else {
        let head = names[0];
        let rest = names.drop_first();
        let frame = lines_concat(names);
        assert(frame == head.push(10u8) + lines_concat(rest));
        assert(forall|i: int|
            0 <= i < rest.len() ==> rest[i] == names[i + 1] && valid_protocol_name(names[i + 1]));
        lemma_protocols_list_round_trip(rest);
        assert(forall|i: int| 0 <= i < head.len() ==> frame[i] == head[i]);
        assert(frame[head.len() as int] == 10u8);
        lemma_line_end_at(frame, head.len() as int);
        assert(frame.len() == head.len() + 1 + lines_concat(rest).len());
        assert(frame.subrange(0, head.len() as int) =~= head);
        assert(frame.subrange(head.len() as int + 1, frame.len() as int) =~= lines_concat(rest));
        assert(seq![head] + rest =~= names);
    }
}

/// Decode a frame as the reply to a list-protocols request, exactly as
/// `split_lines` reads it; a frame that is not a run of valid name lines is
/// an `UnknownMessage`.
pub fn decode_protocols_list(frame: &Vec<u8>) -> (r: Result<Vec<Vec<u8>>, MultistreamSelectError>)
    ensures
        match r {
            Ok(names) => split_lines(frame@) == Some(names.deep_view()),
            Err(e) => {
                &&& e == MultistreamSelectError::UnknownMessage
                &&& split_lines(frame@) is None
            },
        },
{
    let n = frame.len();
    let mut names: Vec<Vec<u8>> = Vec::new();
    let mut pos: usize = 0;
    proof {
        assert(frame@.subrange(0, n as int) =~= frame@);
        assert(names.deep_view() =~= Seq::<Seq<u8>>::empty());
        if split_lines(frame@) is Some {
            let whole = split_lines(frame@)->Some_0;
            assert(names.deep_view() + whole =~= whole);
        }
    }
    while pos < n
        invariant
            n == frame@.len(),
            pos <= n,
            match split_lines(frame@.subrange(pos as int, n as int)) {
                Some(rest) => split_lines(frame@) == Some(names.deep_view() + rest),
                None => split_lines(frame@) is None,
            },
        decreases n - pos,
    {
        let ghost tail = frame@.subrange(pos as int, n as int);
        let mut k: usize = pos;
        while k < n && frame[k] != 10u8
            invariant
                n == frame@.len(),
                pos <= k <= n,
                forall|i: int| pos <= i < k ==> frame@[i] != 10u8,
            decreases n - k,
        {
            k += 1;
        }
        proof {
            assert(forall|i: int| 0 <= i < k - pos ==> tail[i] == frame@[pos + i]);
            if k < n {
                assert(tail[k - pos] == frame@[k as int]);
                lemma_line_end_at(tail, k - pos);
            }
        }
        if k == pos || k == n {
            proof {
                lemma_line_end_bounds(tail);
                if k == pos {
                    assert(tail[0] == frame@[pos as int]);
                } else {
                    assert(forall|i: int| 0 <= i < tail.len() ==> tail[i] != 10u8);
                    if line_end(tail) < tail.len() {
                        lemma_line_end_hits(tail);
                        assert(false);
                    }
                }
                assert(split_lines(tail) is None);
            }
            return Err(MultistreamSelectError::UnknownMessage);
        }
        let mut name: Vec<u8> = Vec::new();
        let mut i: usize = pos;
        while i < k
            invariant
                n == frame@.len(),
                pos <= i <= k <= n,
                name@ == frame@.subrange(pos as int, i as int),
            decreases k - i,
        {
            name.push(frame[i]);
            proof {
                assert(frame@.subrange(pos as int, i as int).push(frame@[i as int])
                    =~= frame@.subrange(pos as int, i + 1));
            }
            i += 1;
        }
        let ghost old_dv = names.deep_view();
        let ghost rest_tail = frame@.subrange(k as int + 1, n as int);
        proof {
            assert(tail.subrange(0, (k - pos) as int) =~= name@);
            assert(tail.subrange(k - pos + 1, tail.len() as int) =~= rest_tail);
            assert(split_lines(tail) == match split_lines(rest_tail) {
                Some(rest) => Some(seq![name@] + rest),
                None => None::<Seq<Seq<u8>>>,
            });
        }
        names.push(name);
        pos = k + 1;
        proof {
            assert(name.deep_view() =~= name@);
            assert(names.deep_view() =~= old_dv.push(name@)) by {
                assert(names.deep_view().len() == old_dv.len() + 1);
                assert(forall|j: int|
                    0 <= j < old_dv.len() ==> names.deep_view()[j] == old_dv[j]);
                assert(names.deep_view()[old_dv.len() as int] == name@);
            }
            if split_lines(rest_tail) is Some {
                let rest = split_lines(rest_tail)->Some_0;
                assert(old_dv + (seq![name@] + rest) =~= old_dv.push(name@) + rest);
            }
        }
    }
    proof {
        assert(frame@.subrange(pos as int, n as int).len() == 0);
        assert(names.deep_view() + Seq::<Seq<u8>>::empty() =~= names.deep_view());
    }
    Ok(names)
}

/// The first terminator-free run of a frame ends within the frame.
proof fn lemma_line_end_bounds(frame: Seq<u8>)
    ensures
        0 <= line_end(frame) <= frame.len(),
    decreases frame.len(),
{
    if frame.len() > 0 && frame[0] != 10u8 {
        lemma_line_end_bounds(frame.drop_first());
    }
}

/// When a frame holds a terminator at all, its first terminator-free run
/// ends at one.
proof fn lemma_line_end_hits(frame: Seq<u8>)
    requires
        0 <= line_end(frame) < frame.len(),
    ensures
        frame[line_end(frame)] == 10u8,
    decreases frame.len(),
{
    if frame.len() > 0 && frame[0] != 10u8 {
        let rest = frame.drop_first();
        lemma_line_end_bounds(rest);
        lemma_line_end_hits(rest);
        assert(rest[line_end(rest)] == frame[line_end(frame)]);
    }
}

/// Decode/encode consistency for proposals: every protocol name that starts
/// with `/` and contains no newline comes back unchanged from a decode of
/// its own encoding.
pub proof fn lemma_propose_round_trip(name: Seq<u8>)
    requires
        name.len() > 0,
        name.first() == 47u8,
        forall|i: int| 0 <= i < name.len() ==> name[i] != 10u8,
    ensures
        decode_request_spec(encode_request_spec(RequestModel::Protocol { name })) == Some(
            RequestModel::Protocol { name },
        ),
{
    let frame = name.push(10u8);
    assert(frame.first() == name[0]);
    assert(frame.last() == 10u8);
    assert(frame.drop_last() =~= name);
}

/// Decode/encode consistency for the list-protocols request.
pub proof fn lemma_list_protocols_round_trip()
    ensures
        decode_request_spec(encode_request_spec(RequestModel::ListProtocols)) == Some(
            RequestModel::ListProtocols,
        ),
{
    assert(msg_ls().first() == 108u8);
}

/// Rejection of malformed frames: a frame that neither starts with `/` and
/// ends with the newline terminator nor equals the `ls` literal decodes as
/// no request at all.
pub proof fn lemma_malformed_request_rejected(frame: Seq<u8>)
    requires
        !(frame.len() > 0 && frame.first() == 47u8 && frame.last() == 10u8),
        frame != msg_ls(),
    ensures
        decode_request_spec(frame) is None,
{
}

/// The `ls` literal decodes as the list-protocols request, with no further
/// interpretation of its bytes.
pub proof fn lemma_ls_decodes()
    ensures
        decode_request_spec(msg_ls()) == Some(RequestModel::ListProtocols),
{
    assert(msg_ls().first() == 108u8);
}

/// Decode/encode consistency for an accepted protocol: every valid name
/// other than the bytes `na` (whose line is the not-available literal
/// itself) comes back unchanged from a decode of its own encoding.
pub proof fn lemma_accept_round_trip(name: Seq<u8>)
    requires
        valid_protocol_name(name),
        name != seq![110u8, 97u8],
    ensures
        decode_response_spec(encode_response_spec(ResponseModel::Protocol { name })) == Some(
            ResponseModel::Protocol { name },
        ),
{
    let frame = name.push(10u8);
    if frame == msg_na() {
        assert(name.len() == 2);
        assert(name[0] == frame[0] && name[1] == frame[1]);
        assert(name =~= seq![110u8, 97u8]);
    }
    assert(frame.drop_last() =~= name);
}

/// Decode/encode consistency for the not-available response.
pub proof fn lemma_not_available_round_trip()
    ensures
        decode_response_spec(encode_response_spec(ResponseModel::NotAvailable)) == Some(
            ResponseModel::NotAvailable,
        ),
{
}

/// The name carried by a frame: everything before the trailing terminator.
fn frame_name(frame: &Vec<u8>) -> (name: Vec<u8>)
    requires
        frame@.len() > 0,
    ensures
        name@ == frame@.drop_last(),
{
    let n = frame.len();
    let mut name: Vec<u8> = Vec::new();
    let mut i: usize = 0;
    while i < n - 1
        invariant
            n == frame@.len(),
            n > 0,
            i <= n - 1,
            name@ == frame@.take(i as int),
        decreases n - 1 - i,
    {
        name.push(frame[i]);
        proof {
            assert(frame@.take(i as int).push(frame@[i as int]) =~= frame@.take(i as int + 1));
        }
        i += 1;
    }
    proof {
        assert(frame@.take(n - 1) =~= frame@.drop_last());
    }
    name
}

} // verus!
