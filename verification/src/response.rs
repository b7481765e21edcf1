//! Reading one HTTP response from a transport that may stay open after it.

use crate::fault::{caused, plain, Fault, FaultView};
use crate::http::{text_from_utf8, utf8_complaint, MAX_RESPONSE_HEADERS};
use crate::numbers::{
    decimal, decimal_text, denotes, number_complaint, parse_number, parsed_number, u16_complaint,
    usize_complaint,
};
use crate::serve::IoFaultKind;
use crate::text::{
    joined, lowered, part_text, parted, same_ignoring_case, trim_text, trimmed, views, words,
    words_of,
};
use vstd::prelude::*;
use vstd::string::*;
use vstd::utf8::valid_utf8;

verus! {

/// Whether the four bytes that end a response head stand at `at`.
pub open spec fn head_ends_at(bytes: Seq<u8>, at: int) -> bool {
    &&& 0 <= at
    &&& at + 4 <= bytes.len()
    &&& bytes[at] == 13
    &&& bytes[at + 1] == 10
    &&& bytes[at + 2] == 13
    &&& bytes[at + 3] == 10
}

/// The first place, at or after `from`, where a response head ends.
pub open spec fn head_end_from(bytes: Seq<u8>, from: int) -> Option<int>
    decreases bytes.len() - from,
{
    if from < 0 || from + 4 > bytes.len() {
        None
    } else if head_ends_at(bytes, from) {
        Some(from)
    } else {
        head_end_from(bytes, from + 1)
    }
}

/// The place where a response head ends.
pub open spec fn head_end(bytes: Seq<u8>) -> Option<int> {
    head_end_from(bytes, 0)
}

/// The place where a response head ends.
pub fn find_http_header_end(bytes: &[u8]) -> (place: Option<usize>)
    ensures
        match place {
            Some(at) => head_end(bytes@) == Some(at as int) && at + 4 <= bytes@.len(),
            None => head_end(bytes@) is None,
        },
{
    let mut at: usize = 0;
    while at < bytes.len() && bytes.len() - at >= 4
        invariant
            at <= bytes@.len(),
            head_end(bytes@) == head_end_from(bytes@, at as int),
        decreases bytes@.len() - at,
    {
        if bytes[at] == 13 && bytes[at + 1] == 10 && bytes[at + 2] == 13 && bytes[at + 3] == 10 {
            return Some(at);
        }
        at += 1;
    }
    None
}

proof fn head_end_from_is_first(bytes: Seq<u8>, from: int)
    requires
        0 <= from,
    ensures
        match head_end_from(bytes, from) {
            Some(at) => from <= at && head_ends_at(bytes, at) && forall|k: int|
                from <= k < at ==> !head_ends_at(bytes, k),
            None => forall|k: int| from <= k ==> !head_ends_at(bytes, k),
        },
    decreases bytes.len() - from,
{
    if from + 4 <= bytes.len() && !head_ends_at(bytes, from) {
        head_end_from_is_first(bytes, from + 1);
    }
}

/// Where a head has ended, more bytes do not move its end.
pub proof fn head_end_is_stable(bytes: Seq<u8>, more: Seq<u8>)
    requires
        head_end(bytes) is Some,
    ensures
        head_end(bytes + more) == head_end(bytes),
{
    head_end_from_is_first(bytes, 0);
    head_end_from_is_first(bytes + more, 0);
    let at = head_end(bytes)->0;
    assert(head_ends_at(bytes + more, at));
    let other = head_end(bytes + more)->0;
    if other < at {
        assert(head_ends_at(bytes, other));
    }
}

/// A text cut at each carriage return and line feed.
pub open spec fn crlf_lines(s: Seq<char>) -> Seq<Seq<char>>
    decreases s.len(),
{
    match parted(s, "\r\n"@) {
        Some((head, tail)) => if tail.len() < s.len() {
            seq![head] + crlf_lines(tail)
        } else {
            seq![s]
        },
        None => seq![s],
    }
}

/// Cuts a text at each carriage return and line feed.
fn crlf_lines_of(text: &str) -> (out: Vec<String>)
    ensures
        views(out@) == crlf_lines(text@),
        out@.len() >= 1,
{
    let mut out: Vec<String> = Vec::new();
    let mut rest: String = text.to_owned();
    assert(views(out@) + crlf_lines(rest@) =~= crlf_lines(text@));
    loop
        invariant
            views(out@) + crlf_lines(rest@) == crlf_lines(text@),
        decreases rest@.len(),
    {
        match part_text(rest.as_str(), "\r\n") {
            Some((head, tail)) => {
                proof {
                    reveal_strlit("\r\n");
                    parted_is_shorter(rest@, "\r\n"@);
                }
                let ghost earlier = views(out@);
                let ghost whole = rest@;
                let ghost head_view = head@;
                out.push(head);
                rest = tail;
                assert(views(out@) =~= earlier.push(head_view));
                assert(views(out@) + crlf_lines(rest@) =~= earlier + crlf_lines(whole));
            },
            None => {
                let ghost earlier = views(out@);
                let ghost whole = rest@;
                out.push(rest);
                assert(views(out@) =~= earlier.push(whole));
                assert(views(out@) =~= earlier + crlf_lines(whole));
                return out;
            },
        }
    }
}

proof fn parted_is_shorter(s: Seq<char>, mark: Seq<char>)
    requires
        mark.len() > 0,
        parted(s, mark) is Some,
    ensures
        (parted(s, mark)->0).1.len() < s.len(),
{
    let at = crate::text::first_place(s, mark)->0;
    assert(crate::text::stands_at(s, mark, at)) by {
        reveal(crate::text::first_place);
        crate::text::first_place_exists(s, mark);
    }
}

/// The status that a response head announces, or what is wrong with it.
pub open spec fn head_status(head: Seq<char>) -> Result<nat, FaultView> {
    let parts = words(crlf_lines(head)[0]);
    if parts.len() < 2 {
        Err(plain("daemon HTTP response omitted its status"@))
    } else if denotes(parts[1], 65535) {
        Ok(parsed_number(parts[1])->0)
    } else {
        Err(
            caused(
                "daemon HTTP response had an invalid status"@,
                number_complaint(parts[1], 65535),
            ),
        )
    }
}

/// Whether a line is a `Content-Length` header.
pub open spec fn is_length_line(line: Seq<char>) -> bool {
    parted(line, ":"@) matches Some((name, _)) && lowered(name) == lowered("content-length"@)
}

/// The value of the first `Content-Length` header among `lines`.
pub open spec fn length_value(lines: Seq<Seq<char>>) -> Option<Seq<char>>
    decreases lines.len(),
{
    if lines.len() == 0 {
        None
    } else if is_length_line(lines[0]) {
        Some(trimmed((parted(lines[0], ":"@)->0).1))
    } else {
        length_value(lines.skip(1))
    }
}

/// The length of body that a response head announces, or what is wrong with it.
pub open spec fn head_length(head: Seq<char>) -> Result<nat, FaultView> {
    match length_value(crlf_lines(head).skip(1)) {
        None => Err(plain("daemon HTTP response omitted Content-Length"@)),
        Some(value) => if denotes(value, usize::MAX as nat) {
            Ok(parsed_number(value)->0)
        } else {
            Err(
                caused(
                    "daemon HTTP response had an invalid Content-Length"@,
                    number_complaint(value, usize::MAX as nat),
                ),
            )
        },
    }
}

/// The status that a response head announces.
pub fn response_status(head: &str) -> (status: Result<u16, Fault>)
    ensures
        match status {
            Ok(code) => head_status(head@) == Ok::<nat, FaultView>(code as nat),
            Err(fault) => head_status(head@) == Err::<nat, FaultView>(fault@),
        },
{
    let lines = crlf_lines_of(head);
    assert(views(lines@)[0] == lines@[0]@);
    let parts = words_of(lines[0].as_str());
    assert(views(parts@).len() == parts@.len());
    if parts.len() < 2 {
        return Err(Fault::plain("daemon HTTP response omitted its status"));
    }
    assert(views(parts@)[1] == parts@[1]@);
    match parse_number(parts[1].as_str(), 65535) {
        Some(code) => Ok(code as u16),
        None => {
            let complaint = u16_complaint(parts[1].as_str());
            Err(Fault::caused("daemon HTTP response had an invalid status", complaint.as_str()))
        },
    }
}

/// The length of body that a response head announces.
pub fn response_content_length(head: &str) -> (length: Result<usize, Fault>)
    ensures
        match length {
            Ok(bytes) => head_length(head@) == Ok::<nat, FaultView>(bytes as nat),
            Err(fault) => head_length(head@) == Err::<nat, FaultView>(fault@),
        },
{
    let lines = crlf_lines_of(head);
    let ghost rest = crlf_lines(head@).skip(1);
    let mut i: usize = 1;
    assert(rest.skip(0) =~= rest);
    assert(views(lines@).len() == lines@.len());
    while i < lines.len()
        invariant
            1 <= i <= lines@.len(),
            views(lines@) == crlf_lines(head@),
            rest == crlf_lines(head@).skip(1),
            rest.len() == lines@.len() - 1,
            length_value(rest) == length_value(rest.skip(i - 1)),
        decreases lines@.len() - i,
    {
        assert(rest.skip(i - 1)[0] == rest[i - 1]);
        assert(rest[i - 1] == views(lines@)[i as int]);
        assert(views(lines@)[i as int] == lines@[i as int]@);
        assert(rest.skip(i - 1).skip(1) =~= rest.skip(i as int));
        if let Some((name, value)) = part_text(lines[i].as_str(), ":") {
            if same_ignoring_case(name.as_str(), "content-length") {
                let value = trim_text(value.as_str());
                return match parse_number(value.as_str(), usize::MAX as u64) {
                    Some(bytes) => Ok(bytes as usize),
                    None => {
                        let complaint = usize_complaint(value.as_str());
                        Err(
                            Fault::caused(
                                "daemon HTTP response had an invalid Content-Length",
                                complaint.as_str(),
                            ),
                        )
                    },
                };
            }
        }
        i += 1;
    }
    assert(rest.skip(i - 1).len() == 0);
    Err(Fault::plain("daemon HTTP response omitted Content-Length"))
}

/// What the bytes of a response have shown so far.
pub enum Framing {
    /// The head has not ended yet.
    Open,
    /// The head is not acceptable.
    Bad(FaultView),
    /// The head announces a status and a body of this length, which starts here.
    Framed { status: nat, start: int, length: nat },
}

/// The message for a response whose body is too long.
pub open spec fn body_too_long(max: nat) -> Seq<char> {
    "Coven daemon HTTP response body exceeded "@ + decimal(max) + " bytes"@
}

/// What the bytes of a response show, where `max` bytes of body are accepted.
pub open spec fn framing_of(bytes: Seq<u8>, max: nat) -> Framing {
    match head_end(bytes) {
        None => Framing::Open,
        Some(at) => {
            let head = bytes.take(at);
            if !valid_utf8(head) {
                Framing::Bad(
                    caused(
                        "daemon HTTP response headers were not UTF-8"@,
                        utf8_complaint(head),
                    ),
                )
            } else {
                let text = vstd::utf8::decode_utf8(head);
                match head_status(text) {
                    Err(fault) => Framing::Bad(fault),
                    Ok(status) => match head_length(text) {
                        Err(fault) => Framing::Bad(fault),
                        Ok(length) => if length > max {
                            Framing::Bad(plain(body_too_long(max)))
                        } else {
                            Framing::Framed { status, start: at + 4, length }
                        },
                    },
                }
            }
        },
    }
}

/// Where a head has been framed, more bytes do not change the framing.
pub proof fn framing_is_stable(bytes: Seq<u8>, more: Seq<u8>, max: nat)
    requires
        framing_of(bytes, max) !is Open,
    ensures
        framing_of(bytes + more, max) == framing_of(bytes, max),
{
    head_end_is_stable(bytes, more);
    head_end_from_is_first(bytes, 0);
    let at = head_end(bytes)->0;
    assert((bytes + more).take(at) =~= bytes.take(at));
}

/// A reader of one response.
#[derive(Debug, Clone)]
pub struct ResponseReader {
    received: Vec<u8>,
    framing: Option<(u16, usize, usize)>,
    max_body_bytes: usize,
}

impl ResponseReader {
    /// The bytes received so far.
    pub closed spec fn received(&self) -> Seq<u8> {
        self.received@
    }

    /// The longest body that the reader accepts.
    pub closed spec fn max_body(&self) -> nat {
        self.max_body_bytes as nat
    }

    /// Whether the reader has kept up with the bytes: the head has not ended and is within
    /// its limit, or it is framed.
    pub closed spec fn well_formed(&self) -> bool {
        &&& self.max_body_bytes + MAX_RESPONSE_HEADERS <= usize::MAX
        &&& match framing_of(self.received@, self.max_body_bytes as nat) {
            Framing::Open => self.framing is None,
            Framing::Bad(_) => false,
            Framing::Framed { status, start, length } => self.framing matches Some((s, b, n))
                && s == status && b == start && n == length && b <= MAX_RESPONSE_HEADERS,
        }
    }

    /// A reader that has received nothing.
    pub fn new(max_body_bytes: usize) -> (reader: ResponseReader)
        requires
            max_body_bytes + MAX_RESPONSE_HEADERS <= usize::MAX,
        ensures
            reader.well_formed(),
            reader.received() == Seq::<u8>::empty(),
            reader.max_body() == max_body_bytes,
    {
        ResponseReader { received: Vec::new(), framing: None, max_body_bytes }
    }

    /// The status and the body, once every byte of the body has arrived.
    pub fn finished(&self) -> (response: Option<(u16, Vec<u8>)>)
        requires
            self.well_formed(),
        ensures
            match framing_of(self.received(), self.max_body()) {
                Framing::Framed { status, start, length } => match response {
                    Some((s, body)) => s == status && body@ == self.received().subrange(
                        start,
                        start + length,
                    ) && self.received().len() >= start + length,
                    None => self.received().len() < start + length,
                },
                _ => response is None,
            },
    {
        match self.framing {
            Some((status, start, length)) => {
                if self.received.len() >= start + length {
                    let body = copy_bytes(self.received.as_slice(), start, start + length);
                    Some((status, body))
                } else {
                    None
                }
            },
            None => None,
        }
    }

    /// Takes up the next bytes of the response. No bytes means that the peer closed the
    /// connection.
    pub fn receive(&mut self, chunk: &[u8]) -> (outcome: Result<(), Fault>)
        requires
            old(self).well_formed(),
        ensures
            final(self).max_body() == old(self).max_body(),
            ({
                let bytes = old(self).received() + chunk@;
                let framing = framing_of(bytes, old(self).max_body());
                let was_open = framing_of(old(self).received(), old(self).max_body()) is Open;
                match outcome {
                    Ok(()) => {
                        &&& chunk@.len() > 0
                        &&& final(self).well_formed()
                        &&& final(self).received() == bytes
                        &&& was_open ==> bytes.len() <= MAX_RESPONSE_HEADERS
                        &&& framing !is Bad
                    },
                    Err(fault) => if chunk@.len() == 0 {
                        fault@ == plain(
                            "Coven daemon closed the connection before its HTTP response completed"@,
                        )
                    } else if was_open && bytes.len() > MAX_RESPONSE_HEADERS {
                        fault@ == plain(
                            "Coven daemon HTTP response headers exceeded 65536 bytes"@,
                        )
                    } else {
                        framing == Framing::Bad(fault@)
                    },
                }
            }),
    {
        if chunk.len() == 0 {
            return Err(
                Fault::plain(
                    "Coven daemon closed the connection before its HTTP response completed",
                ),
            );
        }
        let ghost earlier = self.received@;
        let ghost max = self.max_body_bytes as nat;
        append_bytes(&mut self.received, chunk);
        proof {
            if framing_of(earlier, max) !is Open {
                framing_is_stable(earlier, chunk@, max);
            }
        }
        if self.framing.is_none() {
            if self.received.len() > MAX_RESPONSE_HEADERS {
                return Err(
                    Fault::plain("Coven daemon HTTP response headers exceeded 65536 bytes"),
                );
            }
            if let Some(at) = find_http_header_end(self.received.as_slice()) {
                let head_bytes = copy_bytes(self.received.as_slice(), 0, at);
                assert(head_bytes@ =~= self.received@.take(at as int));
                let head = match text_from_utf8(head_bytes) {
                    Ok(head) => head,
                    Err(complaint) => {
                        return Err(
                            Fault::caused(
                                "daemon HTTP response headers were not UTF-8",
                                complaint.as_str(),
                            ),
                        );
                    },
                };
                proof {
                    vstd::utf8::encode_utf8_valid_utf8(head@);
                    vstd::utf8::encode_utf8_decode_utf8(head@);
                }
                let status = match response_status(head.as_str()) {
                    Ok(status) => status,
                    Err(fault) => {
                        return Err(fault);
                    },
                };
                let length = match response_content_length(head.as_str()) {
                    Ok(length) => length,
                    Err(fault) => {
                        return Err(fault);
                    },
                };
                if length > self.max_body_bytes {
                    let message = joined(
                        joined(
                            "Coven daemon HTTP response body exceeded ",
                            decimal_text(self.max_body_bytes as u64).as_str(),
                        ).as_str(),
                        " bytes",
                    );
                    return Err(Fault::plain(message.as_str()));
                }
                self.framing = Some((status, at + 4, length));
            }
        }
        Ok(())
    }
}

/// What an attempt to read from the transport came to.
#[derive(Debug)]
pub enum ReadEvent {
    /// Nothing was attempted since the last step.
    Nothing,
    /// These bytes came; none at all means that the peer closed the connection.
    Bytes(Vec<u8>),
    /// It failed, and this is what the failure says.
    Failed(IoFaultKind, String),
}

/// What the reading of a response does next.
#[derive(Debug)]
pub enum ReadStep {
    /// The response is whole: its status and its body.
    Finish(u16, Vec<u8>),
    /// There will be no response.
    GiveUp(Fault),
    /// Wait this many milliseconds, and go on.
    Pause(u64),
    /// Read once more.
    Read,
}

/// Why more bytes of a response are refused, if they are.
pub open spec fn chunk_fault(received: Seq<u8>, chunk: Seq<u8>, max: nat) -> Option<FaultView> {
    let bytes = received + chunk;
    if chunk.len() == 0 {
        Some(plain("Coven daemon closed the connection before its HTTP response completed"@))
    } else if framing_of(received, max) is Open && bytes.len() > MAX_RESPONSE_HEADERS {
        Some(plain("Coven daemon HTTP response headers exceeded 65536 bytes"@))
    } else {
        match framing_of(bytes, max) {
            Framing::Bad(fault) => Some(fault),
            _ => None,
        }
    }
}

/// Whether a step is the right one while these bytes have come: a whole response is handed
/// out even where time is up, and an unfinished one is read on while there is time.
pub open spec fn step_fits(step: ReadStep, received: Seq<u8>, max: nat, past_deadline: bool) -> bool {
    let whole = framing_of(received, max) matches Framing::Framed { status, start, length }
        && received.len() >= start + length;
    if whole {
        framing_of(received, max) matches Framing::Framed { status, start, length } && (step
            matches ReadStep::Finish(code, body) && code == status && body@ == received.subrange(
            start,
            start + length,
        ))
    } else if past_deadline {
        step matches ReadStep::GiveUp(fault) && fault@ == plain(
            "timed out reading Coven daemon HTTP response"@,
        )
    } else {
        step is Read
    }
}

/// What is said of a transport that fails.
pub open spec fn read_fault(text: Seq<char>) -> FaultView {
    caused("failed to read Windows health response"@, text)
}

/// Reads a response within a deadline, step by step: takes up what the last attempt to read
/// came to and says what comes next.
pub fn read_http_response_with_deadline(
    reader: &mut ResponseReader,
    event: ReadEvent,
    past_deadline: bool,
) -> (step: ReadStep)
    requires
        old(reader).well_formed(),
    ensures
        !(step is GiveUp) ==> final(reader).well_formed(),
        final(reader).max_body() == old(reader).max_body(),
        match event {
            ReadEvent::Nothing => *final(reader) == *old(reader) && step_fits(
                step,
                old(reader).received(),
                old(reader).max_body(),
                past_deadline,
            ),
            ReadEvent::Failed(kind, text) => *final(reader) == *old(reader) && if kind
                == IoFaultKind::WouldBlock {
                step == ReadStep::Pause(10)
            } else if kind == IoFaultKind::Interrupted {
                step_fits(step, old(reader).received(), old(reader).max_body(), past_deadline)
            } else {
                step matches ReadStep::GiveUp(fault) && fault@ == read_fault(text@)
            },
            ReadEvent::Bytes(chunk) => match chunk_fault(
                old(reader).received(),
                chunk@,
                old(reader).max_body(),
            ) {
                Some(known) => step matches ReadStep::GiveUp(fault) && fault@ == known,
                None => final(reader).received() == old(reader).received() + chunk@ && step_fits(
                    step,
                    old(reader).received() + chunk@,
                    old(reader).max_body(),
                    past_deadline,
                ),
            },
        },
{
    match event {
        ReadEvent::Nothing => {},
        ReadEvent::Failed(kind, text) => {
            if kind == IoFaultKind::WouldBlock {
                return ReadStep::Pause(10);
            }
            if kind != IoFaultKind::Interrupted {
                return ReadStep::GiveUp(
                    Fault::caused("failed to read Windows health response", text.as_str()),
                );
            }
        },
        ReadEvent::Bytes(chunk) => {
            if let Err(fault) = reader.receive(chunk.as_slice()) {
                return ReadStep::GiveUp(fault);
            }
        },
    }
    if let Some((status, body)) = reader.finished() {
        return ReadStep::Finish(status, body);
    }
    if past_deadline {
        return ReadStep::GiveUp(Fault::plain("timed out reading Coven daemon HTTP response"));
    }
    ReadStep::Read
}

/// The bytes from `start` up to `end`.
pub fn copy_bytes(bytes: &[u8], start: usize, end: usize) -> (out: Vec<u8>)
    requires
        start <= end <= bytes@.len(),
    ensures
        out@ == bytes@.subrange(start as int, end as int),
{
    let mut out: Vec<u8> = Vec::new();
    let mut i: usize = start;
    while i < end
        invariant
            start <= i <= end <= bytes@.len(),
            out@ == bytes@.subrange(start as int, i as int),
        decreases end - i,
    {
        out.push(bytes[i]);
        assert(bytes@.subrange(start as int, i as int).push(bytes@[i as int]) =~= bytes@.subrange(
            start as int,
            i as int + 1,
        ));
        i += 1;
    }
    out
}

/// Appends `more` to `bytes`.
pub fn append_bytes(bytes: &mut Vec<u8>, more: &[u8])
    ensures
        final(bytes)@ == old(bytes)@ + more@,
{
    let mut i: usize = 0;
    while i < more.len()
        invariant
            i <= more@.len(),
            bytes@ == old(bytes)@ + more@.take(i as int),
        decreases more@.len() - i,
    {
        bytes.push(more[i]);
        assert(more@.take(i as int).push(more@[i as int]) =~= more@.take(i as int + 1));
        i += 1;
    }
    assert(more@.take(more@.len() as int) =~= more@);
}

/// The head of a response ends at the first empty line: two line ends in a row, each a
/// carriage return and a line feed.
pub proof fn heads_end_at_the_first_empty_line(bytes: Seq<u8>, at: int)
    ensures
        head_end(bytes) == Some(at) <==> 0 <= at && at + 4 <= bytes.len() && bytes.subrange(
            at,
            at + 4,
        ) =~= seq![13u8, 10u8, 13u8, 10u8] && (forall|k: int|
            0 <= k < at ==> !(#[trigger] bytes.subrange(k, k + 4) =~= seq![13u8, 10u8, 13u8, 10u8])),
        head_end(bytes) is None ==> forall|k: int|
            0 <= k && k + 4 <= bytes.len() ==> !(#[trigger] bytes.subrange(k, k + 4) =~= seq![
                13u8,
                10u8,
                13u8,
                10u8,
            ]),
{
    head_end_from_is_first(bytes, 0);
    assert forall|k: int| 0 <= k && k + 4 <= bytes.len() implies head_ends_at(bytes, k) == (
    #[trigger] bytes.subrange(k, k + 4) =~= seq![13u8, 10u8, 13u8, 10u8]) by {
        let part = bytes.subrange(k, k + 4);
        assert(part[0] == bytes[k] && part[1] == bytes[k + 1] && part[2] == bytes[k + 2] && part[3]
            == bytes[k + 3]);
    }
    if let Some(first) = head_end(bytes) {
        assert(bytes.subrange(first, first + 4) =~= seq![13u8, 10u8, 13u8, 10u8]);
        assert forall|k: int| 0 <= k < first implies !(#[trigger] bytes.subrange(k, k + 4) =~= seq![
            13u8,
            10u8,
            13u8,
            10u8,
        ]) by {
            assert(!head_ends_at(bytes, k));
        }
        if 0 <= at && at + 4 <= bytes.len() && bytes.subrange(at, at + 4) =~= seq![
            13u8,
            10u8,
            13u8,
            10u8,
        ] && (forall|k: int|
            0 <= k < at ==> !(#[trigger] bytes.subrange(k, k + 4) =~= seq![13u8, 10u8, 13u8, 10u8])) {
            assert(head_ends_at(bytes, at));
            if first < at {
                assert(!(bytes.subrange(first, first + 4) =~= seq![13u8, 10u8, 13u8, 10u8]));
            }
        }
    } else {
        assert forall|k: int| 0 <= k && k + 4 <= bytes.len() implies !(#[trigger] bytes.subrange(
            k,
            k + 4,
        ) =~= seq![13u8, 10u8, 13u8, 10u8]) by {
            assert(!head_ends_at(bytes, k));
        }
    }
}

/// The lines of a head are parted by a carriage return and a line feed.
pub proof fn heads_are_parted_at_line_ends(line: Seq<char>, rest: Seq<char>)
    requires
        !line.contains('\r'),
    ensures
        crlf_lines(line) == seq![line],
        crlf_lines(line + seq!['\r', '\n'] + rest) == seq![line] + crlf_lines(rest),
{
    reveal_strlit("\r\n");
    let mark = "\r\n"@;
    assert(mark =~= seq!['\r', '\n']);
    let whole = line + mark + rest;
    let at = line.len() as int;
    assert(whole.subrange(at, at + 2) =~= mark);
    assert forall|k: int| 0 <= k < at implies !crate::text::stands_at(whole, mark, k) by {
        if crate::text::stands_at(whole, mark, k) {
            assert(whole.subrange(k, k + 2)[0] == whole[k]);
            assert(line[k] == '\r');
        }
    }
    crate::text::first_place_is(whole, mark, at);
    assert(whole.take(at) =~= line);
    assert(whole.skip(at + 2) =~= rest);
    assert(line + seq!['\r', '\n'] + rest =~= whole);
    crate::text::first_place_exists(line, mark);
    if parted(line, mark) is Some {
        let k = crate::text::first_place(line, mark)->0;
        assert(line.subrange(k, k + 2)[0] == line[k]);
        assert(line.contains(line[k]));
    }
}

/// The status of a response is the second word of its first line, a number of 16 bits.
pub proof fn statuses_are_the_second_word(head: Seq<char>)
    ensures
        ({
            let parts = words(crlf_lines(head)[0]);
            &&& parts.len() < 2 ==> head_status(head) == Err::<nat, FaultView>(
                plain("daemon HTTP response omitted its status"@),
            )
            &&& parts.len() >= 2 ==> match parsed_number(parts[1]) {
                Some(n) => if n <= 65535 {
                    head_status(head) == Ok::<nat, FaultView>(n)
                } else {
                    head_status(head) == Err::<nat, FaultView>(
                        caused(
                            "daemon HTTP response had an invalid status"@,
                            number_complaint(parts[1], 65535),
                        ),
                    )
                },
                None => head_status(head) == Err::<nat, FaultView>(
                    caused(
                        "daemon HTTP response had an invalid status"@,
                        number_complaint(parts[1], 65535),
                    ),
                ),
            }
        }),
{
}

/// The length of a response's body is the value of the first header that is called
/// `content-length` in any case; no header before it matters.
pub proof fn the_first_length_counts(
    a: Seq<Seq<char>>,
    name: Seq<char>,
    value: Seq<char>,
    b: Seq<Seq<char>>,
)
    requires
        forall|i: int| 0 <= i < a.len() ==> !is_length_line(#[trigger] a[i]),
        !name.contains(':'),
        lowered(name) == "content-length"@,
    ensures
        length_value(a) is None,
        length_value(a + seq![name.push(':') + value] + b) == Some(trimmed(value)),
    decreases a.len(),
{
    let line = name.push(':') + value;
    reveal_strlit("content-length");
    assert(lowered("content-length"@) =~= "content-length"@);
    reveal_strlit(":");
    let at = name.len() as int;
    assert(line.subrange(at, at + 1) =~= ":"@);
    assert forall|k: int| 0 <= k < at implies !crate::text::stands_at(line, ":"@, k) by {
        if crate::text::stands_at(line, ":"@, k) {
            assert(line.subrange(k, k + 1)[0] == line[k]);
            assert(":"@[0] == ':');
            assert(name[k] == ':');
        }
    }
    crate::text::first_place_is(line, ":"@, at);
    assert(line.take(at) =~= name);
    assert(line.skip(at + 1) =~= value);
    let all = a + seq![line] + b;
    if a.len() == 0 {
        assert(all[0] == line);
    } else {
        assert(all[0] == a[0]);
        assert(!is_length_line(a[0]));
        assert(all.skip(1) =~= a.skip(1) + seq![line] + b);
        assert forall|i: int| 0 <= i < a.skip(1).len() implies !is_length_line(
            #[trigger] a.skip(1)[i],
        ) by {
            assert(!is_length_line(a[i + 1]));
        }
        the_first_length_counts(a.skip(1), name, value, b);
    }
}

/// The length of a response's body is announced in a header behind its first line, as a number
/// that fits.
pub proof fn lengths_are_announced(head: Seq<char>)
    ensures
        match length_value(crlf_lines(head).skip(1)) {
            None => head_length(head) == Err::<nat, FaultView>(
                plain("daemon HTTP response omitted Content-Length"@),
            ),
            Some(value) => {
                let fits = parsed_number(value) matches Some(n) && n <= usize::MAX;
                &&& fits ==> head_length(head) == Ok::<nat, FaultView>(parsed_number(value)->0)
                &&& !fits ==> head_length(head) == Err::<nat, FaultView>(
                    caused(
                        "daemon HTTP response had an invalid Content-Length"@,
                        number_complaint(value, usize::MAX as nat),
                    ),
                )
            },
        },
{
}

/// A response is framed by its head: the body begins right behind the empty line and is as
/// long as announced, within what is accepted. What is wrong with a head is told: that it is
/// no UTF-8, then its status, then its length.
pub proof fn bodies_begin_behind_heads(bytes: Seq<u8>, max: nat)
    ensures
        framing_of(bytes, max) is Open <==> head_end(bytes) is None,
        head_end(bytes) matches Some(at) ==> {
            let head = bytes.take(at);
            let text = vstd::utf8::decode_utf8(head);
            let framing = framing_of(bytes, max);
            &&& !valid_utf8(head) ==> framing == Framing::Bad(
                caused("daemon HTTP response headers were not UTF-8"@, utf8_complaint(head)),
            )
            &&& valid_utf8(head) ==> {
                &&& head_status(text) matches Err(fault) ==> framing == Framing::Bad(fault)
                &&& head_status(text) is Ok ==> (head_length(text) matches Err(fault) ==> framing
                    == Framing::Bad(fault))
                &&& head_status(text) matches Ok(status) ==> (head_length(text) matches Ok(length)
                    ==> {
                    &&& length > max ==> framing == Framing::Bad(
                        plain(
                            "Coven daemon HTTP response body exceeded "@ + decimal(max)
                                + " bytes"@,
                        ),
                    )
                    &&& length <= max ==> framing == (Framing::Framed {
                        status,
                        start: at + 4,
                        length,
                    })
                })
            }
        },
{
}

/// More bytes of a response are refused where there are none, where the head goes on beyond
/// 65536 bytes, and where the head is not acceptable.
pub proof fn endless_heads_are_refused(received: Seq<u8>, chunk: Seq<u8>, max: nat)
    ensures
        ({
            let fault = chunk_fault(received, chunk, max);
            let bytes = received + chunk;
            let endless = framing_of(received, max) is Open && bytes.len() > 65_536;
            &&& chunk.len() == 0 ==> fault == Some(
                plain("Coven daemon closed the connection before its HTTP response completed"@),
            )
            &&& chunk.len() > 0 && endless ==> fault == Some(
                plain("Coven daemon HTTP response headers exceeded 65536 bytes"@),
            )
            &&& chunk.len() > 0 && !endless ==> (framing_of(bytes, max) matches Framing::Bad(
                wrong,
            ) ==> fault == Some(wrong)) && (framing_of(bytes, max) !is Bad ==> fault is None)
        }),
{
}

/// A response that has come whole is handed out, time or no time; one that has not is read on
/// while there is time, and given up then.
pub proof fn whole_responses_are_handed_out(
    step: ReadStep,
    received: Seq<u8>,
    max: nat,
    past_deadline: bool,
)
    requires
        step_fits(step, received, max, past_deadline),
    ensures
        step matches ReadStep::Finish(code, body) ==> (framing_of(received, max) matches
            Framing::Framed { status, start, length } && code == status && received.len() >= start
            + length && body@ == received.subrange(start, start + length)),
        framing_of(received, max) matches Framing::Framed { status, start, length } ==> (
        received.len() >= start + length ==> step is Finish),
        step is Read ==> !past_deadline,
        step matches ReadStep::GiveUp(fault) ==> past_deadline && fault@ == plain(
            "timed out reading Coven daemon HTTP response"@,
        ),
        !(step is Pause),
{
}

/// What is said of a transport that fails names its failure.
pub proof fn failed_reads_are_told(text: Seq<char>)
    ensures
        read_fault(text) == caused("failed to read Windows health response"@, text),
{
}

/// A response is finished once its body has come, and then it is the status and the body that
/// the head announced.
pub proof fn finished_responses_are_whole(
    reader: &ResponseReader,
    response: Option<(u16, Vec<u8>)>,
)
    requires
        call_ensures(ResponseReader::finished, (reader,), response),
    ensures
        response matches Some(pair) ==> (framing_of(reader.received(), reader.max_body()) matches
            Framing::Framed { status, start, length } && pair.0 == status && reader.received().len()
            >= start + length && pair.1@ == reader.received().subrange(start, start + length)),
        framing_of(reader.received(), reader.max_body()) matches Framing::Framed {
            status,
            start,
            length,
        } ==> (reader.received().len() >= start + length ==> response is Some),
{
}

/// Reading a response: a failure that only asks for patience is waited out, an interruption is
/// read over, and any other failure ends it.
pub proof fn reading_waits_where_it_must(
    reader: &mut ResponseReader,
    event: ReadEvent,
    past_deadline: bool,
    step: ReadStep,
)
    requires
        call_ensures(read_http_response_with_deadline, (reader, event, past_deadline), step),
    ensures
        event matches ReadEvent::Failed(kind, text) ==> {
            &&& kind == IoFaultKind::WouldBlock ==> step == ReadStep::Pause(10)
            &&& kind != IoFaultKind::WouldBlock && kind != IoFaultKind::Interrupted ==> (
            step matches ReadStep::GiveUp(fault) && fault@ == caused(
                "failed to read Windows health response"@,
                text@,
            ))
            &&& kind == IoFaultKind::Interrupted ==> step_fits(
                step,
                old(reader).received(),
                old(reader).max_body(),
                past_deadline,
            )
        },
        event is Nothing ==> step_fits(
            step,
            old(reader).received(),
            old(reader).max_body(),
            past_deadline,
        ),
        event matches ReadEvent::Bytes(chunk) ==> match chunk_fault(
            old(reader).received(),
            chunk@,
            old(reader).max_body(),
        ) {
            Some(wrong) => step matches ReadStep::GiveUp(fault) && fault@ == wrong,
            None => step_fits(
                step,
                old(reader).received() + chunk@,
                old(reader).max_body(),
                past_deadline,
            ) && final(reader).received() == old(reader).received() + chunk@,
        },
{
}

} // verus!
