//! The HTTP surface of the daemon: request parsing, the host and origin guard, response
//! framing.

use crate::fault::{caused, plain, Fault, FaultView};
use crate::json::{
    bool_value, empty, empty_object, field_of, json_encoding, json_text, object_with, text_value,
    with_field, Json,
};
use crate::numbers::{
    decimal, decimal_text, denotes, number_complaint, parse_number, parsed_number, usize_complaint,
};
use crate::text::{
    before, byte_len, chars_of, ends_with, is_space, joined, lowered, parted, part_text, same_ignoring_case,
    same_text, slice_copy, starts_with, text_before, text_of, trim_text, trimmed, views, words,
    words_of,
};
use vstd::prelude::*;
use vstd::string::*;
use vstd::utf8::{encode_utf8, valid_utf8};

verus! {

/// The largest request body that the TCP transport reads.
pub const MAX_TCP_BODY_BYTES: usize = 4_194_304;

/// The largest request body that the local socket and named pipe transports read.
pub const MAX_SOCKET_BODY_BYTES: usize = 4_194_304;

/// The largest response head that a health reader holds.
pub const MAX_RESPONSE_HEADERS: usize = 65_536;

/// The port on which a listener answers remote fleet routes only.
pub const FLEET_PORT: u16 = 8787;

/// The reason phrase of a status code; a code without one of its own has that of 200.
pub open spec fn reason_phrase(status: u16) -> Seq<char> {
    if status == 201 {
        "Created"@
    } else if status == 202 {
        "Accepted"@
    } else if status == 400 {
        "Bad Request"@
    } else if status == 403 {
        "Forbidden"@
    } else if status == 404 {
        "Not Found"@
    } else if status == 409 {
        "Conflict"@
    } else if status == 413 {
        "Payload Too Large"@
    } else if status == 422 {
        "Unprocessable Content"@
    } else if status == 500 {
        "Internal Server Error"@
    } else if status == 503 {
        "Service Unavailable"@
    } else {
        "OK"@
    }
}

/// The reason phrase of a status code.
pub fn http_reason_phrase(status: u16) -> (phrase: &'static str)
    ensures
        phrase@ == reason_phrase(status),
{
    match status {
        200 => "OK",
        201 => "Created",
        202 => "Accepted",
        400 => "Bad Request",
        403 => "Forbidden",
        404 => "Not Found",
        409 => "Conflict",
        413 => "Payload Too Large",
        422 => "Unprocessable Content",
        500 => "Internal Server Error",
        503 => "Service Unavailable",
        _ => "OK",
    }
}

/// The method and the path of a request line: its first two words.
pub fn parse_request_line(line: &str) -> (parsed: Result<(String, String), Fault>)
    ensures
        match parsed {
            Ok((method, path)) => words(line@).len() >= 2 && method@ == words(line@)[0] && path@
                == words(line@)[1],
            Err(fault) => {
                &&& words(line@).len() == 0 ==> fault@ == plain("missing HTTP method"@)
                &&& words(line@).len() == 1 ==> fault@ == plain("missing HTTP path"@)
                &&& words(line@).len() < 2
            },
        },
{
    let parts = words_of(line);
    assert(views(parts@).len() == parts@.len());
    if parts.len() == 0 {
        return Err(Fault::plain("missing HTTP method"));
    }
    if parts.len() == 1 {
        return Err(Fault::plain("missing HTTP path"));
    }
    assert(views(parts@)[0] == parts@[0]@ && views(parts@)[1] == parts@[1]@);
    Ok((parts[0].clone(), parts[1].clone()))
}

/// The headers of a request that the daemon reads.
#[derive(Debug, Clone)]
pub struct ParsedHeaders {
    pub content_length: usize,
    pub host: Option<String>,
    pub origin: Option<String>,
}

/// What the headers of a request say.
pub struct HeadersView {
    pub content_length: nat,
    pub host: Option<Seq<char>>,
    pub origin: Option<Seq<char>>,
}

impl View for ParsedHeaders {
    type V = HeadersView;

    open spec fn view(&self) -> HeadersView {
        HeadersView {
            content_length: self.content_length as nat,
            host: crate::fault::optional_view(self.host),
            origin: crate::fault::optional_view(self.origin),
        }
    }
}

/// Whether a line ends the headers: an empty line, or nothing at the end of the input.
pub open spec fn ends_headers(line: Seq<char>) -> bool {
    line.len() == 0 || line == "\r\n"@ || line == "\n"@
}

/// The headers after one more line, or what is wrong with it: its length is not a number that
/// fits.
pub open spec fn header_step(headers: HeadersView, line: Seq<char>) -> Result<
    HeadersView,
    FaultView,
> {
    match parted(line, ":"@) {
        None => Ok(headers),
        Some((name, value)) => {
            let name = lowered(trimmed(name));
            let value = trimmed(value);
            if name == lowered("content-length"@) {
                if denotes(value, usize::MAX as nat) {
                    Ok(HeadersView { content_length: parsed_number(value)->0, ..headers })
                } else {
                    Err(
                        caused(
                            "invalid Content-Length header"@,
                            number_complaint(value, usize::MAX as nat),
                        ),
                    )
                }
            } else if name == lowered("host"@) {
                Ok(HeadersView { host: Some(value), ..headers })
            } else if name == lowered("origin"@) {
                Ok(HeadersView { origin: Some(value), ..headers })
            } else {
                Ok(headers)
            }
        },
    }
}

/// What the lines up to the end of the headers say, or what is wrong with the first line
/// that is not in order.
pub open spec fn headers_after(headers: HeadersView, lines: Seq<Seq<char>>) -> Result<
    HeadersView,
    FaultView,
>
    decreases lines.len(),
{
    if lines.len() == 0 || ends_headers(lines[0]) {
        Ok(headers)
    } else {
        match header_step(headers, lines[0]) {
            Ok(next) => headers_after(next, lines.skip(1)),
            Err(fault) => Err(fault),
        }
    }
}

/// The headers of a request that has none.
pub open spec fn no_headers() -> HeadersView {
    HeadersView { content_length: 0, host: None, origin: None }
}

/// Whether a line ends the headers.
pub fn line_ends_headers(line: &str) -> (ends: bool)
    ensures
        ends == ends_headers(line@),
{
    line.is_empty() || same_text(line, "\r\n") || same_text(line, "\n")
}

impl ParsedHeaders {
    /// The headers of a request that has none.
    pub fn none() -> (headers: ParsedHeaders)
        ensures
            headers@ == no_headers(),
    {
        ParsedHeaders { content_length: 0, host: None, origin: None }
    }

    /// Takes up one header line. The last line of a name counts, and the names are
    /// compared without regard to case.
    pub fn read_line(&mut self, line: &str) -> (outcome: Result<(), Fault>)
        ensures
            match outcome {
                Ok(()) => header_step(old(self)@, line@) == Ok::<HeadersView, FaultView>(
                    final(self)@,
                ),
                Err(fault) => header_step(old(self)@, line@) == Err::<HeadersView, FaultView>(
                    fault@,
                ) && final(self)@ == old(self)@,
            },
    {
        match part_text(line, ":") {
            None => Ok(()),
            Some((name, value)) => {
                let name = trim_text(name.as_str());
                let value = trim_text(value.as_str());
                if same_ignoring_case(name.as_str(), "content-length") {
                    match parse_number(value.as_str(), usize::MAX as u64) {
                        Some(length) => {
                            self.content_length = length as usize;
                            Ok(())
                        },
                        None => {
                            let complaint = usize_complaint(value.as_str());
                            Err(
                                Fault::caused(
                                    "invalid Content-Length header",
                                    complaint.as_str(),
                                ),
                            )
                        },
                    }
                } else if same_ignoring_case(name.as_str(), "host") {
                    self.host = Some(value);
                    Ok(())
                } else if same_ignoring_case(name.as_str(), "origin") {
                    self.origin = Some(value);
                    Ok(())
                } else {
                    Ok(())
                }
            },
        }
    }
}

/// Reads the headers from the lines that follow a request line.
pub fn read_http_headers(lines: &[String]) -> (read: Result<ParsedHeaders, Fault>)
    ensures
        match read {
            Ok(headers) => headers_after(no_headers(), views(lines@)) == Ok::<
                HeadersView,
                FaultView,
            >(headers@),
            Err(fault) => headers_after(no_headers(), views(lines@)) == Err::<
                HeadersView,
                FaultView,
            >(fault@),
        },
{
    let mut headers = ParsedHeaders::none();
    let mut i: usize = 0;
    assert(views(lines@).skip(0) =~= views(lines@));
    while i < lines.len()
        invariant
            i <= lines@.len(),
            headers_after(no_headers(), views(lines@)) == headers_after(
                headers@,
                views(lines@).skip(i as int),
            ),
        decreases lines@.len() - i,
    {
        let ghost rest = views(lines@).skip(i as int);
        assert(rest[0] == lines@[i as int]@);
        assert(rest.skip(1) =~= views(lines@).skip(i as int + 1));
        if line_ends_headers(lines[i].as_str()) {
            return Ok(headers);
        }
        match headers.read_line(lines[i].as_str()) {
            Ok(()) => {},
            Err(fault) => {
                return Err(fault);
            },
        }
        i += 1;
    }
    assert(views(lines@).skip(i as int).len() == 0);
    Ok(headers)
}

/// What std says of bytes that are not UTF-8.
pub uninterp spec fn utf8_complaint(bytes: Seq<u8>) -> Seq<char>;

/// `String::from_utf8` takes the bytes of a text and refuses bytes that are not UTF-8; its
/// error, written out, depends on the bytes alone.
#[verifier::external_body]
pub(crate) fn text_from_utf8(bytes: Vec<u8>) -> (text: Result<String, String>)
    ensures
        match text {
            Ok(read) => encode_utf8(read@) == bytes@,
            Err(complaint) => !valid_utf8(bytes@) && complaint@ == utf8_complaint(bytes@),
        },
{
    String::from_utf8(bytes).map_err(|error| error.to_string())
}

/// The body of a request from the bytes that its length announced.
pub fn read_http_body(bytes: Vec<u8>) -> (body: Result<Option<String>, Fault>)
    ensures
        match body {
            Ok(None) => bytes@.len() == 0,
            Ok(Some(text)) => bytes@.len() > 0 && encode_utf8(text@) == bytes@,
            Err(fault) => bytes@.len() > 0 && !valid_utf8(bytes@) && fault@ == caused(
                "API request body was not valid UTF-8"@,
                utf8_complaint(bytes@),
            ),
        },
{
    if bytes.len() == 0 {
        return Ok(None);
    }
    match text_from_utf8(bytes) {
        Ok(text) => Ok(Some(text)),
        Err(complaint) => Err(
            Fault::caused("API request body was not valid UTF-8", complaint.as_str()),
        ),
    }
}

/// An authority without its port: what an IPv6 literal's brackets hold, or what stands
/// before the first colon.
pub open spec fn without_port(authority: Seq<char>) -> Seq<char> {
    if authority.len() > 0 && authority[0] == '[' {
        before(authority.skip(1), ']')
    } else {
        before(authority, ':')
    }
}

/// An authority without its port.
pub fn strip_port(authority: &str) -> (host: String)
    ensures
        host@ == without_port(authority@),
{
    let chars = chars_of(authority);
    if chars.len() > 0 && chars[0] == '[' {
        let rest = slice_copy(chars.as_slice(), 1, chars.len());
        assert(rest@ =~= authority@.skip(1));
        text_before(text_of(rest.as_slice()).as_str(), ']')
    } else {
        text_before(authority, ':')
    }
}

/// The host that a `Host` header names.
pub open spec fn named_host(host: Seq<char>) -> Seq<char> {
    without_port(trimmed(host))
}

/// The host that an `Origin` header names, where it has a scheme.
pub open spec fn origin_host(origin: Seq<char>) -> Option<Seq<char>> {
    match parted(trimmed(origin), "://"@) {
        Some((_, rest)) => Some(without_port(rest)),
        None => None,
    }
}

/// The host that a `Host` header names.
pub fn host_authority(host: &str) -> (named: String)
    ensures
        named@ == named_host(host@),
{
    strip_port(trim_text(host).as_str())
}

/// The host that an `Origin` header names, where it has a scheme.
pub fn origin_authority(origin: &str) -> (named: Option<String>)
    ensures
        match named {
            Some(host) => origin_host(origin@) == Some(host@),
            None => origin_host(origin@) is None,
        },
{
    match part_text(trim_text(origin).as_str(), "://") {
        Some((_, rest)) => Some(strip_port(rest.as_str())),
        None => None,
    }
}

/// The bytes of the IP address that a text denotes, where it does.
pub uninterp spec fn address_bytes(text: Seq<char>) -> Option<Seq<u8>>;

/// Whether a character can stand in an IP address.
pub open spec fn in_address(character: char) -> bool {
    ||| '0' <= character <= '9'
    ||| 'a' <= character <= 'f'
    ||| 'A' <= character <= 'F'
    ||| character == '.'
    ||| character == ':'
}

/// Whether a text can be an IP address: it is not empty and holds nothing else.
pub open spec fn could_be_address(text: Seq<char>) -> bool {
    text.len() > 0 && forall|i: int| 0 <= i < text.len() ==> in_address(#[trigger] text[i])
}

/// `FromStr` of `core::net::IpAddr` reads an address, of four decimal numbers or of groups of
/// hexadecimal digits; it is handed on as its four or sixteen bytes, in network order. A text
/// with any other character in it is no address.
#[verifier::external_body]
pub(crate) fn read_address(text: &str) -> (address: Option<Vec<u8>>)
    ensures
        match address {
            Some(bytes) => address_bytes(text@) == Some(bytes@) && (bytes@.len() == 4
                || bytes@.len() == 16) && could_be_address(text@),
            None => address_bytes(text@) is None,
        },
{
    match text.parse::<core::net::IpAddr>() {
        Ok(core::net::IpAddr::V4(address)) => Some(address.octets().to_vec()),
        Ok(core::net::IpAddr::V6(address)) => Some(address.octets().to_vec()),
        Err(_) => None,
    }
}

/// Whether the bytes of an address are of the loopback range: of four, the first is 127; of
/// sixteen, only the last is not zero, and is one.
pub open spec fn is_loopback_address(bytes: Seq<u8>) -> bool {
    if bytes.len() == 4 {
        bytes[0] == 127
    } else {
        &&& bytes.len() == 16
        &&& bytes[15] == 1
        &&& forall|i: int| 0 <= i < 15 ==> #[trigger] bytes[i] == 0
    }
}

/// Whether a text is an IP address of the loopback range.
pub open spec fn address_loops(text: Seq<char>) -> bool {
    address_bytes(text) matches Some(bytes) && is_loopback_address(bytes)
}

/// Whether a text is an IP address of the loopback range.
pub fn address_is_loopback(text: &str) -> (yes: bool)
    ensures
        yes == address_loops(text@),
        yes ==> could_be_address(text@),
{
    let bytes = match read_address(text) {
        Some(bytes) => bytes,
        None => {
            return false;
        },
    };
    if bytes.len() == 4 {
        return bytes[0] == 127;
    }
    let mut i: usize = 0;
    while i < 15
        invariant
            i <= 15,
            bytes@.len() == 16,
            address_bytes(text@) == Some(bytes@),
            forall|k: int| 0 <= k < i ==> #[trigger] bytes@[k] == 0,
        decreases 15 - i,
    {
        if bytes[i] != 0 {
            assert(bytes@[i as int] != 0);
            return false;
        }
        i += 1;
    }
    bytes[15] == 1
}

/// Whether a host names this machine: the name `localhost`, or an address of the loopback
/// range.
pub open spec fn loops(host: Seq<char>) -> bool {
    host == "localhost"@ || address_loops(host)
}

/// Whether a host names this machine. The address itself is asked: a name that only begins
/// like one does not.
pub fn is_loopback_host(host: &str) -> (yes: bool)
    ensures
        yes == loops(host@),
        yes && host@ != "localhost"@ ==> could_be_address(host@),
{
    same_text(host, "localhost") || address_is_loopback(host)
}

/// Whether `host` is one of `allowed`, without regard to case and port.
pub open spec fn listed(host: Seq<char>, allowed: Seq<Seq<char>>) -> bool {
    exists|i: int|
        0 <= i < allowed.len() && lowered(named_host(#[trigger] allowed[i])) == lowered(host)
}

/// Whether `host` is one of `allowed`, without regard to case and port.
fn host_is_listed(host: &str, allowed: &[String]) -> (yes: bool)
    ensures
        yes == listed(host@, views(allowed@)),
{
    let mut i: usize = 0;
    while i < allowed.len()
        invariant
            i <= allowed@.len(),
            forall|k: int|
                0 <= k < i ==> lowered(named_host(#[trigger] views(allowed@)[k])) != lowered(host@),
        decreases allowed@.len() - i,
    {
        let candidate = host_authority(allowed[i].as_str());
        assert(views(allowed@)[i as int] == allowed@[i as int]@);
        if same_ignoring_case(candidate.as_str(), host) {
            return true;
        }
        i += 1;
    }
    false
}

/// Whether a request's `Host` is on the allowlist.
pub fn host_in_allowlist(host: Option<&str>, allowed: &[String]) -> (yes: bool)
    ensures
        yes == (host matches Some(h) && listed(named_host(h@), views(allowed@))),
{
    match host {
        Some(h) => host_is_listed(host_authority(h).as_str(), allowed),
        None => false,
    }
}

/// Whether the host of a request's `Origin` is on the allowlist.
pub fn origin_in_allowlist(origin: &str, allowed: &[String]) -> (yes: bool)
    ensures
        yes == (origin_host(origin@) matches Some(h) && listed(h, views(allowed@))),
{
    match origin_authority(origin) {
        Some(host) => host_is_listed(host.as_str(), allowed),
        None => false,
    }
}

/// Whether a request's `Host` names this machine.
pub fn host_is_loopback(host: Option<&str>) -> (yes: bool)
    ensures
        yes == (host matches Some(h) && loops(named_host(h@))),
{
    match host {
        Some(h) => is_loopback_host(host_authority(h).as_str()),
        None => false,
    }
}

/// Whether the host of a request's `Origin` names this machine.
pub fn origin_is_loopback(origin: &str) -> (yes: bool)
    ensures
        yes == (origin_host(origin@) matches Some(h) && loops(h)),
{
    match origin_authority(origin) {
        Some(host) => is_loopback_host(host.as_str()),
        None => false,
    }
}

/// Whether a remote fleet listener answers a route.
pub open spec fn fleet_route(method: Seq<char>, path: Seq<char>) -> bool {
    ||| method == "GET"@ && path == "/api/v1/discovery/advertisement"@
    ||| method == "POST"@ && {
        ||| path == "/api/v1/fleet/enroll"@
        ||| path == "/api/v1/fleet/pairing-requests"@
        ||| path == "/api/v1/fleet/challenges"@
        ||| path == "/api/v1/fleet/reconnect"@
        ||| path == "/api/v1/fleet/jobs/claim"@
        ||| path == "/api/v1/fleet/jobs/complete"@
        ||| "/api/v1/fleet/pairing-requests/"@.is_prefix_of(path) && "/claim"@.is_suffix_of(path)
    }
}

/// Whether a remote fleet listener answers a route.
pub fn fleet_remote_route_allowed(method: &str, path: &str) -> (allowed: bool)
    ensures
        allowed == fleet_route(method@, path@),
{
    (same_text(method, "GET") && same_text(path, "/api/v1/discovery/advertisement")) || (same_text(
        method,
        "POST",
    ) && (same_text(path, "/api/v1/fleet/enroll") || same_text(
        path,
        "/api/v1/fleet/pairing-requests",
    ) || same_text(path, "/api/v1/fleet/challenges") || same_text(path, "/api/v1/fleet/reconnect")
        || same_text(path, "/api/v1/fleet/jobs/claim") || same_text(
        path,
        "/api/v1/fleet/jobs/complete",
    ) || (starts_with(path, "/api/v1/fleet/pairing-requests/") && ends_with(path, "/claim"))))
}


/// Which peers a transport lets in: a socket that the file system guards lets everyone in,
/// a TCP listener asks for a loopback or listed host.
#[derive(Debug, Clone)]
pub enum HostGuard {
    Disabled,
    Loopback { allowed_hosts: Vec<String>, fleet_remote_only: bool },
}

/// Whose request it is: the owner's over the local socket, or a TCP peer's.
#[derive(Debug, Clone, Copy, PartialEq, Eq, Structural)]
pub enum RequestAuthority {
    OwnerLocalIpc,
    Tcp,
}

/// Why a request is refused.
pub enum Refusal {
    ForeignHost,
    CrossOrigin,
    NotAFleetRoute,
    BodyTooLarge(nat),
}

/// Whether the guard lets a `Host` header in.
pub open spec fn host_admitted(host: Option<Seq<char>>, allowed: Seq<Seq<char>>) -> bool {
    host matches Some(h) && (loops(named_host(h)) || listed(named_host(h), allowed))
}

/// Whether the guard lets an `Origin` header in.
pub open spec fn origin_admitted(origin: Option<Seq<char>>, allowed: Seq<Seq<char>>) -> bool {
    origin matches Some(o) ==> (origin_host(o) matches Some(h) && (loops(h) || listed(h, allowed)))
}

/// Why a request is refused, if it is: the guard's reasons come first, in their order, and
/// the size of the body last.
pub open spec fn refusal_of(
    guard: HostGuard,
    method: Seq<char>,
    path: Seq<char>,
    headers: HeadersView,
    max_body_bytes: Option<usize>,
) -> Option<Refusal> {
    let guarded = match guard {
        HostGuard::Disabled => None,
        HostGuard::Loopback { allowed_hosts, fleet_remote_only } => {
            if !host_admitted(headers.host, views(allowed_hosts@)) {
                Some(Refusal::ForeignHost)
            } else if !origin_admitted(headers.origin, views(allowed_hosts@)) {
                Some(Refusal::CrossOrigin)
            } else if fleet_remote_only && !fleet_route(method, path) {
                Some(Refusal::NotAFleetRoute)
            } else {
                None
            }
        },
    };
    match guarded {
        Some(reason) => Some(reason),
        None => match max_body_bytes {
            Some(max) => if headers.content_length > max {
                Some(Refusal::BodyTooLarge(max as nat))
            } else {
                None
            },
            None => None,
        },
    }
}

/// An HTTP response that closes the connection.
pub open spec fn response_text(
    status_line: Seq<char>,
    content_type: Seq<char>,
    body: Seq<char>,
) -> Seq<char> {
    "HTTP/1.1 "@ + status_line + "\r\nContent-Type: "@ + content_type + "\r\nContent-Length: "@
        + decimal(encode_utf8(body).len()) + "\r\nConnection: close\r\n\r\n"@ + body
}

/// Writes an HTTP response that closes the connection.
fn write_response(status_line: &str, content_type: &str, body: &str) -> (out: String)
    ensures
        out@ == response_text(status_line@, content_type@, body@),
{
    let mut out: String = "HTTP/1.1 ".to_owned();
    out.append(status_line);
    out.append("\r\nContent-Type: ");
    out.append(content_type);
    out.append("\r\nContent-Length: ");
    out.append(decimal_text(byte_len(body) as u64).as_str());
    out.append("\r\nConnection: close\r\n\r\n");
    out.append(body);
    out
}

/// The response to a request that was handled.
pub fn render_response(status: u16, content_type: &str, body: &str) -> (out: String)
    ensures
        out@ == response_text(
            decimal(status as nat) + " "@ + reason_phrase(status),
            content_type@,
            body@,
        ),
{
    let line = joined(
        joined(decimal_text(status as u64).as_str(), " ").as_str(),
        http_reason_phrase(status),
    );
    write_response(line.as_str(), content_type, body)
}

/// The body of an answer that forbids a request.
pub open spec fn forbidden_body(reason: Seq<char>) -> Seq<char> {
    "{\"ok\":false,\"error\":{\"code\":\"forbidden\",\"message\":\""@ + reason + "\"}}"@
}

/// The answer that forbids a request.
pub open spec fn forbidden(reason: Seq<char>) -> Seq<char> {
    response_text("403 Forbidden"@, "application/json"@, forbidden_body(reason))
}

/// The answer that forbids a request.
pub fn write_forbidden(reason: &str) -> (out: String)
    ensures
        out@ == forbidden(reason@),
{
    let mut body: String =
        "{\"ok\":false,\"error\":{\"code\":\"forbidden\",\"message\":\"".to_owned();
    body.append(reason);
    body.append("\"}}");
    write_response("403 Forbidden", "application/json", body.as_str())
}

/// The body of an answer to a request whose body is too large.
pub open spec fn too_large_body(max: nat) -> Seq<char> {
    "{\"ok\":false,\"error\":{\"code\":\"payload_too_large\",\"message\":\"Request body exceeds "@
        + decimal(max) + "-byte limit.\"}}"@
}

/// The answer to a request whose body is too large.
pub open spec fn too_large(max: nat) -> Seq<char> {
    response_text("413 Payload Too Large"@, "application/json"@, too_large_body(max))
}

/// The answer to a request whose body is too large.
pub fn write_payload_too_large(max: usize) -> (out: String)
    ensures
        out@ == too_large(max as nat),
{
    let mut body: String =
        "{\"ok\":false,\"error\":{\"code\":\"payload_too_large\",\"message\":\"Request body exceeds ".to_owned();
    body.append(decimal_text(max as u64).as_str());
    body.append("-byte limit.\"}}");
    write_response("413 Payload Too Large", "application/json", body.as_str())
}

/// The body of an answer to a request that the handler failed on.
pub open spec fn internal_error_model(message: Seq<char>) -> Json {
    object_with(
        object_with(empty(), "ok"@, Json::Bool(false)),
        "error"@,
        object_with(
            object_with(empty(), "code"@, Json::Text("internal_error"@)),
            "message"@,
            Json::Text(message),
        ),
    )
}

/// The answer to a request that the handler failed on.
pub open spec fn internal_error(message: Seq<char>) -> Seq<char> {
    response_text(
        "500 Internal Server Error"@,
        "application/json"@,
        json_encoding(internal_error_model(message)),
    )
}

/// The answer to a request that the handler failed on.
pub fn write_internal_server_error(message: &str) -> (out: String)
    ensures
        out@ == internal_error(message@),
{
    let inner = with_field(
        with_field(empty_object(), "code", text_value("internal_error")),
        "message",
        text_value(message),
    );
    let body = with_field(with_field(empty_object(), "ok", bool_value(false)), "error", inner);
    write_response("500 Internal Server Error", "application/json", json_text(&body).as_str())
}

/// The answer that a refusal is given.
pub open spec fn refusal_text(refusal: Refusal) -> Seq<char> {
    match refusal {
        Refusal::ForeignHost => forbidden("Host header must be a loopback or allowed address."@),
        Refusal::CrossOrigin => forbidden("Cross-origin requests are not allowed."@),
        Refusal::NotAFleetRoute => forbidden(
            "This Fleet listener exposes only remote pairing and discovery routes."@,
        ),
        Refusal::BodyTooLarge(max) => too_large(max),
    }
}

/// What to do with a request whose head has been read.
#[derive(Debug, Clone)]
pub enum RequestPlan {
    /// Send this answer and read no body.
    Refuse(String),
    /// Read `content_length` bytes of body and hand the request to the API.
    Serve { method: String, path: String, content_length: usize, authority: RequestAuthority },
}

/// Whose request a guard lets in.
pub open spec fn authority_of(guard: HostGuard) -> RequestAuthority {
    match guard {
        HostGuard::Disabled => RequestAuthority::OwnerLocalIpc,
        HostGuard::Loopback { .. } => RequestAuthority::Tcp,
    }
}

/// Whether the outcome of a request's head is the one that its method, path and headers ask
/// for.
pub open spec fn plan_is(
    plan: RequestPlan,
    guard: HostGuard,
    method: Seq<char>,
    path: Seq<char>,
    headers: HeadersView,
    max_body_bytes: Option<usize>,
) -> bool {
    match refusal_of(guard, method, path, headers, max_body_bytes) {
        Some(refusal) => plan matches RequestPlan::Refuse(answer) && answer@ == refusal_text(
            refusal,
        ),
        None => plan matches RequestPlan::Serve { method: m, path: p, content_length, authority }
            && m@ == method && p@ == path && content_length == headers.content_length && authority
            == authority_of(guard),
    }
}

/// Decides on a request whose head parsed.
pub fn plan_request(
    guard: &HostGuard,
    method: &str,
    path: &str,
    headers: &ParsedHeaders,
    max_body_bytes: Option<usize>,
) -> (plan: RequestPlan)
    ensures
        plan_is(plan, *guard, method@, path@, headers@, max_body_bytes),
{
    let authority = match guard {
        HostGuard::Disabled => RequestAuthority::OwnerLocalIpc,
        HostGuard::Loopback { allowed_hosts, fleet_remote_only } => {
            let host: Option<&str> = match &headers.host {
                Some(host) => Some(host.as_str()),
                None => None,
            };
            if !host_is_loopback(host) && !host_in_allowlist(
                host,
                allowed_hosts.as_slice(),
            ) {
                return RequestPlan::Refuse(
                    write_forbidden("Host header must be a loopback or allowed address."),
                );
            }
            if let Some(origin) = &headers.origin {
                if !origin_is_loopback(origin.as_str())
                    && !origin_in_allowlist(origin.as_str(), allowed_hosts.as_slice()) {
                    return RequestPlan::Refuse(
                        write_forbidden("Cross-origin requests are not allowed."),
                    );
                }
            }
            if *fleet_remote_only && !fleet_remote_route_allowed(method, path) {
                return RequestPlan::Refuse(
                    write_forbidden(
                        "This Fleet listener exposes only remote pairing and discovery routes.",
                    ),
                );
            }
            RequestAuthority::Tcp
        },
    };
    if let Some(max) = max_body_bytes {
        if headers.content_length > max {
            return RequestPlan::Refuse(write_payload_too_large(max));
        }
    }
    RequestPlan::Serve {
        method: method.to_owned(),
        path: path.to_owned(),
        content_length: headers.content_length,
        authority,
    }
}

/// Handles the head of a request: its request line and the lines of its headers, as they
/// were read. An empty request and malformed headers come before a malformed request line.
pub fn handle_http_stream(
    request_line: &str,
    header_lines: &[String],
    guard: &HostGuard,
    max_body_bytes: Option<usize>,
) -> (outcome: Result<RequestPlan, Fault>)
    ensures
        ({
            let headers = headers_after(no_headers(), views(header_lines@));
            let parts = words(request_line@);
            match outcome {
                Ok(plan) => request_line@.len() > 0 && headers is Ok && parts.len() >= 2
                    && plan_is(plan, *guard, parts[0], parts[1], headers->Ok_0, max_body_bytes),
                Err(fault) => fault@ == (if request_line@.len() == 0 {
                    plain("empty API request"@)
                } else if headers is Err {
                    headers->Err_0
                } else if parts.len() == 0 {
                    plain("missing HTTP method"@)
                } else {
                    plain("missing HTTP path"@)
                }) && (request_line@.len() == 0 || headers is Err || parts.len() < 2),
            }
        }),
{
    if request_line.is_empty() {
        return Err(Fault::plain("empty API request"));
    }
    let headers = match read_http_headers(header_lines) {
        Ok(headers) => headers,
        Err(fault) => {
            return Err(fault);
        },
    };
    let (method, path) = match parse_request_line(request_line) {
        Ok(parts) => parts,
        Err(fault) => {
            return Err(fault);
        },
    };
    Ok(plan_request(guard, method.as_str(), path.as_str(), &headers, max_body_bytes))
}

/// A refused request is answered with 403 or 413, whatever its body would have been.
pub proof fn refused_requests_are_answered(refusal: Refusal)
    ensures
        "HTTP/1.1 403 Forbidden"@.is_prefix_of(refusal_text(refusal))
            || "HTTP/1.1 413 Payload Too Large"@.is_prefix_of(refusal_text(refusal)),
{
    reveal_strlit("HTTP/1.1 ");
    reveal_strlit("403 Forbidden");
    reveal_strlit("413 Payload Too Large");
    reveal_strlit("HTTP/1.1 403 Forbidden");
    reveal_strlit("HTTP/1.1 413 Payload Too Large");
    match refusal {
        Refusal::BodyTooLarge(max) => {
            let head = "HTTP/1.1 413 Payload Too Large"@;
            let whole = too_large(max);
            assert(head =~= whole.subrange(0, head.len() as int));
        },
        _ => {
            let head = "HTTP/1.1 403 Forbidden"@;
            let whole = refusal_text(refusal);
            assert(head =~= whole.subrange(0, head.len() as int));
        },
    }
}

/// The allowlist match does not depend on the case of ASCII letters.
pub proof fn allowlist_ignores_case(a: Seq<char>, b: Seq<char>, allowed: Seq<Seq<char>>)
    requires
        lowered(a) == lowered(b),
    ensures
        listed(a, allowed) == listed(b, allowed),
{
}

/// A port behind a host that is no IPv6 literal does not change which host is meant.
pub proof fn port_is_ignored(host: Seq<char>, port: Seq<char>)
    requires
        host.len() > 0,
        host[0] != '[',
        !host.contains(':'),
    ensures
        without_port(host + seq![':'] + port) == host,
        without_port(host) == host,
{
    let whole = host + seq![':'] + port;
    assert(whole[0] == host[0]);
    crate::text::index_or_len_bounds(whole, ':');
    crate::text::index_or_len_bounds(host, ':');
    let at = crate::text::index_or_len(whole, ':');
    assert(whole[host.len() as int] == ':');
    if at < host.len() {
        assert(whole[at] == host[at]);
        assert(host.contains(':'));
    }
    assert(whole.take(at) =~= host);
    if crate::text::index_or_len(host, ':') < host.len() {
        assert(host.contains(host[crate::text::index_or_len(host, ':')]));
    }
    assert(host.take(host.len() as int) =~= host);
}

/// An empty allowlist lets no host in.
pub proof fn empty_allowlist_admits_nothing(host: Seq<char>)
    ensures
        !listed(host, seq![]),
{
}

/// Each status that the daemon answers with has its own reason; every other is told as `OK`.
pub proof fn reasons_belong_to_statuses(status: u16)
    ensures
        status == 201 ==> reason_phrase(status) == "Created"@,
        status == 202 ==> reason_phrase(status) == "Accepted"@,
        status == 400 ==> reason_phrase(status) == "Bad Request"@,
        status == 403 ==> reason_phrase(status) == "Forbidden"@,
        status == 404 ==> reason_phrase(status) == "Not Found"@,
        status == 409 ==> reason_phrase(status) == "Conflict"@,
        status == 413 ==> reason_phrase(status) == "Payload Too Large"@,
        status == 422 ==> reason_phrase(status) == "Unprocessable Content"@,
        status == 500 ==> reason_phrase(status) == "Internal Server Error"@,
        status == 503 ==> reason_phrase(status) == "Service Unavailable"@,
        status < 201 || 202 < status < 400 || 400 < status < 403 || 404 < status < 409 || 409
            < status < 413 || 413 < status < 422 || 422 < status < 500 || 500 < status < 503
            || status > 503 ==> reason_phrase(status) == "OK"@,
        MAX_TCP_BODY_BYTES == 4_194_304,
        MAX_SOCKET_BODY_BYTES == 4_194_304,
        MAX_RESPONSE_HEADERS == 65_536,
        FLEET_PORT == 8787,
{
}

proof fn names_part_at_colons(name: Seq<char>, value: Seq<char>)
    requires
        !name.contains(':'),
    ensures
        parted(name.push(':') + value, ":"@) == Some((name, value)),
{
    reveal_strlit(":");
    let line = name.push(':') + value;
    let at = name.len() as int;
    assert(line.subrange(at, at + 1) =~= ":"@);
    assert forall|k: int| 0 <= k < at implies !crate::text::stands_at(line, ":"@, k) by {
        if crate::text::stands_at(line, ":"@, k) {
            assert(line.subrange(k, k + 1)[0] == line[k]);
            assert(":"@[0] == ':');
            assert(name[k] == ':');
        }
    }
    crate::text::first_place_is(line, ":"@, at);
    assert(line.take(at) =~= name);
    assert(line.skip(at + 1) =~= value);
}

proof fn known_names_are_low()
    ensures
        lowered("content-length"@) == "content-length"@,
        lowered("host"@) == "host"@,
        lowered("origin"@) == "origin"@,
{
    reveal_strlit("content-length");
    reveal_strlit("host");
    reveal_strlit("origin");
    assert(lowered("content-length"@) =~= "content-length"@);
    assert(lowered("host"@) =~= "host"@);
    assert(lowered("origin"@) =~= "origin"@);
}

/// A header line is a name, a colon and a value. Of three names, in any case and with any
/// space around them, the value is kept without the space around it; the length of the body
/// must be a number that fits. Every other line changes nothing.
pub proof fn headers_are_kept_by_name(headers: HeadersView, name: Seq<char>, value: Seq<char>)
    requires
        !name.contains(':'),
    ensures
        ({
            let step = header_step(headers, name.push(':') + value);
            let called = lowered(trimmed(name));
            let kept = trimmed(value);
            &&& called == "host"@ ==> step == Ok::<HeadersView, FaultView>(
                HeadersView { host: Some(kept), ..headers },
            )
            &&& called == "origin"@ ==> step == Ok::<HeadersView, FaultView>(
                HeadersView { origin: Some(kept), ..headers },
            )
            &&& called == "content-length"@ ==> match parsed_number(kept) {
                Some(n) => if n <= usize::MAX {
                    step == Ok::<HeadersView, FaultView>(
                        HeadersView { content_length: n, ..headers },
                    )
                } else {
                    step == Err::<HeadersView, FaultView>(
                        caused(
                            "invalid Content-Length header"@,
                            number_complaint(kept, usize::MAX as nat),
                        ),
                    )
                },
                None => step == Err::<HeadersView, FaultView>(
                    caused(
                        "invalid Content-Length header"@,
                        number_complaint(kept, usize::MAX as nat),
                    ),
                ),
            }
            &&& called != "host"@ && called != "origin"@ && called != "content-length"@ ==> step
                == Ok::<HeadersView, FaultView>(headers)
            &&& header_step(headers, name) == Ok::<HeadersView, FaultView>(headers)
        }),
{
    names_part_at_colons(name, value);
    known_names_are_low();
    reveal_strlit("content-length");
    reveal_strlit("host");
    reveal_strlit("origin");
    assert("content-length"@.len() == 14);
    assert("host"@.len() == 4);
    assert("origin"@.len() == 6);
    reveal_strlit(":");
    crate::text::first_place_exists(name, ":"@);
    if parted(name, ":"@) is Some {
        let at = crate::text::first_place(name, ":"@)->0;
        assert(name.subrange(at, at + 1)[0] == name[at]);
        assert(":"@[0] == ':');
        assert(name.contains(name[at]));
    }
}

/// Headers are read line by line up to an empty line; what follows it is not looked at.
pub proof fn headers_end_at_an_empty_line(
    headers: HeadersView,
    line: Seq<char>,
    rest: Seq<Seq<char>>,
    other: Seq<Seq<char>>,
)
    ensures
        headers_after(headers, Seq::empty()) == Ok::<HeadersView, FaultView>(headers),
        line.len() == 0 || line == seq!['\n'] || line == seq!['\r', '\n'] ==> headers_after(
            headers,
            seq![line] + rest,
        ) == Ok::<HeadersView, FaultView>(headers),
        line.len() > 0 && line != seq!['\n'] && line != seq!['\r', '\n'] ==> headers_after(
            headers,
            seq![line] + rest,
        ) == match header_step(headers, line) {
            Ok(next) => headers_after(next, rest),
            Err(fault) => Err(fault),
        },
{
    reveal_strlit("\r\n");
    reveal_strlit("\n");
    assert("\r\n"@ =~= seq!['\r', '\n']);
    assert("\n"@ =~= seq!['\n']);
    let all = seq![line] + rest;
    assert(all[0] == line);
    assert(all.skip(1) =~= rest);
}

/// A request without headers has no body, names no host and no origin.
pub proof fn no_headers_say_nothing()
    ensures
        no_headers().content_length == 0,
        no_headers().host is None,
        no_headers().origin is None,
{
}

/// What an IPv6 literal's brackets hold is the host, with or without a port behind them.
pub proof fn brackets_hold_the_host(host: Seq<char>, rest: Seq<char>)
    requires
        !host.contains(']'),
    ensures
        without_port(seq!['['] + host + seq![']'] + rest) == host,
{
    let whole = seq!['['] + host + seq![']'] + rest;
    assert(whole[0] == '[');
    assert(whole.skip(1) =~= host.push(']') + rest);
    crate::text::texts_end_before_a_mark(host, ']', rest);
}

/// The host of an origin is what stands between its scheme and its port; an origin without a
/// scheme has none. The space around a header does not matter.
pub proof fn origins_name_hosts(scheme: Seq<char>, host: Seq<char>, port: Seq<char>)
    requires
        scheme.len() > 0,
        !scheme.contains(':'),
        !is_space(scheme[0]),
        host.len() > 0,
        host[0] != '[',
        !host.contains(':'),
        port.len() > 0,
        !is_space(port.last()),
    ensures
        origin_host(scheme + "://"@ + (host + seq![':'] + port)) == Some(host),
        origin_host(scheme) is None,
        !is_space(host[0]) ==> named_host(host + seq![':'] + port) == host,
{
    reveal_strlit("://");
    let rest = host + seq![':'] + port;
    let origin = scheme + "://"@ + rest;
    let none = Seq::<char>::empty();
    assert(none + origin + none =~= origin);
    assert(origin[0] == scheme[0]);
    assert(origin.last() == port.last());
    crate::text::trimming_takes_only_spaces(none, origin, none);
    assert(trimmed(origin) == origin);
    let at = scheme.len() as int;
    assert(origin.subrange(at, at + 3) =~= "://"@);
    assert forall|k: int| 0 <= k < at implies !crate::text::stands_at(origin, "://"@, k) by {
        if crate::text::stands_at(origin, "://"@, k) {
            assert(origin.subrange(k, k + 3)[0] == origin[k]);
            assert("://"@[0] == ':');
            assert(scheme[k] == ':');
        }
    }
    crate::text::first_place_is(origin, "://"@, at);
    assert(origin.skip(at + 3) =~= rest);
    port_is_ignored(host, port);
    if !is_space(host[0]) {
        assert(none + rest + none =~= rest);
        assert(rest[0] == host[0]);
        assert(rest.last() == port.last());
        crate::text::trimming_takes_only_spaces(none, rest, none);
    }
    let bare = trimmed(scheme);
    crate::text::trimmed_ends_are_not_space(scheme);
    crate::text::first_place_exists(bare, "://"@);
    if parted(bare, "://"@) is Some {
        let k = crate::text::first_place(bare, "://"@)->0;
        assert(bare.subrange(k, k + 3)[0] == bare[k]);
        assert("://"@[0] == ':');
        let (i, j) = choose|i: int, j: int|
            0 <= i <= j <= scheme.len() && bare == #[trigger] scheme.subrange(i, j);
        assert(bare[k] == scheme[i + k]);
        assert(scheme.contains(scheme[i + k]));
    }
}

/// An address is of the loopback range if and only if it has four bytes of which the first is
/// 127, or sixteen of which all are zero but the last, which is one.
pub proof fn loopback_addresses_are_few(bytes: Seq<u8>)
    ensures
        bytes.len() == 4 ==> (is_loopback_address(bytes) <==> bytes[0] == 0x7f),
        bytes.len() == 16 ==> (is_loopback_address(bytes) <==> bytes =~= Seq::new(
            16,
            |i: int|
                if i == 15 {
                    1u8
                } else {
                    0u8
                },
        )),
        bytes.len() != 4 && bytes.len() != 16 ==> !is_loopback_address(bytes),
{
    if bytes.len() == 16 {
        let one = Seq::new(
            16,
            |i: int|
                if i == 15 {
                    1u8
                } else {
                    0u8
                },
        );
        if is_loopback_address(bytes) {
            assert(bytes =~= one);
        }
        if bytes =~= one {
            assert forall|i: int| 0 <= i < 15 implies #[trigger] bytes[i] == 0 by {
                assert(bytes[i] == one[i]);
            }
            assert(bytes[15] == one[15]);
        }
    }
}

/// A host names this machine if and only if it is `localhost`, spelled so, or is an address of
/// the loopback range.
pub proof fn localhost_or_loopback(host: Seq<char>)
    ensures
        loops(host) <==> host == "localhost"@ || (address_bytes(host) is Some
            && is_loopback_address(address_bytes(host)->0)),
{
}

/// An address is written in digits, the letters from `a` to `f`, dots and colons alone.
pub proof fn addresses_have_few_characters(text: Seq<char>, i: int)
    requires
        could_be_address(text),
        0 <= i < text.len(),
    ensures
        ({
            let code = text[i] as int;
            48 <= code <= 57 || 97 <= code <= 102 || 65 <= code <= 70 || code == 46 || code == 58
        }),
{
    assert(in_address(text[i]));
}

/// A host is on a list if and only if one of the list names it, whatever port stands behind
/// that one, and whatever the case of the letters.
pub proof fn lists_name_hosts(host: Seq<char>, allowed: Seq<Seq<char>>, i: int)
    ensures
        0 <= i < allowed.len() && lowered(without_port(trimmed(allowed[i]))) == lowered(host)
            ==> listed(host, allowed),
        listed(host, allowed) ==> exists|k: int|
            0 <= k < allowed.len() && lowered(without_port(trimmed(#[trigger] allowed[k])))
                == lowered(host),
{
    if 0 <= i < allowed.len() && lowered(without_port(trimmed(allowed[i]))) == lowered(host) {
        assert(lowered(named_host(allowed[i])) == lowered(host));
    }
    if listed(host, allowed) {
        let k = choose|k: int|
            0 <= k < allowed.len() && lowered(named_host(#[trigger] allowed[k])) == lowered(host);
        assert(lowered(without_port(trimmed(allowed[k]))) == lowered(host));
    }
}

/// What a remote fleet listener answers: with `GET` the advertisement alone, with `POST` the
/// routes of pairing, joining and jobs, and with any other method nothing.
pub proof fn fleets_answer_few_routes(method: Seq<char>, path: Seq<char>)
    ensures
        method == "GET"@ ==> (fleet_route(method, path) <==> path
            == "/api/v1/discovery/advertisement"@),
        method == "POST"@ ==> (fleet_route(method, path) <==> path == "/api/v1/fleet/enroll"@
            || path == "/api/v1/fleet/pairing-requests"@ || path == "/api/v1/fleet/challenges"@
            || path == "/api/v1/fleet/reconnect"@ || path == "/api/v1/fleet/jobs/claim"@ || path
            == "/api/v1/fleet/jobs/complete"@ || ("/api/v1/fleet/pairing-requests/"@.is_prefix_of(
            path,
        ) && "/claim"@.is_suffix_of(path))),
        method != "GET"@ && method != "POST"@ ==> !fleet_route(method, path),
{
    reveal_strlit("GET");
    reveal_strlit("POST");
    assert("GET"@.len() == 3);
    assert("POST"@.len() == 4);
}

/// A socket of the owner refuses nobody for where the request comes from; a TCP listener
/// refuses a host that is neither this machine nor listed, an origin that is there and is
/// neither, and on a fleet listener every route that is not the fleet's, in this order. Then
/// a body beyond the limit is refused on either.
pub proof fn guards_refuse_strangers(
    guard: HostGuard,
    method: Seq<char>,
    path: Seq<char>,
    headers: HeadersView,
    max_body_bytes: Option<usize>,
)
    ensures
        ({
            let refusal = refusal_of(guard, method, path, headers, max_body_bytes);
            let too_long = max_body_bytes matches Some(max) && headers.content_length > max;
            let last = if too_long {
                Some(Refusal::BodyTooLarge(max_body_bytes->0 as nat))
            } else {
                None
            };
            match guard {
                HostGuard::Disabled => refusal == last && authority_of(guard)
                    == RequestAuthority::OwnerLocalIpc,
                HostGuard::Loopback { allowed_hosts, fleet_remote_only } => {
                    let allowed = views(allowed_hosts@);
                    let known = |host: Seq<char>| loops(host) || listed(host, allowed);
                    let host_ok = headers.host matches Some(host) && known(
                        without_port(trimmed(host)),
                    );
                    let origin_ok = headers.origin is None || (origin_host(headers.origin->0)
                        matches Some(host) && known(host));
                    let route_ok = !fleet_remote_only || fleet_route(method, path);
                    &&& !host_ok ==> refusal == Some(Refusal::ForeignHost)
                    &&& host_ok && !origin_ok ==> refusal == Some(Refusal::CrossOrigin)
                    &&& host_ok && origin_ok && !route_ok ==> refusal == Some(
                        Refusal::NotAFleetRoute,
                    )
                    &&& host_ok && origin_ok && route_ok ==> refusal == last
                    &&& authority_of(guard) == RequestAuthority::Tcp
                },
            }
        }),
{
}

/// A response names its status and the type and the length of its body in bytes, closes the
/// connection, and ends with the body as it is.
pub proof fn responses_announce_their_body(
    status_line: Seq<char>,
    content_type: Seq<char>,
    body: Seq<char>,
)
    ensures
        response_text(status_line, content_type, body) == "HTTP/1.1 "@ + status_line
            + "\r\nContent-Type: "@ + content_type + "\r\nContent-Length: "@ + decimal(
            encode_utf8(body).len(),
        ) + "\r\nConnection: close\r\n\r\n"@ + body,
        body.is_suffix_of(response_text(status_line, content_type, body)),
{
    let whole = response_text(status_line, content_type, body);
    assert(whole.subrange(whole.len() - body.len(), whole.len() as int) =~= body);
}

/// A refusal says why: in the form of an error with a code and a message, in JSON.
pub proof fn refusals_say_why(reason: Seq<char>, max: nat)
    ensures
        forbidden(reason) == response_text(
            "403 Forbidden"@,
            "application/json"@,
            "{\"ok\":false,\"error\":{\"code\":\"forbidden\",\"message\":\""@ + reason + "\"}}"@,
        ),
        too_large(max) == response_text(
            "413 Payload Too Large"@,
            "application/json"@,
            "{\"ok\":false,\"error\":{\"code\":\"payload_too_large\",\"message\":\"Request body exceeds "@
                + decimal(max) + "-byte limit.\"}}"@,
        ),
        refusal_text(Refusal::ForeignHost) == forbidden(
            "Host header must be a loopback or allowed address."@,
        ),
        refusal_text(Refusal::CrossOrigin) == forbidden("Cross-origin requests are not allowed."@),
        refusal_text(Refusal::NotAFleetRoute) == forbidden(
            "This Fleet listener exposes only remote pairing and discovery routes."@,
        ),
        refusal_text(Refusal::BodyTooLarge(max)) == too_large(max),
{
}

/// A failure of the handler is answered with 500, and with its message in the form of an
/// error.
pub proof fn failures_are_answered(message: Seq<char>)
    ensures
        exists|body: Json|
            {
                &&& internal_error(message) == response_text(
                    "500 Internal Server Error"@,
                    "application/json"@,
                    #[trigger] json_encoding(body),
                )
                &&& field_of(body, "ok"@) == Some(Json::Bool(false))
                &&& field_of(body, "error"@) matches Some(error) && field_of(error, "code"@)
                    == Some(Json::Text("internal_error"@)) && field_of(error, "message"@) == Some(
                    Json::Text(message),
                )
            },
{
    reveal_strlit("ok");
    reveal_strlit("error");
    reveal_strlit("code");
    reveal_strlit("message");
    assert("ok"@.len() == 2);
    assert("error"@.len() == 5);
    assert("code"@.len() == 4);
    assert("message"@.len() == 7);
    let body = internal_error_model(message);
    assert(internal_error(message) == response_text(
        "500 Internal Server Error"@,
        "application/json"@,
        json_encoding(body),
    ));
}

/// A request that is refused is answered with its refusal and nothing of it is read; any other
/// is served with its own method and path, the length that it announced, and the authority of
/// where it came in.
pub proof fn plans_follow_refusals(
    plan: RequestPlan,
    guard: HostGuard,
    method: Seq<char>,
    path: Seq<char>,
    headers: HeadersView,
    max_body_bytes: Option<usize>,
)
    requires
        plan_is(plan, guard, method, path, headers, max_body_bytes),
    ensures
        ({
            let refusal = refusal_of(guard, method, path, headers, max_body_bytes);
            &&& plan is Refuse <==> refusal is Some
            &&& plan matches RequestPlan::Refuse(answer) ==> answer@ == refusal_text(refusal->0)
            &&& plan matches RequestPlan::Serve {
                method: served,
                path: at,
                content_length,
                authority,
            } ==> served@ == method && at@ == path && content_length == headers.content_length
                && (authority == RequestAuthority::OwnerLocalIpc <==> guard is Disabled)
        }),
{
}

/// A request line names its method first and its path second; with less there is no request.
pub proof fn request_lines_name_method_and_path(
    line: &str,
    parsed: Result<(String, String), Fault>,
)
    requires
        call_ensures(parse_request_line, (line,), parsed),
    ensures
        parsed is Ok <==> words(line@).len() >= 2,
        parsed matches Ok(parts) ==> parts.0@ == words(line@)[0] && parts.1@ == words(line@)[1],
        words(line@).len() == 0 ==> (parsed matches Err(fault) && fault@ == plain(
            "missing HTTP method"@,
        )),
        words(line@).len() == 1 ==> (parsed matches Err(fault) && fault@ == plain(
            "missing HTTP path"@,
        )),
{
}

/// A body is the text of its bytes; no bytes are no body, and what is no UTF-8 is refused.
pub proof fn bodies_are_their_bytes(bytes: Vec<u8>, body: Result<Option<String>, Fault>)
    requires
        call_ensures(read_http_body, (bytes,), body),
    ensures
        bytes@.len() == 0 <==> body == Ok::<Option<String>, Fault>(None),
        body matches Ok(Some(text)) ==> encode_utf8(text@) == bytes@,
        body matches Err(fault) ==> !valid_utf8(bytes@) && fault@ == caused(
            "API request body was not valid UTF-8"@,
            utf8_complaint(bytes@),
        ),
{
}

/// What comes of the head of a request: an empty one is refused first, then headers that are
/// not in order, then a request line that is not; else the guard decides.
pub proof fn heads_are_handled_in_order(
    request_line: &str,
    header_lines: &[String],
    guard: &HostGuard,
    max_body_bytes: Option<usize>,
    outcome: Result<RequestPlan, Fault>,
)
    requires
        call_ensures(
            handle_http_stream,
            (request_line, header_lines, guard, max_body_bytes),
            outcome,
        ),
    ensures
        ({
            let headers = headers_after(no_headers(), views(header_lines@));
            let parts = words(request_line@);
            &&& outcome is Ok <==> request_line@.len() > 0 && headers is Ok && parts.len() >= 2
            &&& outcome matches Ok(plan) ==> plan_is(
                plan,
                *guard,
                parts[0],
                parts[1],
                headers->Ok_0,
                max_body_bytes,
            )
            &&& request_line@.len() == 0 ==> (outcome matches Err(fault) && fault@ == plain(
                "empty API request"@,
            ))
            &&& request_line@.len() > 0 ==> (headers matches Err(wrong) ==> (outcome matches Err(
                fault,
            ) && fault@ == wrong))
        }),
{
}

/// A response that was handled begins with its status and the reason for it.
pub proof fn responses_begin_with_their_status(
    status: u16,
    content_type: &str,
    body: &str,
    out: String,
)
    requires
        call_ensures(render_response, (status, content_type, body), out),
    ensures
        out@ == "HTTP/1.1 "@ + (decimal(status as nat) + " "@ + reason_phrase(status))
            + "\r\nContent-Type: "@ + content_type@ + "\r\nContent-Length: "@ + decimal(
            encode_utf8(body@).len(),
        ) + "\r\nConnection: close\r\n\r\n"@ + body@,
{
}

/// A request without a host is not of this machine and not listed; one with a host is by that
/// host alone, and an origin by its own.
pub proof fn hosts_and_origins_are_looked_up(
    host: Option<&str>,
    origin: &str,
    allowed: &[String],
    host_listed: bool,
    host_loops: bool,
    origin_listed: bool,
    origin_loops: bool,
)
    requires
        call_ensures(host_in_allowlist, (host, allowed), host_listed),
        call_ensures(host_is_loopback, (host,), host_loops),
        call_ensures(origin_in_allowlist, (origin, allowed), origin_listed),
        call_ensures(origin_is_loopback, (origin,), origin_loops),
    ensures
        host is None ==> !host_listed && !host_loops,
        host matches Some(text) ==> (host_listed <==> listed(
            without_port(trimmed(text@)),
            views(allowed@),
        )) && (host_loops <==> loops(without_port(trimmed(text@)))),
        origin_host(origin@) is None ==> !origin_listed && !origin_loops,
        origin_host(origin@) matches Some(named) ==> (origin_listed <==> listed(
            named,
            views(allowed@),
        )) && (origin_loops <==> loops(named)),
{
}

/// Headers show what they say, each under its own name; a plan is made of the request itself.
pub proof fn headers_show_what_they_say(
    headers: ParsedHeaders,
    guard: &HostGuard,
    method: &str,
    path: &str,
    parsed: &ParsedHeaders,
    max_body_bytes: Option<usize>,
    plan: RequestPlan,
)
    requires
        call_ensures(plan_request, (guard, method, path, parsed, max_body_bytes), plan),
    ensures
        headers@.content_length == headers.content_length,
        headers.host matches Some(host) ==> headers@.host == Some(host@),
        headers.host is None ==> headers@.host is None,
        headers.origin matches Some(origin) ==> headers@.origin == Some(origin@),
        headers.origin is None ==> headers@.origin is None,
        plan_is(plan, *guard, method@, path@, parsed@, max_body_bytes),
{
}

} // verus!
