//! HTTP/1.x request and response heads.
use crate::text;
use crate::text::{debug_str, parse_unsigned, trim_str, u64_text, utf8_lossy, utf8_str};
use vstd::prelude::*;
use vstd::utf8::*;

verus! {

/// What the `Connection` header asks for.
#[derive(Clone, Copy, Debug, PartialEq, Eq, Structural)]
pub enum ConnectionType {
    /// `Connection: keep-alive`.
    KeepAlive,
    /// `Connection: close`.
    Close,
    /// No such header: the HTTP version decides.
    Default,
}

/// Which headers to look for.
#[derive(Clone, Copy, Debug, PartialEq, Eq, Structural)]
pub enum ParserType {
    /// Those of a request: Host and Connection.
    Request,
    /// Those of a response: Content-Length and Connection.
    Response,
}

/// The headers that were looked for.
#[derive(Clone, Debug)]
pub struct HeaderInfo<'a> {
    /// The Host header of a request, as it was sent.
    pub host: Option<&'a [u8]>,
    pub connection_type: ConnectionType,
    /// The Content-Length header of a response.
    pub content_length: Option<usize>,
}

/// A response head.
#[derive(Clone, Copy, Debug, PartialEq, Eq, Structural)]
pub struct HttpResponseInfo {
    pub status_code: u16,
    pub connection_type: ConnectionType,
    pub content_length: Option<usize>,
    /// Whether all of the response is there.
    pub is_complete: bool,
}

/// What is wrong with a request or response.
#[derive(Clone, Copy, Debug, PartialEq, Eq, Structural)]
pub enum ParseError {
    RequestTooShort,
    NoSpaceAfterMethod,
    NoSpaceAfterPath,
    MissingHttpVersion,
    MalformedHttpVersion,
    MissingCrlf,
    /// The length of the response.
    ResponseTooShort(usize),
    /// The length of what was to be a status line.
    StatusLineTooShort(usize),
    InvalidVersionPrefix,
    NoSpaceAfterVersion,
    /// How many bytes follow the space.
    StatusCodeTooShort(usize),
    /// The bytes in place of the digits.
    InvalidStatusCode(u8, u8, u8),
}

impl ParseError {
    /// The message of the error.
    pub open spec fn text(self) -> Seq<char> {
        match self {
            ParseError::RequestTooShort => "Request too short"@,
            ParseError::NoSpaceAfterMethod => "Invalid request line: no space after method"@,
            ParseError::NoSpaceAfterPath => "Invalid request line: no space after path"@,
            ParseError::MissingHttpVersion => "Invalid request line: missing HTTP version"@,
            ParseError::MalformedHttpVersion => "Invalid request line: malformed HTTP version"@,
            ParseError::MissingCrlf => "Invalid request line: missing CRLF"@,
            ParseError::ResponseTooShort(n) => "Response too short: "@ + text::decimal(n as nat)
                + " bytes"@,
            ParseError::StatusLineTooShort(n) =>
                "Failed to parse status line: Status line too short: "@ + text::decimal(n as nat)
                + " bytes"@,
            ParseError::InvalidVersionPrefix =>
                "Failed to parse status line: Invalid HTTP version prefix"@,
            ParseError::NoSpaceAfterVersion =>
                "Failed to parse status line: No space found after HTTP version"@,
            ParseError::StatusCodeTooShort(n) =>
                "Failed to parse status line: Status code section too short: "@ + text::decimal(
                n as nat,
            ) + " bytes remaining"@,
            ParseError::InvalidStatusCode(a, b, c) =>
                "Failed to parse status line: Invalid status code characters: ["@ + text::decimal(
                a as nat,
            ) + ", "@ + text::decimal(b as nat) + ", "@ + text::decimal(c as nat) + "]"@,
        }
    }

    /// The message of the error.
    pub fn message(&self) -> (r: String)
        ensures
            r@ == self.text(),
    {
        match *self {
            ParseError::RequestTooShort => "Request too short".to_owned(),
            ParseError::NoSpaceAfterMethod =>
                "Invalid request line: no space after method".to_owned(),
            ParseError::NoSpaceAfterPath => "Invalid request line: no space after path".to_owned(),
            ParseError::MissingHttpVersion =>
                "Invalid request line: missing HTTP version".to_owned(),
            ParseError::MalformedHttpVersion =>
                "Invalid request line: malformed HTTP version".to_owned(),
            ParseError::MissingCrlf => "Invalid request line: missing CRLF".to_owned(),
            ParseError::ResponseTooShort(n) => {
                let mut s = "Response too short: ".to_owned();
                s.append(u64_text(n as u64).as_str());
                s.append(" bytes");
                s
            },
            ParseError::StatusLineTooShort(n) => {
                let mut s = "Failed to parse status line: Status line too short: ".to_owned();
                s.append(u64_text(n as u64).as_str());
                s.append(" bytes");
                s
            },
            ParseError::InvalidVersionPrefix =>
                "Failed to parse status line: Invalid HTTP version prefix".to_owned(),
            ParseError::NoSpaceAfterVersion =>
                "Failed to parse status line: No space found after HTTP version".to_owned(),
            ParseError::StatusCodeTooShort(n) => {
                let mut s =
                    "Failed to parse status line: Status code section too short: ".to_owned();
                s.append(u64_text(n as u64).as_str());
                s.append(" bytes remaining");
                s
            },
            ParseError::InvalidStatusCode(a, b, c) => {
                let mut s =
                    "Failed to parse status line: Invalid status code characters: [".to_owned();
                s.append(u64_text(a as u64).as_str());
                s.append(", ");
                s.append(u64_text(b as u64).as_str());
                s.append(", ");
                s.append(u64_text(c as u64).as_str());
                s.append("]");
                s
            },
        }
    }
}

// ---------------------------------------------------------------------------
// Bytes
// ---------------------------------------------------------------------------

/// The byte with an upper case ASCII letter made lower case.
pub open spec fn lower(b: u8) -> u8 {
    if 65 <= b <= 90 {
        (b + 32) as u8
    } else {
        b
    }
}

/// Whether `name`, given in lower case, stands at `pos`, upper and lower case
/// being the same.
pub open spec fn stands_at(h: Seq<u8>, pos: int, name: Seq<u8>) -> bool {
    &&& 0 <= pos
    &&& pos + name.len() <= h.len()
    &&& forall|i: int| 0 <= i < name.len() ==> lower(#[trigger] h[pos + i]) == name[i]
}

/// Whether a line end stands at `i`.
pub open spec fn crlf_at(h: Seq<u8>, i: int) -> bool {
    0 <= i && i + 1 < h.len() && h[i] == 13 && h[i + 1] == 10
}

/// The first line end at or behind `pos`; the length where there is none.
pub open spec fn next_crlf(h: Seq<u8>, pos: int) -> int
    decreases h.len() - pos,
{
    if pos >= h.len() {
        h.len() as int
    } else if crlf_at(h, pos) {
        pos
    } else {
        next_crlf(h, pos + 1)
    }
}

/// The first `b` at or behind `pos`; the length where there is none.
pub open spec fn next_byte(h: Seq<u8>, pos: int, b: u8) -> int
    decreases h.len() - pos,
{
    if pos >= h.len() {
        h.len() as int
    } else if h[pos] == b {
        pos
    } else {
        next_byte(h, pos + 1, b)
    }
}

/// Whether a byte is a space or a tab.
pub open spec fn blank(b: u8) -> bool {
    b == 32 || b == 9
}

/// The first position at or behind `pos` without a blank.
pub open spec fn skip_blank(h: Seq<u8>, pos: int) -> int
    decreases h.len() - pos,
{
    if pos < h.len() && blank(h[pos]) {
        skip_blank(h, pos + 1)
    } else {
        pos
    }
}

/// The end of what is left of `from` to `to` without blanks at its end.
pub open spec fn trim_blank(h: Seq<u8>, from: int, to: int) -> int
    decreases to - from,
{
    if to > from && blank(h[to - 1]) {
        trim_blank(h, from, to - 1)
    } else {
        to
    }
}

/// Where the value of a header that starts at `from` ends: at its line end. A
/// last line without a line end leaves out its last byte.
pub open spec fn value_limit(h: Seq<u8>, from: int) -> int {
    if next_crlf(h, from) < h.len() {
        next_crlf(h, from)
    } else if from < h.len() {
        h.len() - 1
    } else {
        from
    }
}

/// The value of a header whose name ends before `pos`, without blanks around
/// it.
pub open spec fn header_value(h: Seq<u8>, pos: int) -> Seq<u8> {
    let from = skip_blank(h, pos);
    h.subrange(from, trim_blank(h, from, value_limit(h, from)))
}

/// A header name with its colon.
pub open spec fn host_name() -> Seq<u8> {
    encode_utf8("host:"@)
}

/// A header name with its colon.
pub open spec fn length_name() -> Seq<u8> {
    encode_utf8("content-length:"@)
}

/// A header name with its colon.
pub open spec fn connection_name() -> Seq<u8> {
    encode_utf8("connection:"@)
}

/// What a `Connection` value asks for, by how it starts.
pub open spec fn connection_of(value: Seq<u8>) -> ConnectionType {
    if stands_at(value, 0, encode_utf8("keep-alive"@)) {
        ConnectionType::KeepAlive
    } else if stands_at(value, 0, encode_utf8("close"@)) {
        ConnectionType::Close
    } else {
        ConnectionType::Default
    }
}

/// The number that a `Content-Length` value gives, if it gives one that fits.
pub open spec fn length_of(value: Seq<u8>) -> Option<usize> {
    if valid_utf8(value) {
        match text::unsigned_value(text::trimmed(decode_utf8(value))) {
            Some(n) => if n <= usize::MAX {
                Some(n as usize)
            } else {
                None
            },
            None => None,
        }
    } else {
        None
    }
}

// ---------------------------------------------------------------------------
// Headers
// ---------------------------------------------------------------------------

/// The headers found so far.
pub struct Found {
    pub host: Option<Seq<u8>>,
    pub connection: ConnectionType,
    pub length: Option<usize>,
}

impl Found {
    /// Nothing found.
    pub open spec fn none() -> Found {
        Found { host: None, connection: ConnectionType::Default, length: None }
    }

    /// Whether everything that was looked for is found.
    pub open spec fn complete(self, t: ParserType) -> bool {
        self.connection != ConnectionType::Default && match t {
            ParserType::Request => self.host is Some,
            ParserType::Response => self.length is Some,
        }
    }

    /// What is found after the line at `pos`. The first value of a header
    /// counts, as far as it says anything.
    pub open spec fn after_line(self, h: Seq<u8>, pos: int, t: ParserType) -> Found {
        if t == ParserType::Request && self.host is None && stands_at(h, pos, host_name()) {
            let value = header_value(h, pos + host_name().len());
            if value.len() > 0 {
                Found { host: Some(value), ..self }
            } else {
                self
            }
        } else if t == ParserType::Response && self.length is None && stands_at(
            h,
            pos,
            length_name(),
        ) {
            let value = header_value(h, pos + length_name().len());
            if value.len() > 0 {
                Found { length: length_of(value), ..self }
            } else {
                self
            }
        } else if self.connection == ConnectionType::Default && stands_at(
            h,
            pos,
            connection_name(),
        ) {
            Found {
                connection: connection_of(header_value(h, pos + connection_name().len())),
                ..self
            }
        } else {
            self
        }
    }
}

/// What is found from the line at `pos` on: line by line, until everything is
/// found, an empty line ends the headers, or no line is left.
pub open spec fn scan(h: Seq<u8>, pos: int, t: ParserType, found: Found) -> Found
    decreases h.len() - pos,
{
    if pos >= h.len() || crlf_at(h, pos) {
        found
    } else {
        let f = found.after_line(h, pos, t);
        let end = next_crlf(h, pos);
        if end >= h.len() || f.complete(t) {
            f
        } else {
            proof {
                lemma_next_crlf_bounds(h, pos);
            }
            scan(h, end + 2, t, f)
        }
    }
}

/// What is found in a header section.
pub open spec fn headers_found(h: Seq<u8>, t: ParserType) -> Found {
    scan(h, 0, t, Found::none())
}

/// A line end found lies within the bytes.
pub proof fn lemma_next_crlf_bounds(h: Seq<u8>, pos: int)
    ensures
        pos <= h.len() ==> pos <= next_crlf(h, pos) <= h.len(),
        next_crlf(h, pos) < h.len() ==> next_crlf(h, pos) + 1 < h.len(),
    decreases h.len() - pos,
{
    if pos < h.len() && !crlf_at(h, pos) {
        lemma_next_crlf_bounds(h, pos + 1);
    }
}

proof fn lemma_next_crlf(h: Seq<u8>, pos: int, k: int)
    requires
        0 <= pos <= k <= h.len(),
        forall|i: int| pos <= i < k ==> !crlf_at(h, i),
        k < h.len() ==> crlf_at(h, k),
    ensures
        next_crlf(h, pos) == k,
    decreases k - pos,
{
    if pos < k {
        assert(!crlf_at(h, pos));
        lemma_next_crlf(h, pos + 1, k);
    }
}

/// The first line end at or behind `pos`; the length where there is none.
fn find_crlf(h: &[u8], pos: usize) -> (r: usize)
    requires
        pos <= h@.len(),
    ensures
        r == next_crlf(h@, pos as int),
        pos <= r <= h@.len(),
        r < h@.len() ==> r + 1 < h@.len(),
{
    let n: usize = h.len();
    let mut i: usize = pos;
    while i < n && !(n - i >= 2 && h[i] == 13 && h[i + 1] == 10)
        invariant
            pos <= i <= n == h@.len(),
            forall|j: int| pos <= j < i ==> !crlf_at(h@, j),
        decreases n - i,
    {
        assert(!crlf_at(h@, i as int));
        i += 1;
    }
    proof {
        lemma_next_crlf(h@, pos as int, i as int);
    }
    i
}

/// The bounds of the value of a header whose name ends before `pos`.
fn value_bounds(h: &[u8], pos: usize) -> (r: (usize, usize))
    requires
        pos <= h@.len(),
    ensures
        r.0 <= r.1 <= h@.len(),
        h@.subrange(r.0 as int, r.1 as int) == header_value(h@, pos as int),
{
    let n: usize = h.len();
    let mut from: usize = pos;
    while from < n && (h[from] == 32 || h[from] == 9)
        invariant
            pos <= from <= n == h@.len(),
            skip_blank(h@, pos as int) == skip_blank(h@, from as int),
        decreases n - from,
    {
        from += 1;
    }
    let end = find_crlf(h, from);
    let limit: usize = if end < n {
        end
    } else if from < n {
        n - 1
    } else {
        from
    };
    let mut to: usize = limit;
    while to > from && (h[to - 1] == 32 || h[to - 1] == 9)
        invariant
            from <= to <= limit <= n == h@.len(),
            trim_blank(h@, from as int, limit as int) == trim_blank(h@, from as int, to as int),
        decreases to,
    {
        to -= 1;
    }
    (from, to)
}

/// Whether `name`, given in lower case, stands at `pos`.
fn name_at(h: &[u8], pos: usize, name: &str) -> (r: bool)
    requires
        pos <= h@.len(),
    ensures
        r == stands_at(h@, pos as int, encode_utf8(name@)),
{
    let b = name.as_bytes();
    let n: usize = h.len();
    if n - pos < b.len() {
        return false;
    }
    let mut i: usize = 0;
    while i < b.len()
        invariant
            i <= b@.len(),
            b@ == encode_utf8(name@),
            n == h@.len(),
            pos + b@.len() <= n,
            forall|j: int| 0 <= j < i ==> lower(#[trigger] h@[pos + j]) == b@[j],
        decreases b.len() - i,
    {
        let c = h[pos + i];
        let l: u8 = if 65 <= c && c <= 90 {
            c + 32
        } else {
            c
        };
        if l != b[i] {
            assert(lower(h@[pos + i]) != b@[i as int]);
            return false;
        }
        i += 1;
    }
    true
}

fn connection_type_of(value: &[u8]) -> (r: ConnectionType)
    ensures
        r == connection_of(value@),
{
    if name_at(value, 0, "keep-alive") {
        ConnectionType::KeepAlive
    } else if name_at(value, 0, "close") {
        ConnectionType::Close
    } else {
        ConnectionType::Default
    }
}

fn content_length_of(value: &[u8]) -> (r: Option<usize>)
    ensures
        r == length_of(value@),
{
    match utf8_str(value) {
        Some(s) => match parse_unsigned(trim_str(s), usize::MAX as u64) {
            Some(n) => Some(n as usize),
            None => None,
        },
        None => None,
    }
}

/// An empty `Connection` value asks for nothing.
proof fn lemma_empty_connection(value: Seq<u8>)
    requires
        value.len() == 0,
    ensures
        connection_of(value) == ConnectionType::Default,
{
    reveal_strlit("keep-alive");
    reveal_strlit("close");
    is_ascii_chars_encode_utf8("keep-alive"@);
    is_ascii_chars_encode_utf8("close"@);
}

/// The headers of a section that a parser of type `parser_type` looks for, up to
/// the empty line that ends it; what stands behind that line is no header.
/// There is no section that it fails on.
pub fn extract_headers<'a>(headers: &'a [u8], parser_type: ParserType) -> (r: Result<
    HeaderInfo<'a>,
    ParseError,
>)
    ensures
        r matches Ok(info) && {
            let f = headers_found(headers@, parser_type);
            &&& info.connection_type == f.connection
            &&& info.content_length == f.length
            &&& match info.host {
                Some(value) => f.host == Some(value@),
                None => f.host is None,
            }
        },
{
    let n: usize = headers.len();
    let ghost h = headers@;
    let ghost t = parser_type;
    let ghost want = headers_found(h, t);
    let mut host: Option<(usize, usize)> = None;
    let mut connection_type = ConnectionType::Default;
    let mut content_length: Option<usize> = None;
    let mut pos: usize = 0;
    let mut more = true;
    proof {
        assert(want == scan(h, 0, t, Found::none()));
    }
    while more && pos < n
        invariant
            n == h.len(),
            h == headers@,
            t == parser_type,
            pos <= n,
            match host {
                Some(b) => b.0 <= b.1 <= n,
                None => true,
            },
            more ==> want == scan(
                h,
                pos as int,
                t,
                Found {
                    host: match host {
                        Some(b) => Some(h.subrange(b.0 as int, b.1 as int)),
                        None => None,
                    },
                    connection: connection_type,
                    length: content_length,
                },
            ),
            !more ==> want == (Found {
                host: match host {
                    Some(b) => Some(h.subrange(b.0 as int, b.1 as int)),
                    None => None,
                },
                connection: connection_type,
                length: content_length,
            }),
        decreases (if more { 1int } else { 0int }) + n - pos,
    {
        if n - pos >= 2 && headers[pos] == 13 && headers[pos + 1] == 10 {
            more = false;
        } else {
            assert(!crlf_at(h, pos as int));
            let ghost before = Found {
                host: match host {
                    Some(b) => Some(h.subrange(b.0 as int, b.1 as int)),
                    None => None,
                },
                connection: connection_type,
                length: content_length,
            };
            proof {
                reveal_strlit("host:");
                reveal_strlit("content-length:");
                reveal_strlit("connection:");
                is_ascii_chars_encode_utf8("host:"@);
                is_ascii_chars_encode_utf8("content-length:"@);
                is_ascii_chars_encode_utf8("connection:"@);
            }
            if parser_type == ParserType::Request && host.is_none() && name_at(
                headers,
                pos,
                "host:",
            ) {
                let (from, to) = value_bounds(headers, pos + 5);
                if from < to {
                    host = Some((from, to));
                }
            } else if parser_type == ParserType::Response && content_length.is_none() && name_at(
                headers,
                pos,
                "content-length:",
            ) {
                let (from, to) = value_bounds(headers, pos + 15);
                if from < to {
                    content_length = content_length_of(vstd::slice::slice_subrange(headers, from, to));
                }
            } else if connection_type == ConnectionType::Default && name_at(
                headers,
                pos,
                "connection:",
            ) {
                let (from, to) = value_bounds(headers, pos + 11);
                if from < to {
                    connection_type = connection_type_of(vstd::slice::slice_subrange(headers, from, to));
                } else {
                    proof {
                        lemma_empty_connection(h.subrange(from as int, to as int));
                    }
                }
            }
            let ghost after = Found {
                host: match host {
                    Some(b) => Some(h.subrange(b.0 as int, b.1 as int)),
                    None => None,
                },
                connection: connection_type,
                length: content_length,
            };
            assert(after == before.after_line(h, pos as int, t));
            let complete = connection_type != ConnectionType::Default && (match parser_type {
                ParserType::Request => host.is_some(),
                ParserType::Response => content_length.is_some(),
            });
            let end = find_crlf(headers, pos);
            if end >= n || complete {
                more = false;
            } else {
                pos = end + 2;
            }
        }
    }
    let host_value: Option<&'a [u8]> = match host {
        Some((from, to)) => Some(vstd::slice::slice_subrange(headers, from, to)),
        None => None,
    };
    Ok(HeaderInfo { host: host_value, connection_type, content_length })
}

// ---------------------------------------------------------------------------
// Requests
// ---------------------------------------------------------------------------

/// A request head in bytes: the method, the path and what the headers say.
pub struct RequestHead {
    pub method: Seq<u8>,
    pub path: Seq<u8>,
    pub host: Option<Seq<u8>>,
    pub connection: ConnectionType,
}

/// The head of a request: method, path and version with a space between them,
/// the version ending at the first carriage return, then the headers.
pub open spec fn request_head(r: Seq<u8>) -> Result<RequestHead, ParseError> {
    let method_end = next_byte(r, 0, 32);
    let path_end = next_byte(r, method_end + 1, 32);
    let version_end = next_byte(r, path_end + 1, 13);
    if r.len() < 16 {
        Err(ParseError::RequestTooShort)
    } else if method_end >= r.len() {
        Err(ParseError::NoSpaceAfterMethod)
    } else if path_end >= r.len() {
        Err(ParseError::NoSpaceAfterPath)
    } else if version_end == path_end + 1 {
        Err(ParseError::MissingHttpVersion)
    } else if version_end - (path_end + 1) < 8 || !stands_at(
        r,
        path_end + 1,
        encode_utf8("http/"@),
    ) {
        Err(ParseError::MalformedHttpVersion)
    } else if !crlf_at(r, version_end) {
        Err(ParseError::MissingCrlf)
    } else {
        let found = headers_found(
            r.subrange(version_end + 2, r.len() as int),
            ParserType::Request,
        );
        Ok(
            RequestHead {
                method: r.subrange(0, method_end),
                path: r.subrange(method_end + 1, path_end),
                host: found.host,
                connection: found.connection,
            },
        )
    }
}

/// The first `b` at or behind `start`; the length where there is none.
fn find_byte(data: &[u8], start: usize, b: u8) -> (r: usize)
    requires
        start <= data@.len(),
    ensures
        r == next_byte(data@, start as int, b),
        start <= r <= data@.len(),
        r < data@.len() ==> data@[r as int] == b,
{
    let n: usize = data.len();
    let mut i: usize = start;
    while i < n && data[i] != b
        invariant
            start <= i <= n == data@.len(),
            next_byte(data@, start as int, b) == next_byte(data@, i as int, b),
        decreases n - i,
    {
        i += 1;
    }
    i
}

/// The method, path, host and connection preference of a request, the first
/// three as slices of it, byte for byte. Each error stands for the first thing
/// that is amiss from left to right.
pub fn parse_http_headers_fast(request: &[u8]) -> (r: Result<
    (&[u8], &[u8], Option<&[u8]>, ConnectionType),
    ParseError,
>)
    ensures
        match request_head(request@) {
            Err(e) => r == Err::<(&[u8], &[u8], Option<&[u8]>, ConnectionType), ParseError>(e),
            Ok(head) => r matches Ok(t) && {
                &&& t.0@ == head.method
                &&& t.1@ == head.path
                &&& match t.2 {
                    Some(host) => head.host == Some(host@),
                    None => head.host is None,
                }
                &&& t.3 == head.connection
            },
        },
{
    let n: usize = request.len();
    if n < 16 {
        return Err(ParseError::RequestTooShort);
    }
    let method_end = find_byte(request, 0, 32);
    if method_end >= n {
        return Err(ParseError::NoSpaceAfterMethod);
    }
    let path_end = find_byte(request, method_end + 1, 32);
    if path_end >= n {
        return Err(ParseError::NoSpaceAfterPath);
    }
    let version_start: usize = path_end + 1;
    let version_end = find_byte(request, version_start, 13);
    if version_end == version_start {
        return Err(ParseError::MissingHttpVersion);
    }
    if version_end - version_start < 8 || !name_at(request, version_start, "http/") {
        return Err(ParseError::MalformedHttpVersion);
    }
    if !(n - version_end >= 2 && request[version_end + 1] == 10) {
        return Err(ParseError::MissingCrlf);
    }
    let method = vstd::slice::slice_subrange(request, 0, method_end);
    let path = vstd::slice::slice_subrange(request, method_end + 1, path_end);
    let headers = vstd::slice::slice_subrange(request, version_end + 2, n);
    let info = match extract_headers(headers, ParserType::Request) {
        Ok(info) => info,
        Err(e) => return Err(e),
    };
    Ok((method, path, info.host, info.connection_type))
}

// ---------------------------------------------------------------------------
// Responses
// ---------------------------------------------------------------------------

/// The status code of a response: three digits behind the first space. Fewer
/// than twelve bytes hold no status line.
pub open spec fn status_code(r: Seq<u8>) -> Result<u16, ParseError> {
    let space = next_byte(r, 0, 32);
    if r.len() < 12 {
        Err(ParseError::StatusLineTooShort(r.len() as usize))
    } else if !(r.subrange(0, 5) == encode_utf8("HTTP/"@)) {
        Err(ParseError::InvalidVersionPrefix)
    } else if space >= r.len() {
        Err(ParseError::NoSpaceAfterVersion)
    } else if space + 4 > r.len() {
        Err(ParseError::StatusCodeTooShort((r.len() - (space + 1)) as usize))
    } else {
        let (a, b, c) = (r[space + 1], r[space + 2], r[space + 3]);
        if 48 <= a <= 57 && 48 <= b <= 57 && 48 <= c <= 57 {
            Ok((100 * (a - 48) + 10 * (b - 48) + (c - 48)) as u16)
        } else {
            Err(ParseError::InvalidStatusCode(a, b, c))
        }
    }
}

/// Whether two line ends stand at `pos`.
pub open spec fn double_crlf_at(h: Seq<u8>, pos: int) -> bool {
    crlf_at(h, pos) && crlf_at(h, pos + 2)
}

/// Where the first two line ends in a row at or behind `pos` end; the length
/// where there are none.
pub open spec fn headers_end(h: Seq<u8>, pos: int) -> int
    decreases h.len() - pos,
{
    if pos >= h.len() {
        h.len() as int
    } else if double_crlf_at(h, pos) {
        pos + 4
    } else {
        headers_end(h, pos + 1)
    }
}

/// Where the headers of a response start: behind the first line end, or at its
/// end where there is none.
pub open spec fn headers_start(r: Seq<u8>) -> int {
    if next_crlf(r, 0) < r.len() {
        next_crlf(r, 0) + 2
    } else {
        r.len() as int
    }
}

/// What a response says. It is complete where as many bytes follow its headers
/// as it promises, or where it promises none.
pub open spec fn response_info(r: Seq<u8>) -> Result<HttpResponseInfo, ParseError> {
    if r.len() < 12 {
        Err(ParseError::ResponseTooShort(r.len() as usize))
    } else {
        match status_code(r) {
            Err(e) => Err(e),
            Ok(code) => if headers_start(r) >= r.len() {
                Ok(
                    HttpResponseInfo {
                        status_code: code,
                        connection_type: ConnectionType::Default,
                        content_length: None,
                        is_complete: true,
                    },
                )
            } else {
                let h = r.subrange(headers_start(r), r.len() as int);
                let found = headers_found(h, ParserType::Response);
                Ok(
                    HttpResponseInfo {
                        status_code: code,
                        connection_type: found.connection,
                        content_length: found.length,
                        is_complete: match found.length {
                            Some(n) => h.len() - headers_end(h, 0) >= n,
                            None => true,
                        },
                    },
                )
            },
        }
    }
}

/// The status code of a response.
pub fn parse_http_status_line(response: &[u8]) -> (r: Result<u16, ParseError>)
    ensures
        r == status_code(response@),
{
    proof {
        reveal_strlit("HTTP/");
        is_ascii_chars_encode_utf8("HTTP/"@);
    }
    let n: usize = response.len();
    if n < 12 {
        return Err(ParseError::StatusLineTooShort(n));
    }
    if !(response[0] == 72 && response[1] == 84 && response[2] == 84 && response[3] == 80
        && response[4] == 47) {
        proof {
            if response@.subrange(0, 5) == encode_utf8("HTTP/"@) {
                let e = encode_utf8("HTTP/"@);
                assert(e[0] == 72 && e[1] == 84 && e[2] == 84 && e[3] == 80 && e[4] == 47);
                assert(response@.subrange(0, 5)[0] == response@[0]);
                assert(response@.subrange(0, 5)[1] == response@[1]);
                assert(response@.subrange(0, 5)[2] == response@[2]);
                assert(response@.subrange(0, 5)[3] == response@[3]);
                assert(response@.subrange(0, 5)[4] == response@[4]);
            }
        }
        return Err(ParseError::InvalidVersionPrefix);
    }
    assert(response@.subrange(0, 5) =~= encode_utf8("HTTP/"@));
    let space = find_byte(response, 0, 32);
    if space >= n {
        return Err(ParseError::NoSpaceAfterVersion);
    }
    if n - space < 4 {
        return Err(ParseError::StatusCodeTooShort(n - (space + 1)));
    }
    let a = response[space + 1];
    let b = response[space + 2];
    let c = response[space + 3];
    if 48 <= a && a <= 57 && 48 <= b && b <= 57 && 48 <= c && c <= 57 {
        Ok(100 * (a as u16 - 48) + 10 * (b as u16 - 48) + (c as u16 - 48))
    } else {
        Err(ParseError::InvalidStatusCode(a, b, c))
    }
}

/// Where the headers end: behind the first two line ends in a row, or at the
/// end where there are none.
fn find_headers_end(headers: &[u8]) -> (r: usize)
    ensures
        r == headers_end(headers@, 0),
        r <= headers@.len(),
{
    let n: usize = headers.len();
    let mut i: usize = 0;
    while i < n
        invariant
            i <= n == headers@.len(),
            headers_end(headers@, 0) == headers_end(headers@, i as int),
        decreases n - i,
    {
        if n - i >= 4 && headers[i] == 13 && headers[i + 1] == 10 && headers[i + 2] == 13
            && headers[i + 3] == 10 {
            return i + 4;
        }
        i += 1;
    }
    n
}

/// The status code, connection preference and content length of a response,
/// and whether all of it is there.
pub fn parse_http_response_headers(response: &[u8]) -> (r: Result<HttpResponseInfo, ParseError>)
    ensures
        r == response_info(response@),
{
    let n: usize = response.len();
    if n < 12 {
        return Err(ParseError::ResponseTooShort(n));
    }
    let status_code = match parse_http_status_line(response) {
        Ok(code) => code,
        Err(e) => return Err(e),
    };
    let end = find_crlf(response, 0);
    let start: usize = if end < n {
        end + 2
    } else {
        n
    };
    if start >= n {
        return Ok(
            HttpResponseInfo {
                status_code,
                connection_type: ConnectionType::Default,
                content_length: None,
                is_complete: true,
            },
        );
    }
    let headers = vstd::slice::slice_subrange(response, start, n);
    let info = match extract_headers(headers, ParserType::Response) {
        Ok(info) => info,
        Err(e) => return Err(e),
    };
    let body: usize = headers.len() - find_headers_end(headers);
    let is_complete = match info.content_length {
        Some(length) => body >= length,
        None => true,
    };
    Ok(
        HttpResponseInfo {
            status_code,
            connection_type: info.connection_type,
            content_length: info.content_length,
            is_complete,
        },
    )
}

/// The message on a response that did not parse. Where its status line is at
/// fault, the first bytes of the response are shown.
pub fn response_error_message(error: &ParseError, response: &[u8]) -> (r: String)
    ensures
        r@ == match *error {
            ParseError::ResponseTooShort(n) => error.text(),
            _ => error.text() + " (preview: "@ + text::str_debug(
                text::lossy_text(
                    response@.take(
                        if response@.len() < 100 {
                            response@.len() as int
                        } else {
                            100
                        },
                    ),
                ),
            ) + ")"@,
        },
{
    let mut s = error.message();
    if let ParseError::ResponseTooShort(_) = *error {
        return s;
    }
    let shown: usize = if response.len() < 100 {
        response.len()
    } else {
        100
    };
    let head = vstd::slice::slice_subrange(response, 0, shown);
    assert(head@ =~= response@.take(shown as int));
    s.append(" (preview: ");
    s.append(debug_str(utf8_lossy(head).as_str()).as_str());
    s.append(")");
    s
}

// ---------------------------------------------------------------------------
// Laws
// ---------------------------------------------------------------------------

/// What has been found stays found: the lines that follow change no value that
/// is there.
pub proof fn law_first_value_counts(h: Seq<u8>, pos: int, t: ParserType, found: Found)
    requires
        0 <= pos,
    ensures
        found.host is Some ==> scan(h, pos, t, found).host == found.host,
        found.length is Some ==> scan(h, pos, t, found).length == found.length,
        found.connection != ConnectionType::Default ==> scan(h, pos, t, found).connection
            == found.connection,
    decreases h.len() - pos,
{
    if !(pos >= h.len() || crlf_at(h, pos)) {
        let f = found.after_line(h, pos, t);
        let end = next_crlf(h, pos);
        if !(end >= h.len() || f.complete(t)) {
            lemma_next_crlf_bounds(h, pos);
            law_first_value_counts(h, end + 2, t, f);
        }
    }
}

proof fn lemma_head_crlf(h: Seq<u8>, e: int, pos: int)
    requires
        0 <= pos <= e,
        crlf_at(h, e),
        e + 4 <= h.len(),
    ensures
        pos <= next_crlf(h, pos) <= e,
        crlf_at(h, next_crlf(h, pos)),
        next_crlf(h.take(e + 4), pos) == next_crlf(h, pos),
    decreases e - pos,
{
    assert(crlf_at(h.take(e + 4), pos) == crlf_at(h, pos));
    if !crlf_at(h, pos) {
        lemma_head_crlf(h, e, pos + 1);
    }
}

proof fn lemma_head_skip(h: Seq<u8>, e: int, pos: int)
    requires
        0 <= pos <= e,
        crlf_at(h, e),
        e + 4 <= h.len(),
    ensures
        pos <= skip_blank(h, pos) <= e,
        skip_blank(h.take(e + 4), pos) == skip_blank(h, pos),
    decreases e - pos,
{
    if blank(h[pos]) {
        lemma_head_skip(h, e, pos + 1);
    }
}

proof fn lemma_head_trim(h: Seq<u8>, e: int, from: int, to: int)
    requires
        0 <= from <= to <= e,
        e + 4 <= h.len(),
    ensures
        from <= trim_blank(h, from, to) <= to,
        trim_blank(h.take(e + 4), from, to) == trim_blank(h, from, to),
    decreases to - from,
{
    if to > from && blank(h[to - 1]) {
        lemma_head_trim(h, e, from, to - 1);
    }
}

proof fn lemma_head_value(h: Seq<u8>, e: int, pos: int)
    requires
        0 <= pos <= e,
        crlf_at(h, e),
        e + 4 <= h.len(),
    ensures
        header_value(h.take(e + 4), pos) == header_value(h, pos),
{
    lemma_head_skip(h, e, pos);
    let from = skip_blank(h, pos);
    lemma_head_crlf(h, e, from);
    lemma_head_trim(h, e, from, value_limit(h, from));
    let to = trim_blank(h, from, value_limit(h, from));
    assert(h.take(e + 4).subrange(from, to) =~= h.subrange(from, to));
}

/// A name without a carriage return that stands before the end of the headers
/// ends there too.
proof fn lemma_head_stands(h: Seq<u8>, e: int, pos: int, name: Seq<u8>)
    requires
        0 <= pos <= e,
        crlf_at(h, e),
        e + 4 <= h.len(),
        forall|i: int| 0 <= i < name.len() ==> #[trigger] name[i] != 13,
    ensures
        stands_at(h.take(e + 4), pos, name) == stands_at(h, pos, name),
        stands_at(h, pos, name) ==> pos + name.len() <= e,
{
    let g = h.take(e + 4);
    if stands_at(h, pos, name) {
        if pos + name.len() > e {
            assert(lower(h[pos + (e - pos)]) == name[e - pos]);
        }
        assert forall|i: int| 0 <= i < name.len() implies lower(#[trigger] g[pos + i])
            == name[i] by {
            assert(lower(h[pos + i]) == name[i]);
        }
    }
    if stands_at(g, pos, name) {
        assert forall|i: int| 0 <= i < name.len() implies lower(#[trigger] h[pos + i])
            == name[i] by {
            assert(lower(g[pos + i]) == name[i]);
        }
    }
}

proof fn lemma_head_scan(h: Seq<u8>, e: int, pos: int, t: ParserType, found: Found)
    requires
        0 <= pos <= e || pos == e + 2,
        double_crlf_at(h, e),
    ensures
        scan(h.take(e + 4), pos, t, found) == scan(h, pos, t, found),
    decreases h.len() - pos,
{
    let g = h.take(e + 4);
    assert(crlf_at(g, pos) == crlf_at(h, pos));
    if !crlf_at(h, pos) {
        reveal_strlit("host:");
        reveal_strlit("content-length:");
        reveal_strlit("connection:");
        is_ascii_chars_encode_utf8("host:"@);
        is_ascii_chars_encode_utf8("content-length:"@);
        is_ascii_chars_encode_utf8("connection:"@);
        lemma_head_stands(h, e, pos, host_name());
        lemma_head_stands(h, e, pos, length_name());
        lemma_head_stands(h, e, pos, connection_name());
        if stands_at(h, pos, host_name()) {
            lemma_head_value(h, e, pos + host_name().len());
        }
        if stands_at(h, pos, length_name()) {
            lemma_head_value(h, e, pos + length_name().len());
        }
        if stands_at(h, pos, connection_name()) {
            lemma_head_value(h, e, pos + connection_name().len());
        }
        let f = found.after_line(h, pos, t);
        assert(found.after_line(g, pos, t) == f);
        lemma_head_crlf(h, e, pos);
        let end = next_crlf(h, pos);
        if !f.complete(t) {
            lemma_head_scan(h, e, end + 2, t, f);
        }
    }
}

/// The headers end at an empty line, be it the first line or a later one: what
/// stands behind it, a body or the next message, is never read as a header.
pub proof fn law_body_is_no_header(h: Seq<u8>, e: int, t: ParserType)
    requires
        crlf_at(h, e),
        e == 0 || crlf_at(h, e - 2),
    ensures
        headers_found(h, t) == headers_found(h.take(e + 2), t),
        e == 0 ==> headers_found(h, t) == Found::none(),
{
    if e == 0 {
        assert(crlf_at(h.take(2), 0));
    } else {
        lemma_head_scan(h, e - 2, 0, t, Found::none());
    }
}

/// Whether two byte sequences differ in the case of ASCII letters alone.
pub open spec fn same_but_case(a: Seq<u8>, b: Seq<u8>) -> bool {
    &&& a.len() == b.len()
    &&& forall|i: int| 0 <= i < a.len() ==> lower(#[trigger] a[i]) == lower(b[i])
}

proof fn lemma_case_crlf(a: Seq<u8>, b: Seq<u8>, pos: int)
    requires
        same_but_case(a, b),
        0 <= pos,
    ensures
        crlf_at(a, pos) == crlf_at(b, pos),
        next_crlf(a, pos) == next_crlf(b, pos),
    decreases a.len() - pos,
{
    assert forall|i: int| 0 <= i < a.len() implies (a[i] == 13) == (b[i] == 13) && (a[i] == 10)
        == (b[i] == 10) by {
        assert(lower(a[i]) == lower(b[i]));
    }
    if pos < a.len() {
        lemma_case_crlf(a, b, pos + 1);
    }
}

proof fn lemma_case_value(a: Seq<u8>, b: Seq<u8>, pos: int)
    requires
        same_but_case(a, b),
        0 <= pos <= a.len(),
    ensures
        same_but_case(header_value(a, pos), header_value(b, pos)),
{
    lemma_case_skip(a, b, pos);
    let from = skip_blank(a, pos);
    lemma_case_crlf(a, b, from);
    lemma_next_crlf_bounds(a, from);
    lemma_case_trim(a, b, from, value_limit(a, from));
    let to = trim_blank(a, from, value_limit(a, from));
    assert forall|i: int| 0 <= i < to - from implies lower(
        #[trigger] a.subrange(from, to)[i],
    ) == lower(b.subrange(from, to)[i]) by {
        assert(lower(a[from + i]) == lower(b[from + i]));
    }
}

proof fn lemma_case_skip(a: Seq<u8>, b: Seq<u8>, pos: int)
    requires
        same_but_case(a, b),
        0 <= pos <= a.len(),
    ensures
        skip_blank(a, pos) == skip_blank(b, pos),
        pos <= skip_blank(a, pos) <= a.len(),
    decreases a.len() - pos,
{
    if pos < a.len() {
        assert(lower(a[pos]) == lower(b[pos]));
        if blank(a[pos]) {
            lemma_case_skip(a, b, pos + 1);
        }
    }
}

proof fn lemma_case_trim(a: Seq<u8>, b: Seq<u8>, from: int, to: int)
    requires
        same_but_case(a, b),
        0 <= from <= to <= a.len(),
    ensures
        trim_blank(a, from, to) == trim_blank(b, from, to),
        from <= trim_blank(a, from, to) <= to,
    decreases to - from,
{
    if to > from {
        assert(lower(a[to - 1]) == lower(b[to - 1]));
        if blank(a[to - 1]) {
            lemma_case_trim(a, b, from, to - 1);
        }
    }
}

proof fn lemma_case_stands(a: Seq<u8>, b: Seq<u8>, pos: int, name: Seq<u8>)
    requires
        same_but_case(a, b),
    ensures
        stands_at(a, pos, name) == stands_at(b, pos, name),
{
    if 0 <= pos && pos + name.len() <= a.len() {
        assert forall|i: int| 0 <= i < name.len() implies lower(#[trigger] a[pos + i]) == lower(
            b[pos + i],
        ) by {}
        assert forall|i: int| 0 <= i < name.len() implies lower(#[trigger] b[pos + i]) == lower(
            a[pos + i],
        ) by {
            assert(lower(a[pos + i]) == lower(b[pos + i]));
        }
    }
}

proof fn lemma_case_scan(a: Seq<u8>, b: Seq<u8>, pos: int, f: Found, g: Found)
    requires
        same_but_case(a, b),
        0 <= pos,
        f.connection == g.connection,
        f.host is Some <==> g.host is Some,
        f.host is Some ==> same_but_case(f.host->0, g.host->0),
    ensures
        ({
            let x = scan(a, pos, ParserType::Request, f);
            let y = scan(b, pos, ParserType::Request, g);
            &&& x.connection == y.connection
            &&& x.host is Some <==> y.host is Some
            &&& x.host is Some ==> same_but_case(x.host->0, y.host->0)
        }),
    decreases a.len() - pos,
{
    lemma_case_crlf(a, b, pos);
    if !(pos >= a.len() || crlf_at(a, pos)) {
        let t = ParserType::Request;
        lemma_case_stands(a, b, pos, host_name());
        lemma_case_stands(a, b, pos, connection_name());
        if stands_at(a, pos, host_name()) {
            lemma_case_value(a, b, pos + host_name().len());
        }
        if stands_at(a, pos, connection_name()) {
            let p = pos + connection_name().len();
            lemma_case_value(a, b, p);
            let (v, w) = (header_value(a, p), header_value(b, p));
            lemma_case_stands(v, w, 0, encode_utf8("keep-alive"@));
            lemma_case_stands(v, w, 0, encode_utf8("close"@));
        }
        let end = next_crlf(a, pos);
        let f2 = f.after_line(a, pos, t);
        let g2 = g.after_line(b, pos, t);
        if !(end >= a.len() || f2.complete(t)) {
            lemma_next_crlf_bounds(a, pos);
            lemma_case_scan(a, b, end + 2, f2, g2);
        }
    }
}

/// Upper and lower case are the same in header names and in what `Connection`
/// asks for: header sections of requests that differ in nothing else have a
/// host together, the same but for its case, and the same connection
/// preference.
pub proof fn law_request_headers_ignore_case(a: Seq<u8>, b: Seq<u8>)
    requires
        same_but_case(a, b),
    ensures
        ({
            let x = headers_found(a, ParserType::Request);
            let y = headers_found(b, ParserType::Request);
            &&& x.connection == y.connection
            &&& x.host is Some <==> y.host is Some
            &&& x.host is Some ==> same_but_case(x.host->0, y.host->0)
        }),
{
    lemma_case_scan(a, b, 0, Found::none(), Found::none());
}

// ---------------------------------------------------------------------------
// Laws of the request line
// ---------------------------------------------------------------------------

proof fn lemma_next_byte_at(r: Seq<u8>, pos: int, k: int, b: u8)
    requires
        0 <= pos <= k <= r.len(),
        forall|i: int| pos <= i < k ==> r[i] != b,
        k < r.len() ==> r[k] == b,
    ensures
        next_byte(r, pos, b) == k,
    decreases k - pos,
{
    if pos < k {
        assert(r[pos] != b);
        lemma_next_byte_at(r, pos + 1, k, b);
    }
}

proof fn lemma_next_byte_bounds(r: Seq<u8>, pos: int, b: u8)
    requires
        0 <= pos,
    ensures
        pos <= r.len() ==> pos <= next_byte(r, pos, b) <= r.len(),
        next_byte(r, pos, b) < r.len() ==> r[next_byte(r, pos, b)] == b,
        forall|i: int| pos <= i < next_byte(r, pos, b) && i < r.len() ==> r[i] != b,
    decreases r.len() - pos,
{
    if pos < r.len() && r[pos] != b {
        lemma_next_byte_bounds(r, pos + 1, b);
    }
}

/// Whether `b` is `n`, or the capital of the small letter `n`.
pub open spec fn spelled_byte(b: u8, n: u8) -> bool {
    b == n || 97 <= n <= 122 && b + 32 == n
}

/// Whether `a` spells the ASCII text `n`, whose letters are small, with letters
/// of either case.
pub open spec fn spells(a: Seq<u8>, n: Seq<u8>) -> bool {
    &&& a.len() == n.len()
    &&& forall|i: int| 0 <= i < n.len() ==> spelled_byte(#[trigger] a[i], n[i])
}

/// A name without capitals stands where its letters do, in either case, and
/// nowhere else.
pub proof fn law_names_are_spelled_in_either_case(h: Seq<u8>, pos: int, name: Seq<u8>)
    requires
        0 <= pos,
        forall|i: int| 0 <= i < name.len() ==> !(65 <= #[trigger] name[i] <= 90),
    ensures
        stands_at(h, pos, name) <==> pos + name.len() <= h.len() && spells(
            h.subrange(pos, pos + name.len()),
            name,
        ),
{
    if pos + name.len() <= h.len() {
        let a = h.subrange(pos, pos + name.len());
        assert forall|i: int| 0 <= i < name.len() implies (lower(#[trigger] h[pos + i]) == name[i]
            <==> spelled_byte(a[i], name[i])) by {
            assert(a[i] == h[pos + i]);
            assert(!(65 <= name[i] <= 90));
        }
        if spells(a, name) {
            assert forall|i: int| 0 <= i < name.len() implies lower(#[trigger] h[pos + i])
                == name[i] by {
                assert(spelled_byte(a[i], name[i]));
            }
        }
        if stands_at(h, pos, name) {
            assert forall|i: int| 0 <= i < name.len() implies spelled_byte(
                #[trigger] a[i],
                name[i],
            ) by {
                assert(lower(h[pos + i]) == name[i]);
            }
        }
    }
}

/// The bytes of a line end.
pub open spec fn line_end() -> Seq<u8> {
    seq![13, 10]
}

/// The bytes of a request with this method, path and version, and what follows
/// the version.
pub open spec fn request_bytes(
    method: Seq<u8>,
    path: Seq<u8>,
    version: Seq<u8>,
    tail: Seq<u8>,
) -> Seq<u8> {
    method + seq![32u8] + path + seq![32u8] + version + tail
}

proof fn lemma_request_bytes(method: Seq<u8>, path: Seq<u8>, version: Seq<u8>, tail: Seq<u8>)
    requires
        !method.contains(32),
        !path.contains(32),
        !version.contains(13),
        tail.len() > 0 ==> tail[0] == 13,
    ensures
        ({
            let r = request_bytes(method, path, version, tail);
            let a = method.len() as int;
            let b = a + 1 + path.len();
            let c = b + 1 + version.len();
            &&& next_byte(r, 0, 32) == a
            &&& next_byte(r, a + 1, 32) == b
            &&& next_byte(r, b + 1, 13) == c
            &&& r.len() == c + tail.len()
            &&& r.subrange(0, a) == method
            &&& r.subrange(a + 1, b) == path
            &&& r.subrange(b + 1, c) == version
            &&& r.subrange(c, r.len() as int) == tail
        }),
{
    let r = request_bytes(method, path, version, tail);
    let a = method.len() as int;
    let b = a + 1 + path.len();
    let c = b + 1 + version.len();
    assert(r.len() == c + tail.len());
    assert forall|i: int| 0 <= i < a implies r[i] != 32 by {
        assert(r[i] == method[i]);
        assert(method.contains(method[i]));
    }
    assert(r[a] == 32);
    lemma_next_byte_at(r, 0, a, 32);
    assert forall|i: int| a + 1 <= i < b implies r[i] != 32 by {
        assert(r[i] == path[i - a - 1]);
        assert(path.contains(path[i - a - 1]));
    }
    assert(r[b] == 32);
    lemma_next_byte_at(r, a + 1, b, 32);
    assert forall|i: int| b + 1 <= i < c implies r[i] != 13 by {
        assert(r[i] == version[i - b - 1]);
        assert(version.contains(version[i - b - 1]));
    }
    if c < r.len() {
        assert(r[c] == tail[0]);
    }
    lemma_next_byte_at(r, b + 1, c, 13);
    assert(r.subrange(0, a) =~= method);
    assert(r.subrange(a + 1, b) =~= path);
    assert(r.subrange(b + 1, c) =~= version);
    assert(r.subrange(c, r.len() as int) =~= tail);
}

proof fn lemma_version_prefix(r: Seq<u8>, from: int, version: Seq<u8>)
    requires
        0 <= from,
        from + version.len() <= r.len(),
        r.subrange(from, from + version.len()) == version,
        version.len() >= 5,
    ensures
        stands_at(r, from, encode_utf8("http/"@)) <==> spells(
            version.take(5),
            encode_utf8("http/"@),
        ),
{
    reveal_strlit("http/");
    is_ascii_chars_encode_utf8("http/"@);
    let n = encode_utf8("http/"@);
    assert(n.len() == 5);
    law_names_are_spelled_in_either_case(r, from, n);
    assert(r.subrange(from, from + 5) =~= version.take(5)) by {
        assert forall|i: int| 0 <= i < 5 implies r[from + i] == version[i] by {
            assert(r.subrange(from, from + version.len())[i] == r[from + i]);
        }
    }
}

/// A request is read as it was written: with a method and a path without
/// spaces, and a version `HTTP/` in either case of at least eight bytes, its
/// parts come back as they are, with what the header section says. A version
/// that is missing, malformed or not ended by a line end is told.
pub proof fn law_requests_are_read_as_written(
    method: Seq<u8>,
    path: Seq<u8>,
    version: Seq<u8>,
    tail: Seq<u8>,
    headers: Seq<u8>,
)
    requires
        !method.contains(32),
        !path.contains(32),
        !version.contains(13),
        tail.len() > 0 ==> tail[0] == 13,
        request_bytes(method, path, version, tail).len() >= 16,
    ensures
        ({
            let found = request_head(request_bytes(method, path, version, tail));
            let good = version.len() >= 8 && spells(version.take(5), encode_utf8("http/"@));
            &&& version.len() == 0 ==> found == Err::<RequestHead, ParseError>(
                ParseError::MissingHttpVersion,
            )
            &&& version.len() > 0 && !good ==> found == Err::<RequestHead, ParseError>(
                ParseError::MalformedHttpVersion,
            )
            &&& good && !(tail.len() >= 2 && tail[1] == 10) ==> found == Err::<
                RequestHead,
                ParseError,
            >(ParseError::MissingCrlf)
            &&& good && tail == line_end() + headers ==> {
                &&& found is Ok
                &&& found->Ok_0.method == method
                &&& found->Ok_0.path == path
                &&& found->Ok_0.host == headers_found(headers, ParserType::Request).host
                &&& found->Ok_0.connection == headers_found(
                    headers,
                    ParserType::Request,
                ).connection
            }
        }),
{
    let r = request_bytes(method, path, version, tail);
    lemma_request_bytes(method, path, version, tail);
    let a = method.len() as int;
    let b = a + 1 + path.len();
    let c = b + 1 + version.len();
    if version.len() >= 5 {
        lemma_version_prefix(r, b + 1, version);
    }
    assert(tail.len() >= 1 ==> r[c] == tail[0]) by {
        if tail.len() >= 1 {
            assert(r.subrange(c, r.len() as int)[0] == r[c]);
        }
    }
    assert(tail.len() >= 2 ==> r[c + 1] == tail[1]) by {
        if tail.len() >= 2 {
            assert(r.subrange(c, r.len() as int)[1] == r[c + 1]);
        }
    }
    if tail == line_end() + headers {
        assert(r.subrange(c + 2, r.len() as int) =~= headers) by {
            assert forall|i: int| 0 <= i < headers.len() implies r[c + 2 + i] == headers[i] by {
                assert(r.subrange(c, r.len() as int)[i + 2] == tail[i + 2]);
            }
        }
    }
}

/// A request that is read was written so: its method and path stand at its
/// start, each with a space behind it and none in it, then a version and a
/// line end.
pub proof fn law_requests_were_written_so(r: Seq<u8>)
    requires
        request_head(r) is Ok,
    ensures
        ({
            let head = request_head(r)->Ok_0;
            &&& r.len() >= 16
            &&& !head.method.contains(32)
            &&& !head.path.contains(32)
            &&& exists|version: Seq<u8>, headers: Seq<u8>|
                {
                    &&& r == #[trigger] request_bytes(
                        head.method,
                        head.path,
                        version,
                        line_end() + headers,
                    )
                    &&& version.len() >= 8
                    &&& !version.contains(13)
                    &&& spells(version.take(5), encode_utf8("http/"@))
                }
        }),
{
    let head = request_head(r)->Ok_0;
    let a = next_byte(r, 0, 32);
    lemma_next_byte_bounds(r, 0, 32);
    let b = next_byte(r, a + 1, 32);
    lemma_next_byte_bounds(r, a + 1, 32);
    let c = next_byte(r, b + 1, 13);
    lemma_next_byte_bounds(r, b + 1, 13);
    let version = r.subrange(b + 1, c);
    let headers = r.subrange(c + 2, r.len() as int);
    assert(!head.method.contains(32)) by {
        if head.method.contains(32) {
            let i = choose|i: int| 0 <= i < head.method.len() && head.method[i] == 32;
            assert(r[i] == 32);
        }
    }
    assert(!head.path.contains(32)) by {
        if head.path.contains(32) {
            let i = choose|i: int| 0 <= i < head.path.len() && head.path[i] == 32;
            assert(r[a + 1 + i] == 32);
        }
    }
    assert(!version.contains(13)) by {
        if version.contains(13) {
            let i = choose|i: int| 0 <= i < version.len() && version[i] == 13;
            assert(r[b + 1 + i] == 13);
        }
    }
    lemma_version_prefix(r, b + 1, version);
    assert(r =~= request_bytes(head.method, head.path, version, line_end() + headers));
}

/// Requests that are too short, or that lack a space, are told.
pub proof fn law_requests_without_parts(r: Seq<u8>, method: Seq<u8>, rest: Seq<u8>)
    ensures
        request_head(r) == Err::<RequestHead, ParseError>(ParseError::RequestTooShort)
            <==> r.len() < 16,
        r.len() >= 16 ==> (request_head(r) == Err::<RequestHead, ParseError>(
            ParseError::NoSpaceAfterMethod,
        ) <==> !r.contains(32)),
        !method.contains(32) && !rest.contains(32) && method.len() + 1 + rest.len() >= 16
            ==> request_head(method + seq![32u8] + rest) == Err::<RequestHead, ParseError>(
            ParseError::NoSpaceAfterPath,
        ),
{
    lemma_next_byte_bounds(r, 0, 32);
    if r.contains(32) {
        let i = choose|i: int| 0 <= i < r.len() && r[i] == 32;
        assert(next_byte(r, 0, 32) <= i);
    } else {
        let k = next_byte(r, 0, 32);
        if k < r.len() {
            assert(r[k] == 32);
        }
    }
    if !method.contains(32) && !rest.contains(32) {
        let q = method + seq![32u8] + rest;
        let a = method.len() as int;
        assert forall|i: int| 0 <= i < a implies q[i] != 32 by {
            assert(q[i] == method[i]);
            assert(method.contains(method[i]));
        }
        lemma_next_byte_at(q, 0, a, 32);
        assert forall|i: int| a + 1 <= i < q.len() implies q[i] != 32 by {
            assert(q[i] == rest[i - a - 1]);
            assert(rest.contains(rest[i - a - 1]));
        }
        lemma_next_byte_at(q, a + 1, q.len() as int, 32);
    }
}

// ---------------------------------------------------------------------------
// Laws of the header lines
// ---------------------------------------------------------------------------

proof fn lemma_shift_crlf(a: Seq<u8>, h: Seq<u8>, pos: int)
    requires
        0 <= pos,
    ensures
        crlf_at(a + h, a.len() + pos) == crlf_at(h, pos),
        next_crlf(a + h, a.len() + pos) == a.len() + next_crlf(h, pos),
    decreases h.len() - pos,
{
    let g = a + h;
    if pos < h.len() {
        assert(g[a.len() + pos] == h[pos]);
        if pos + 1 < h.len() {
            assert(g[a.len() + pos + 1] == h[pos + 1]);
        }
        lemma_shift_crlf(a, h, pos + 1);
    }
}

proof fn lemma_shift_skip(a: Seq<u8>, h: Seq<u8>, pos: int)
    requires
        0 <= pos <= h.len(),
    ensures
        skip_blank(a + h, a.len() + pos) == a.len() + skip_blank(h, pos),
        pos <= skip_blank(h, pos) <= h.len(),
    decreases h.len() - pos,
{
    if pos < h.len() {
        assert((a + h)[a.len() + pos] == h[pos]);
        if blank(h[pos]) {
            lemma_shift_skip(a, h, pos + 1);
        }
    }
}

proof fn lemma_shift_trim(a: Seq<u8>, h: Seq<u8>, from: int, to: int)
    requires
        0 <= from <= to <= h.len(),
    ensures
        trim_blank(a + h, a.len() + from, a.len() + to) == a.len() + trim_blank(h, from, to),
        from <= trim_blank(h, from, to) <= to,
    decreases to - from,
{
    if to > from {
        assert((a + h)[a.len() + to - 1] == h[to - 1]);
        if blank(h[to - 1]) {
            lemma_shift_trim(a, h, from, to - 1);
        }
    }
}

proof fn lemma_shift_value(a: Seq<u8>, h: Seq<u8>, pos: int)
    requires
        0 <= pos <= h.len(),
    ensures
        header_value(a + h, a.len() + pos) == header_value(h, pos),
{
    lemma_shift_skip(a, h, pos);
    let from = skip_blank(h, pos);
    lemma_shift_crlf(a, h, from);
    lemma_next_crlf_bounds(h, from);
    lemma_shift_trim(a, h, from, value_limit(h, from));
    let to = trim_blank(h, from, value_limit(h, from));
    assert((a + h).subrange(a.len() + from, a.len() + to) =~= h.subrange(from, to));
}

proof fn lemma_shift_stands(a: Seq<u8>, h: Seq<u8>, pos: int, name: Seq<u8>)
    requires
        0 <= pos,
    ensures
        stands_at(a + h, a.len() + pos, name) == stands_at(h, pos, name),
{
    let g = a + h;
    if pos + name.len() <= h.len() {
        if stands_at(h, pos, name) {
            assert forall|i: int| 0 <= i < name.len() implies lower(
                #[trigger] g[a.len() + pos + i],
            ) == name[i] by {
                assert(g[a.len() + pos + i] == h[pos + i]);
            }
        }
        if stands_at(g, a.len() + pos, name) {
            assert forall|i: int| 0 <= i < name.len() implies lower(#[trigger] h[pos + i])
                == name[i] by {
                assert(lower(g[a.len() + pos + i]) == name[i]);
            }
        }
    }
}

proof fn lemma_shift_scan(a: Seq<u8>, h: Seq<u8>, pos: int, t: ParserType, found: Found)
    requires
        0 <= pos,
    ensures
        scan(a + h, a.len() + pos, t, found) == scan(h, pos, t, found),
    decreases h.len() - pos,
{
    lemma_shift_crlf(a, h, pos);
    if !(pos >= h.len() || crlf_at(h, pos)) {
        lemma_shift_stands(a, h, pos, host_name());
        lemma_shift_stands(a, h, pos, length_name());
        lemma_shift_stands(a, h, pos, connection_name());
        if stands_at(h, pos, host_name()) {
            lemma_shift_value(a, h, pos + host_name().len());
        }
        if stands_at(h, pos, length_name()) {
            lemma_shift_value(a, h, pos + length_name().len());
        }
        if stands_at(h, pos, connection_name()) {
            lemma_shift_value(a, h, pos + connection_name().len());
        }
        let f = found.after_line(h, pos, t);
        let end = next_crlf(h, pos);
        if !(end >= h.len() || f.complete(t)) {
            lemma_next_crlf_bounds(h, pos);
            lemma_shift_scan(a, h, end + 2, t, f);
        }
    }
}

proof fn lemma_scan_keeps(h: Seq<u8>, pos: int, t: ParserType, found: Found)
    requires
        0 <= pos,
    ensures
        t == ParserType::Request ==> scan(h, pos, t, found).length == found.length,
        t == ParserType::Response ==> scan(h, pos, t, found).host == found.host,
    decreases h.len() - pos,
{
    if !(pos >= h.len() || crlf_at(h, pos)) {
        let f = found.after_line(h, pos, t);
        let end = next_crlf(h, pos);
        if !(end >= h.len() || f.complete(t)) {
            lemma_next_crlf_bounds(h, pos);
            lemma_scan_keeps(h, end + 2, t, f);
        }
    }
}

/// Whether a line holds no line end.
pub open spec fn one_line(line: Seq<u8>) -> bool {
    forall|i: int| 0 <= i < line.len() - 1 ==> !(#[trigger] line[i] == 13 && line[i + 1] == 10)
}

proof fn lemma_first_line(line: Seq<u8>, rest: Seq<u8>, t: ParserType, found: Found)
    requires
        one_line(line),
        line.len() > 0,
    ensures
        ({
            let h = line + line_end() + rest;
            &&& next_crlf(h, 0) == line.len()
            &&& !crlf_at(h, 0)
            &&& scan(h, 0, t, found) == scan(rest, 0, t, found.after_line(h, 0, t))
        }),
{
    let h = line + line_end() + rest;
    let n = line.len() as int;
    assert forall|i: int| 0 <= i < n implies !crlf_at(h, i) by {
        assert(h[i] == line[i]);
        if i < n - 1 {
            assert(h[i + 1] == line[i + 1]);
        } else {
            assert(h[i + 1] == 13);
        }
    }
    assert(h[n] == 13 && h[n + 1] == 10);
    lemma_next_crlf(h, 0, n);
    assert(!crlf_at(h, 0));
    let f = found.after_line(h, 0, t);
    let a = line + line_end();
    assert(h =~= a + rest);
    lemma_shift_scan(a, rest, 0, t, f);
    assert(a.len() == n + 2);
    if f.complete(t) {
        law_first_value_counts(rest, 0, t, f);
        lemma_scan_keeps(rest, 0, t, f);
        assert(scan(rest, 0, t, f) == f);
    }
}

/// Whether the bytes are spaces and tabs.
pub open spec fn blanks(b: Seq<u8>) -> bool {
    forall|i: int| 0 <= i < b.len() ==> #[trigger] b[i] == 32 || b[i] == 9
}

proof fn lemma_skip_to(h: Seq<u8>, from: int, to: int)
    requires
        0 <= from <= to <= h.len(),
        forall|i: int| from <= i < to ==> blank(#[trigger] h[i]),
        to < h.len() ==> !blank(h[to]),
    ensures
        skip_blank(h, from) == to,
    decreases to - from,
{
    if from < to {
        assert(blank(h[from]));
        lemma_skip_to(h, from + 1, to);
    }
}

proof fn lemma_trim_to(h: Seq<u8>, from: int, end: int, to: int)
    requires
        0 <= from <= end <= to <= h.len(),
        forall|i: int| end <= i < to ==> blank(#[trigger] h[i]),
        end > from ==> !blank(h[end - 1]),
    ensures
        trim_blank(h, from, to) == end,
    decreases to - end,
{
    if end < to {
        assert(blank(h[to - 1]));
        lemma_trim_to(h, from, end, to - 1);
    }
}

/// The value of a line is what stands between the blanks behind the name and
/// those at its end.
proof fn lemma_line_value(
    name: Seq<u8>,
    pre: Seq<u8>,
    value: Seq<u8>,
    post: Seq<u8>,
    rest: Seq<u8>,
)
    requires
        blanks(pre),
        blanks(post),
        value.len() == 0 ==> post.len() == 0,
        value.len() > 0 ==> !blank(value[0]) && !blank(value.last()),
        one_line(name + pre + value + post),
        name.len() > 0,
    ensures
        header_value(name + pre + value + post + line_end() + rest, name.len() as int) == value,
{
    let line = name + pre + value + post;
    let h = line + line_end() + rest;
    let a = name.len() as int;
    let b = a + pre.len();
    let c = b + value.len();
    let n = line.len() as int;
    assert(h.len() == n + 2 + rest.len());
    assert forall|i: int| 0 <= i < n implies h[i] == line[i] by {}
    assert(h[n] == 13 && h[n + 1] == 10);
    assert forall|i: int| a <= i < b implies blank(#[trigger] h[i]) by {
        assert(h[i] == pre[i - a]);
    }
    if value.len() > 0 {
        assert(h[b] == value[0]);
        assert(h[c - 1] == value.last());
    } else {
        assert(b == n);
    }
    lemma_skip_to(h, a, b);
    assert forall|i: int| b <= i < n implies !crlf_at(h, i) by {
        assert(h[i] == line[i]);
        if i < n - 1 {
            assert(h[i + 1] == line[i + 1]);
        } else {
            assert(h[i + 1] == 13);
        }
    }
    lemma_next_crlf(h, b, n);
    assert forall|i: int| c <= i < n implies blank(#[trigger] h[i]) by {
        assert(h[i] == post[i - c]);
    }
    lemma_trim_to(h, b, c, n);
    assert(h.subrange(b, c) =~= value);
}

proof fn lemma_names()
    ensures
        host_name().len() == 5,
        length_name().len() == 15,
        connection_name().len() == 11,
        forall|i: int| 0 <= i < 5 ==> !(65 <= #[trigger] host_name()[i] <= 90),
        forall|i: int| 0 <= i < 15 ==> !(65 <= #[trigger] length_name()[i] <= 90),
        forall|i: int| 0 <= i < 11 ==> !(65 <= #[trigger] connection_name()[i] <= 90),
        host_name()[0] == 104,
        length_name()[0] == 99,
        connection_name()[0] == 99,
        length_name()[3] == 116,
        connection_name()[3] == 110,
{
    reveal_strlit("host:");
    reveal_strlit("content-length:");
    reveal_strlit("connection:");
    is_ascii_chars_encode_utf8("host:"@);
    is_ascii_chars_encode_utf8("content-length:"@);
    is_ascii_chars_encode_utf8("connection:"@);
}

/// One header line, from its name to its line end, says one thing and leaves
/// the rest to the lines behind it: in a request the first `Host` with a value
/// is the host, in a response the first `Content-Length` that is a number is
/// the length, and the first `Connection` that asks for something is the
/// connection preference. The value is what stands behind the name without
/// blanks around it; names are spelled in either case.
pub proof fn law_header_lines(
    name: Seq<u8>,
    pre: Seq<u8>,
    value: Seq<u8>,
    post: Seq<u8>,
    rest: Seq<u8>,
    t: ParserType,
    found: Found,
)
    requires
        blanks(pre),
        blanks(post),
        value.len() == 0 ==> post.len() == 0,
        value.len() > 0 ==> value[0] != 32 && value[0] != 9 && value.last() != 32 && value.last()
            != 9,
        one_line(name + pre + value + post),
    ensures
        ({
            let after = scan(name + pre + value + post + line_end() + rest, 0, t, found);
            &&& spells(name, encode_utf8("host:"@)) ==> after == scan(
                rest,
                0,
                t,
                if t == ParserType::Request && found.host is None && value.len() > 0 {
                    Found { host: Some(value), ..found }
                } else {
                    found
                },
            )
            &&& spells(name, encode_utf8("content-length:"@)) ==> after == scan(
                rest,
                0,
                t,
                if t == ParserType::Response && found.length is None && value.len() > 0 {
                    Found { length: length_of(value), ..found }
                } else {
                    found
                },
            )
            &&& spells(name, encode_utf8("connection:"@)) ==> after == scan(
                rest,
                0,
                t,
                if found.connection != ConnectionType::Default {
                    found
                } else if value.len() >= 10 && spells(value.take(10), encode_utf8("keep-alive"@)) {
                    Found { connection: ConnectionType::KeepAlive, ..found }
                } else if value.len() >= 5 && spells(value.take(5), encode_utf8("close"@)) {
                    Found { connection: ConnectionType::Close, ..found }
                } else {
                    found
                },
            )
        }),
{
    lemma_names();
    if spells(name, host_name()) || spells(name, length_name()) || spells(name, connection_name()) {
        let line = name + pre + value + post;
        let h = line + line_end() + rest;
        lemma_first_line(line, rest, t, found);
        lemma_line_value(name, pre, value, post, rest);
        law_names_are_spelled_in_either_case(h, 0, host_name());
        law_names_are_spelled_in_either_case(h, 0, length_name());
        law_names_are_spelled_in_either_case(h, 0, connection_name());
        assert(h.subrange(0, name.len() as int) =~= name);
        assert(h[0] == name[0] && h[3] == name[3]);
        if spells(name, host_name()) {
            assert(spelled_byte(name[0], host_name()[0]));
            if stands_at(h, 0, length_name()) {
                assert(spelled_byte(h.subrange(0, 15)[0], length_name()[0]));
            }
            if stands_at(h, 0, connection_name()) {
                assert(spelled_byte(h.subrange(0, 11)[0], connection_name()[0]));
            }
        }
        if spells(name, length_name()) {
            assert(spelled_byte(name[0], length_name()[0]));
            assert(spelled_byte(name[3], length_name()[3]));
            if stands_at(h, 0, host_name()) {
                assert(spelled_byte(h.subrange(0, 5)[0], host_name()[0]));
            }
            if stands_at(h, 0, connection_name()) {
                assert(spelled_byte(h.subrange(0, 11)[3], connection_name()[3]));
            }
        }
        if spells(name, connection_name()) {
            assert(spelled_byte(name[0], connection_name()[0]));
            assert(spelled_byte(name[3], connection_name()[3]));
            if stands_at(h, 0, host_name()) {
                assert(spelled_byte(h.subrange(0, 5)[0], host_name()[0]));
            }
            if stands_at(h, 0, length_name()) {
                assert(spelled_byte(h.subrange(0, 15)[3], length_name()[3]));
            }
            lemma_connection_value(value);
        }
    }
}

proof fn lemma_connection_value(value: Seq<u8>)
    ensures
        connection_of(value) == if value.len() >= 10 && spells(
            value.take(10),
            encode_utf8("keep-alive"@),
        ) {
            ConnectionType::KeepAlive
        } else if value.len() >= 5 && spells(value.take(5), encode_utf8("close"@)) {
            ConnectionType::Close
        } else {
            ConnectionType::Default
        },
{
    reveal_strlit("keep-alive");
    reveal_strlit("close");
    is_ascii_chars_encode_utf8("keep-alive"@);
    is_ascii_chars_encode_utf8("close"@);
    law_names_are_spelled_in_either_case(value, 0, encode_utf8("keep-alive"@));
    law_names_are_spelled_in_either_case(value, 0, encode_utf8("close"@));
    if value.len() >= 10 {
        assert(value.subrange(0, 10) =~= value.take(10));
    }
    if value.len() >= 5 {
        assert(value.subrange(0, 5) =~= value.take(5));
    }
}

/// A line of another name says nothing; an empty line ends the section, and so
/// does its end.
pub proof fn law_other_lines(line: Seq<u8>, rest: Seq<u8>, t: ParserType, found: Found)
    requires
        one_line(line),
        line.len() > 0,
        !(line.len() >= 5 && spells(line.take(5), encode_utf8("host:"@))),
        !(line.len() >= 15 && spells(line.take(15), encode_utf8("content-length:"@))),
        !(line.len() >= 11 && spells(line.take(11), encode_utf8("connection:"@))),
    ensures
        scan(line + line_end() + rest, 0, t, found) == scan(rest, 0, t, found),
        scan(line_end() + rest, 0, t, found) == found,
        scan(Seq::empty(), 0, t, found) == found,
        headers_found(rest, t) == scan(
            rest,
            0,
            t,
            (Found { host: None, connection: ConnectionType::Default, length: None }),
        ),
{
    lemma_names();
    let h = line + line_end() + rest;
    lemma_first_line(line, rest, t, found);
    lemma_no_name(line, rest, host_name());
    lemma_no_name(line, rest, length_name());
    lemma_no_name(line, rest, connection_name());
    let e = line_end() + rest;
    assert(e[0] == 13 && e[1] == 10);
}

proof fn lemma_no_name(line: Seq<u8>, rest: Seq<u8>, name: Seq<u8>)
    requires
        !(line.len() >= name.len() && spells(line.take(name.len() as int), name)),
        name == host_name() || name == length_name() || name == connection_name(),
    ensures
        !stands_at(line + line_end() + rest, 0, name),
{
    reveal_strlit("host:");
    reveal_strlit("content-length:");
    reveal_strlit("connection:");
    is_ascii_chars_encode_utf8("host:"@);
    is_ascii_chars_encode_utf8("content-length:"@);
    is_ascii_chars_encode_utf8("connection:"@);
    let h = line + line_end() + rest;
    let n = name.len() as int;
    lemma_names();
    law_names_are_spelled_in_either_case(h, 0, name);
    if stands_at(h, 0, name) {
        let a = h.subrange(0, n);
        if line.len() >= n {
            assert(a =~= line.take(n));
        } else {
            let i = line.len() as int;
            assert(a[i] == 13);
            assert(spelled_byte(a[i], name[i]));
        }
    }
}

/// A length is a number in decimal that fits, with white space around it or
/// not.
pub proof fn law_lengths_are_numbers(n: nat, value: Seq<u8>)
    ensures
        n <= usize::MAX ==> length_of(encode_utf8(text::decimal(n))) == Some(n as usize),
        n > usize::MAX ==> length_of(encode_utf8(text::decimal(n))) is None,
        !valid_utf8(value) ==> length_of(value) is None,
        valid_utf8(value) ==> (length_of(value) is Some <==> (text::unsigned_value(
            text::trimmed(decode_utf8(value)),
        ) matches Some(k) && k <= usize::MAX)),
        valid_utf8(value) && length_of(value) is Some ==> text::unsigned_value(
            text::trimmed(decode_utf8(value)),
        ) == Some(length_of(value)->0 as nat),
{
    let d = text::decimal(n);
    text::law_decimal_round_trip(n);
    encode_utf8_valid_utf8(d);
    encode_utf8_decode_utf8(d);
    text::law_trimming_digits(d);
    assert(text::trimmed(d) == d);
}

/// A last line without a line end loses its last byte, whatever that is.
pub proof fn law_unended_lines(
    name: Seq<u8>,
    pre: Seq<u8>,
    value: Seq<u8>,
    last: u8,
    found: Found,
)
    requires
        spells(name, encode_utf8("host:"@)),
        blanks(pre),
        value.len() > 0,
        value[0] != 32 && value[0] != 9 && value.last() != 32 && value.last() != 9,
        one_line(name + pre + value + seq![last]),
        found.host is None,
    ensures
        scan(name + pre + value + seq![last], 0, ParserType::Request, found) == (Found {
            host: Some(value),
            ..found
        }),
{
    lemma_names();
    let h = name + pre + value + seq![last];
    let a = name.len() as int;
    let b = a + pre.len();
    let c = b + value.len();
    assert(h.len() == c + 1);
    assert forall|i: int| 0 <= i < h.len() implies !crlf_at(h, i) by {
        if i + 1 < h.len() {
            assert(!(h[i] == 13 && h[i + 1] == 10));
        }
    }
    lemma_next_crlf(h, 0, h.len() as int);
    law_names_are_spelled_in_either_case(h, 0, host_name());
    assert(h.subrange(0, a) =~= name);
    assert forall|i: int| a <= i < b implies blank(#[trigger] h[i]) by {
        assert(h[i] == pre[i - a]);
    }
    assert(h[b] == value[0]);
    assert(h[c - 1] == value.last());
    lemma_skip_to(h, a, b);
    lemma_next_crlf(h, b, h.len() as int);
    lemma_trim_to(h, b, c, c);
    assert(h.subrange(b, c) =~= value);
}

// ---------------------------------------------------------------------------
// Laws of responses
// ---------------------------------------------------------------------------

/// A status line is read as it was written: `HTTP/`, a version without spaces,
/// a space and three digits. Anything else is told.
pub proof fn law_status_lines(version: Seq<u8>, a: u8, b: u8, c: u8, tail: Seq<u8>, r: Seq<u8>)
    requires
        !version.contains(32),
        version.len() + 9 + tail.len() >= 12,
    ensures
        ({
            let line = encode_utf8("HTTP/"@) + version + seq![32u8, a, b, c] + tail;
            let digits = 48 <= a <= 57 && 48 <= b <= 57 && 48 <= c <= 57;
            &&& digits ==> status_code(line) is Ok && status_code(line)->Ok_0 as int == 100 * (a
                - 48) + 10 * (b - 48) + (c - 48)
            &&& !digits ==> status_code(line) == Err::<u16, ParseError>(
                ParseError::InvalidStatusCode(a, b, c),
            )
        }),
        r.len() < 12 ==> status_code(r) == Err::<u16, ParseError>(
            ParseError::StatusLineTooShort(r.len() as usize),
        ),
        r.len() >= 12 && r.take(5) != encode_utf8("HTTP/"@) ==> status_code(r) == Err::<
            u16,
            ParseError,
        >(ParseError::InvalidVersionPrefix),
        r.len() >= 12 && r.take(5) == encode_utf8("HTTP/"@) && !r.contains(32) ==> status_code(r)
            == Err::<u16, ParseError>(ParseError::NoSpaceAfterVersion),
        status_code(r) is Ok ==> r.len() >= 12 && r.take(5) == encode_utf8("HTTP/"@) && r.contains(
            32,
        ) && status_code(r)->Ok_0 <= 999,
{
    reveal_strlit("HTTP/");
    is_ascii_chars_encode_utf8("HTTP/"@);
    let p = encode_utf8("HTTP/"@);
    let line = p + version + seq![32u8, a, b, c] + tail;
    let k = (5 + version.len()) as int;
    assert(line.subrange(0, 5) =~= p);
    assert forall|i: int| 0 <= i < k implies line[i] != 32 by {
        if i < 5 {
            assert(line[i] == p[i]);
            assert(p[i] != 32);
        } else {
            assert(line[i] == version[i - 5]);
            assert(version.contains(version[i - 5]));
        }
    }
    assert(line[k] == 32 && line[k + 1] == a && line[k + 2] == b && line[k + 3] == c);
    lemma_next_byte_at(line, 0, k, 32);
    if r.len() >= 5 {
        assert(r.subrange(0, 5) =~= r.take(5));
    }
    lemma_next_byte_bounds(r, 0, 32);
    if !r.contains(32) {
        if next_byte(r, 0, 32) < r.len() {
            assert(r[next_byte(r, 0, 32)] == 32);
        }
    }
}

/// A status line that ends within its three digits is told, with how much of
/// them there is.
pub proof fn law_cut_status_lines(version: Seq<u8>, tail: Seq<u8>)
    requires
        !version.contains(32),
        tail.len() < 3,
        version.len() + 6 + tail.len() >= 12,
    ensures
        status_code(encode_utf8("HTTP/"@) + version + seq![32u8] + tail) == Err::<u16, ParseError>(
            ParseError::StatusCodeTooShort(tail.len() as usize),
        ),
{
    reveal_strlit("HTTP/");
    is_ascii_chars_encode_utf8("HTTP/"@);
    let p = encode_utf8("HTTP/"@);
    let line = p + version + seq![32u8] + tail;
    let k = (5 + version.len()) as int;
    assert(line.subrange(0, 5) =~= p);
    assert forall|i: int| 0 <= i < k implies line[i] != 32 by {
        if i < 5 {
            assert(line[i] == p[i]);
            assert(p[i] != 32);
        } else {
            assert(line[i] == version[i - 5]);
            assert(version.contains(version[i - 5]));
        }
    }
    assert(line[k] == 32);
    lemma_next_byte_at(line, 0, k, 32);
}

proof fn lemma_headers_end_at(h: Seq<u8>, pos: int, k: int)
    requires
        0 <= pos <= k <= h.len(),
        forall|i: int| pos <= i < k ==> !double_crlf_at(h, i),
        k < h.len() ==> double_crlf_at(h, k),
    ensures
        headers_end(h, pos) == if k < h.len() {
            k + 4
        } else {
            k
        },
    decreases k - pos,
{
    if pos < k {
        assert(!double_crlf_at(h, pos));
        lemma_headers_end_at(h, pos + 1, k);
    }
}

/// A response is read as it was written: behind its status line come its
/// headers, an empty line and its body. It is complete where the body holds as
/// many bytes as the headers promise, or where they promise none.
pub proof fn law_responses_are_read_as_written(line: Seq<u8>, headers: Seq<u8>, body: Seq<u8>)
    requires
        one_line(line),
        status_code(line + line_end() + headers + line_end() + line_end() + body) is Ok,
        forall|i: int|
            0 <= i < headers.len() ==> !double_crlf_at(headers + line_end() + line_end(), i),
        headers.len() > 0,
    ensures
        ({
            let section = headers + line_end() + line_end();
            let found = headers_found(section, ParserType::Response);
            let info = response_info(line + line_end() + headers + line_end() + line_end() + body);
            &&& info is Ok
            &&& Ok::<u16, ParseError>(info->Ok_0.status_code) == status_code(
                line + line_end() + headers + line_end() + line_end() + body,
            )
            &&& info->Ok_0.connection_type == found.connection
            &&& info->Ok_0.content_length == found.length
            &&& info->Ok_0.is_complete <==> (found.length matches Some(n) ==> body.len() >= n)
        }),
{
    let section = headers + line_end() + line_end();
    let r = line + line_end() + headers + line_end() + line_end() + body;
    let h = section + body;
    let n = line.len() as int;
    let m = headers.len() as int;
    assert(r =~= line + line_end() + h);
    assert(r.len() == n + 2 + h.len());
    assert forall|i: int| 0 <= i < n implies !crlf_at(r, i) by {
        assert(r[i] == line[i]);
        if i < n - 1 {
            assert(r[i + 1] == line[i + 1]);
        } else {
            assert(r[i + 1] == 13);
        }
    }
    assert(r[n] == 13 && r[n + 1] == 10);
    lemma_next_crlf(r, 0, n);
    assert(r.subrange(n + 2, r.len() as int) =~= h);
    assert(h[m] == 13 && h[m + 1] == 10 && h[m + 2] == 13 && h[m + 3] == 10);
    assert forall|i: int| 0 <= i < m implies !double_crlf_at(h, i) by {
        assert(!double_crlf_at(section, i));
        assert(forall|j: int| i <= j < i + 4 && j < section.len() ==> h[j] == section[j]);
        assert(section.len() == m + 4);
    }
    lemma_headers_end_at(h, 0, m);
    assert(h.take(m + 4) =~= section);
    law_body_is_no_header(h, m + 2, ParserType::Response);
    assert(h.len() - (m + 4) == body.len());
}

/// What the errors say; one about a length gives it, and one about a status
/// code gives the bytes that stand in its place.
pub proof fn law_parse_error_messages(n: usize, a: u8, b: u8, c: u8)
    ensures
        ParseError::RequestTooShort.text() == "Request too short"@,
        ParseError::NoSpaceAfterMethod.text() == "Invalid request line: no space after method"@,
        ParseError::NoSpaceAfterPath.text() == "Invalid request line: no space after path"@,
        ParseError::MissingHttpVersion.text() == "Invalid request line: missing HTTP version"@,
        ParseError::MalformedHttpVersion.text() == "Invalid request line: malformed HTTP version"@,
        ParseError::MissingCrlf.text() == "Invalid request line: missing CRLF"@,
        ParseError::ResponseTooShort(n).text() == "Response too short: "@ + text::decimal(n as nat)
            + " bytes"@,
        ParseError::StatusLineTooShort(n).text()
            == "Failed to parse status line: Status line too short: "@ + text::decimal(n as nat)
            + " bytes"@,
        ParseError::InvalidVersionPrefix.text()
            == "Failed to parse status line: Invalid HTTP version prefix"@,
        ParseError::NoSpaceAfterVersion.text()
            == "Failed to parse status line: No space found after HTTP version"@,
        ParseError::StatusCodeTooShort(n).text()
            == "Failed to parse status line: Status code section too short: "@ + text::decimal(
            n as nat,
        ) + " bytes remaining"@,
        ParseError::InvalidStatusCode(a, b, c).text()
            == "Failed to parse status line: Invalid status code characters: ["@ + text::decimal(
            a as nat,
        ) + ", "@ + text::decimal(b as nat) + ", "@ + text::decimal(c as nat) + "]"@,
{
}

} // verus!
