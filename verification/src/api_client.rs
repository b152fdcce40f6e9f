//! The HTTP side of the semantic API client.

use vstd::prelude::*;

use crate::web_url::{UrlParts, UrlView};

verus! {

/// Longest response that the client reads, in bytes.
pub const MAX_RESPONSE_BYTES: usize = 1_048_576;

/// What is wrong with an HTTP response.
#[derive(Debug, Clone, Copy, PartialEq, Eq, Structural)]
pub enum HttpError {
    /// The headers do not end.
    HeadersMissing,
    /// The headers are not UTF-8.
    HeadersInvalid,
    /// There is no status line.
    StatusLineMissing,
    /// The status line is empty.
    VersionMissing,
    /// The status line does not start with an HTTP version.
    VersionInvalid,
    /// The status line has no status.
    StatusMissing,
    /// The status is not a number.
    StatusInvalid,
    /// A chunk has no size line.
    ChunkSizeMissing,
    /// A size line is not UTF-8.
    ChunkSizeNotUtf8,
    /// A size is not hexadecimal.
    ChunkSizeInvalid,
    /// A size is too large for this machine.
    ChunkTooLong,
    /// A chunk is shorter than its size.
    ChunkTruncated,
    /// A chunk does not end with a line break.
    ChunkNotTerminated,
    /// The response is longer than the client reads.
    ResponseTooLong,
}

impl HttpError {
    /// The text of the failure.
    pub open spec fn text(self) -> Seq<char> {
        match self {
            HttpError::HeadersMissing => "API response did not contain HTTP headers"@,
            HttpError::HeadersInvalid => "API response headers were invalid"@,
            HttpError::StatusLineMissing => "API response missing status line"@,
            HttpError::VersionMissing => "API response missing HTTP version"@,
            HttpError::VersionInvalid => "API response had invalid HTTP version"@,
            HttpError::StatusMissing => "API response missing HTTP status"@,
            HttpError::StatusInvalid => "API response status was invalid"@,
            HttpError::ChunkSizeMissing => "chunked response missing chunk size"@,
            HttpError::ChunkSizeNotUtf8 => "chunk size was not valid UTF-8"@,
            HttpError::ChunkSizeInvalid => "chunk size was not valid hexadecimal"@,
            HttpError::ChunkTooLong => "chunk length overflow"@,
            HttpError::ChunkTruncated => "chunked response ended before chunk body"@,
            HttpError::ChunkNotTerminated => "chunked response chunk was not terminated"@,
            HttpError::ResponseTooLong => "API response exceeded 1048576 bytes"@,
        }
    }

    /// Returns the text of the failure.
    #[must_use]
    pub fn message(self) -> (r: &'static str)
        ensures
            r@ == self.text(),
    {
        match self {
            HttpError::HeadersMissing => "API response did not contain HTTP headers",
            HttpError::HeadersInvalid => "API response headers were invalid",
            HttpError::StatusLineMissing => "API response missing status line",
            HttpError::VersionMissing => "API response missing HTTP version",
            HttpError::VersionInvalid => "API response had invalid HTTP version",
            HttpError::StatusMissing => "API response missing HTTP status",
            HttpError::StatusInvalid => "API response status was invalid",
            HttpError::ChunkSizeMissing => "chunked response missing chunk size",
            HttpError::ChunkSizeNotUtf8 => "chunk size was not valid UTF-8",
            HttpError::ChunkSizeInvalid => "chunk size was not valid hexadecimal",
            HttpError::ChunkTooLong => "chunk length overflow",
            HttpError::ChunkTruncated => "chunked response ended before chunk body",
            HttpError::ChunkNotTerminated => "chunked response chunk was not terminated",
            HttpError::ResponseTooLong => "API response exceeded 1048576 bytes",
        }
    }
}

/// The bytes that end a line.
pub open spec fn line_break() -> Seq<u8> {
    seq![13u8, 10u8]
}

/// The bytes that end the headers.
pub open spec fn headers_end() -> Seq<u8> {
    seq![13u8, 10u8, 13u8, 10u8]
}

/// Tells whether `s` continues with `mark` at `i`.
pub open spec fn stands_at(s: Seq<u8>, mark: Seq<u8>, i: int) -> bool {
    &&& 0 <= i
    &&& i + mark.len() <= s.len()
    &&& s.subrange(i, i + mark.len()) == mark
}

/// Where `mark` first stands in `s`.
#[verifier::opaque]
pub open spec fn first_mark(s: Seq<u8>, mark: Seq<u8>) -> Option<int> {
    if exists|i: int| stands_at(s, mark, i) {
        Some(
            choose|i: int|
                #![trigger stands_at(s, mark, i)]
                stands_at(s, mark, i) && forall|k: int| k < i ==> !stands_at(s, mark, k),
        )
    } else {
        None
    }
}

proof fn lemma_first_mark(s: Seq<u8>, mark: Seq<u8>, i: int)
    requires
        stands_at(s, mark, i),
        forall|k: int| k < i ==> !stands_at(s, mark, k),
    ensures
        first_mark(s, mark) == Some(i),
{
    reveal(first_mark);
    let j = first_mark(s, mark)->0;
    assert(stands_at(s, mark, i) && forall|k: int| k < i ==> !stands_at(s, mark, k));
    assert(stands_at(s, mark, j) && forall|k: int| k < j ==> !stands_at(s, mark, k));
    if i < j {
        assert(!stands_at(s, mark, i));
    } else if j < i {
        assert(!stands_at(s, mark, j));
    }
}

proof fn lemma_no_mark(s: Seq<u8>, mark: Seq<u8>)
    requires
        forall|k: int| !stands_at(s, mark, k),
    ensures
        first_mark(s, mark) is None,
{
    reveal(first_mark);
}

/// Where a mark first stands in `bytes[from..]`.
fn find_mark(bytes: &[u8], from: usize, mark: &[u8]) -> (r: Option<usize>)
    requires
        from <= bytes@.len(),
    ensures
        match r {
            Some(i) => {
                &&& from <= i
                &&& i + mark@.len() <= bytes@.len()
                &&& first_mark(bytes@.skip(from as int), mark@) == Some(i - from)
            },
            None => first_mark(bytes@.skip(from as int), mark@) is None,
        },
{
    let ghost rest = bytes@.skip(from as int);
    let mut i: usize = from;
    while bytes.len() - i >= mark.len()
        invariant
            from <= i <= bytes@.len(),
            rest == bytes@.skip(from as int),
            forall|k: int| k < i - from ==> !stands_at(rest, mark@, k),
        ensures
            forall|k: int| !stands_at(rest, mark@, k),
        decreases bytes@.len() - i,
    {
        let mut j: usize = 0;
        while j < mark.len() && bytes[i + j] == mark[j]
            invariant
                j <= mark@.len(),
                from <= i,
                i + mark@.len() <= bytes@.len() <= usize::MAX,
                forall|k: int| 0 <= k < j ==> bytes@[i + k] == mark@[k],
            decreases mark@.len() - j,
        {
            j += 1;
        }
        if j == mark.len() {
            proof {
                assert(rest.subrange(i - from, i - from + mark@.len()) =~= mark@);
                lemma_first_mark(rest, mark@, i - from);
            }
            return Some(i);
        }
        proof {
            if stands_at(rest, mark@, i - from) {
                let window = rest.subrange(i - from, i - from + mark@.len());
                assert(window[j as int] == bytes@[i + j]);
            }
        }
        if i == bytes.len() {
            break;
        }
        i += 1;
    }
    proof {
        lemma_no_mark(rest, mark@);
    }
    None
}

/// The status that the headers of a response give.
pub open spec fn status_of(headers: Seq<char>) -> Result<u16, HttpError> {
    let lines = crate::text::text_lines(headers);
    let parts = crate::text::fields(lines[0]);
    if lines.len() == 0 {
        Err(HttpError::StatusLineMissing)
    } else if parts.len() == 0 {
        Err(HttpError::VersionMissing)
    } else if !crate::text::has_prefix(parts[0], "HTTP/"@) {
        Err(HttpError::VersionInvalid)
    } else if parts.len() == 1 {
        Err(HttpError::StatusMissing)
    } else {
        match crate::text::number(parts[1], 10, u16::MAX as nat) {
            Some(status) => Ok(status as u16),
            None => Err(HttpError::StatusInvalid),
        }
    }
}

/// Reads the status of a response.
pub fn parse_status(headers: &str) -> (r: Result<u16, HttpError>)
    ensures
        r == status_of(headers@),
{
    let lines = crate::text::lines(headers);
    let ghost views = crate::text::texts(lines@);
    if lines.len() == 0 {
        return Err(HttpError::StatusLineMissing);
    }
    let parts = crate::text::split_ascii_whitespace(lines[0].as_str());
    proof {
        assert(views[0] == lines@[0]@);
    }
    if parts.len() == 0 {
        return Err(HttpError::VersionMissing);
    }
    proof {
        assert(crate::text::texts(parts@)[0] == parts@[0]@);
    }
    if !crate::text::starts_with(parts[0].as_str(), "HTTP/") {
        return Err(HttpError::VersionInvalid);
    }
    if parts.len() == 1 {
        return Err(HttpError::StatusMissing);
    }
    proof {
        assert(crate::text::texts(parts@)[1] == parts@[1]@);
    }
    match crate::text::parse_u16(parts[1].as_str()) {
        Some(status) => Ok(status),
        None => Err(HttpError::StatusInvalid),
    }
}

/// Tells whether a text, apart from white space and case, reads `chunked`.
pub open spec fn reads_chunked(coding: Seq<char>) -> bool {
    crate::text::lowered(crate::text::trimmed(coding)) == crate::text::lowered("chunked"@)
}

/// Tells whether a header line names the chunked transfer coding.
pub open spec fn names_chunked(line: Seq<char>) -> bool {
    let colon = crate::text::first_where(line, crate::text::just(':'));
    let codings = crate::text::pieces(line.skip(colon + 1), ',');
    &&& 0 <= colon < line.len()
    &&& crate::text::lowered(line.take(colon)) == crate::text::lowered("transfer-encoding"@)
    &&& exists|i: int| 0 <= i < codings.len() && reads_chunked(#[trigger] codings[i])
}

/// Tells whether the body of a response comes in chunks.
pub open spec fn chunked_transfer(headers: Seq<char>) -> bool {
    let lines = crate::text::text_lines(headers);
    exists|i: int| 0 <= i < lines.len() && names_chunked(#[trigger] lines[i])
}

fn line_names_chunked(line: &str) -> (r: bool)
    ensures
        r == names_chunked(line@),
{
    let (name, value) = match crate::text::split_once(line, ':') {
        Some(parts) => parts,
        None => return false,
    };
    if !crate::text::eq_ignore_ascii_case(name.as_str(), "transfer-encoding") {
        return false;
    }
    let codings = crate::text::split(value.as_str(), ',');
    let ghost views = crate::text::texts(codings@);
    let mut i: usize = 0;
    while i < codings.len()
        invariant
            i <= codings@.len(),
            views == crate::text::texts(codings@),
            views == crate::text::pieces(value@, ','),
            ({
                let colon = crate::text::first_where(line@, crate::text::just(':'));
                &&& 0 <= colon < line@.len()
                &&& value@ == line@.skip(colon + 1)
                &&& crate::text::lowered(line@.take(colon)) == crate::text::lowered(
                    "transfer-encoding"@,
                )
            }),
            forall|k: int| 0 <= k < i ==> !reads_chunked(#[trigger] views[k]),
        decreases codings@.len() - i,
    {
        let coding = crate::text::trim(codings[i].as_str());
        proof {
            assert(views[i as int] == codings@[i as int]@);
        }
        if crate::text::eq_ignore_ascii_case(coding.as_str(), "chunked") {
            return true;
        }
        i += 1;
    }
    false
}

/// Returns whether the body of a response comes in chunks.
pub fn has_chunked_transfer(headers: &str) -> (r: bool)
    ensures
        r == chunked_transfer(headers@),
{
    let lines = crate::text::lines(headers);
    let ghost views = crate::text::texts(lines@);
    let mut i: usize = 0;
    while i < lines.len()
        invariant
            i <= lines@.len(),
            views == crate::text::texts(lines@),
            views == crate::text::text_lines(headers@),
            forall|k: int| 0 <= k < i ==> !names_chunked(#[trigger] views[k]),
        decreases lines@.len() - i,
    {
        proof {
            assert(views[i as int] == lines@[i as int]@);
        }
        if line_names_chunked(lines[i].as_str()) {
            return true;
        }
        i += 1;
    }
    false
}

/// The size that a size line gives; what follows a semicolon is ignored.
pub open spec fn chunk_size(line: Seq<u8>) -> Result<nat, HttpError> {
    if !vstd::utf8::valid_utf8(line) {
        Err(HttpError::ChunkSizeNotUtf8)
    } else {
        let digits = crate::text::trimmed(
            crate::text::pieces(vstd::utf8::decode_utf8(line), ';')[0],
        );
        match crate::text::number(digits, 16, usize::MAX as nat) {
            Some(size) => Ok(size),
            None => Err(HttpError::ChunkSizeInvalid),
        }
    }
}

/// The data that a chunked body carries. A chunk is a size line, as many bytes,
/// and a line break; the chunk of size zero is the last, and what follows its
/// size line is ignored.
pub open spec fn chunk_data(body: Seq<u8>) -> Result<Seq<u8>, HttpError>
    decreases body.len(),
{
    match first_mark(body, line_break()) {
        None => Err(HttpError::ChunkSizeMissing),
        Some(end) => {
            let rest = body.skip(end + 2);
            match chunk_size(body.take(end)) {
                Err(error) => Err(error),
                Ok(size) => if size == 0 {
                    Ok(seq![])
                } else if size + 2 > usize::MAX {
                    Err(HttpError::ChunkTooLong)
                } else if rest.len() < size + 2 {
                    Err(HttpError::ChunkTruncated)
                } else if !stands_at(rest, line_break(), size as int) {
                    Err(HttpError::ChunkNotTerminated)
                } else if rest.skip(size as int + 2).len() < body.len() {
                    match chunk_data(rest.skip(size as int + 2)) {
                        Ok(data) => Ok(rest.take(size as int) + data),
                        Err(error) => Err(error),
                    }
                } else {
                    Err(HttpError::ChunkTooLong)
                },
            }
        },
    }
}

/// `data` in front of what the rest of a body carries.
pub open spec fn after(data: Seq<u8>, rest: Result<Seq<u8>, HttpError>) -> Result<
    Seq<u8>,
    HttpError,
> {
    match rest {
        Ok(more) => Ok(data + more),
        Err(error) => Err(error),
    }
}

/// Reads a size line.
fn parse_chunk_size(line: &[u8]) -> (r: Result<usize, HttpError>)
    ensures
        match r {
            Ok(size) => chunk_size(line@) == Ok::<nat, HttpError>(size as nat),
            Err(error) => chunk_size(line@) == Err::<nat, HttpError>(error),
        },
{
    let text = match String::from_utf8(vstd::slice::slice_to_vec(line)) {
        Ok(text) => text,
        Err(_) => return Err(HttpError::ChunkSizeNotUtf8),
    };
    proof {
        vstd::utf8::encode_utf8_decode_utf8(text@);
    }
    let parts = crate::text::split(text.as_str(), ';');
    proof {
        assert(crate::text::texts(parts@)[0] == parts@[0]@);
    }
    let digits = crate::text::trim(parts[0].as_str());
    match crate::text::parse_number(digits.as_str(), 16, usize::MAX as u64) {
        Some(size) => Ok(size as usize),
        None => Err(HttpError::ChunkSizeInvalid),
    }
}

/// Reads the data that a chunked body carries.
pub fn decode_chunked_body(body: &[u8]) -> (r: Result<Vec<u8>, HttpError>)
    ensures
        match r {
            Ok(data) => chunk_data(body@) == Ok::<Seq<u8>, HttpError>(data@),
            Err(error) => chunk_data(body@) == Err::<Seq<u8>, HttpError>(error),
        },
{
    let mark: [u8; 2] = [13, 10];
    let mut output: Vec<u8> = Vec::new();
    let mut from: usize = 0;
    proof {
        assert(body@.skip(0) =~= body@);
        assert(mark@ =~= line_break());
        if let Ok(data) = chunk_data(body@) {
            assert(output@ + data =~= data);
        }
    }
    loop
        invariant
            from <= body@.len(),
            mark@ == line_break(),
            after(output@, chunk_data(body@.skip(from as int))) == chunk_data(body@),
        decreases body@.len() - from,
    {
        let ghost rest = body@.skip(from as int);
        let end = match find_mark(body, from, mark.as_slice()) {
            Some(end) => end,
            None => return Err(HttpError::ChunkSizeMissing),
        };
        proof {
            assert(rest.take(end - from) =~= body@.subrange(from as int, end as int));
            assert(rest.skip(end - from + 2) =~= body@.skip(end + 2));
        }
        let size = match parse_chunk_size(
            vstd::slice::slice_subrange(body, from, end),
        ) {
            Ok(size) => size,
            Err(error) => return Err(error),
        };
        if size == 0 {
            proof {
                assert(output@ + Seq::<u8>::empty() =~= output@);
            }
            return Ok(output);
        }
        if size > usize::MAX - 2 {
            return Err(HttpError::ChunkTooLong);
        }
        let total: usize = body.len();
        let start: usize = end + 2;
        if total - start < size + 2 {
            return Err(HttpError::ChunkTruncated);
        }
        let close: usize = start + size;
        let ghost before = output@;
        output.extend_from_slice(vstd::slice::slice_subrange(body, start, close));
        proof {
            let tail = body@.skip(start as int);
            assert(tail.subrange(size as int, size + 2) =~= body@.subrange(
                close as int,
                close + 2,
            ));
            let window = body@.subrange(close as int, close + 2);
            assert(window[0] == body@[close as int] && window[1] == body@[close + 1]);
            if body@[close as int] == 13 && body@[close + 1] == 10 {
                assert(window =~= line_break());
            }
        }
        if body[close] != 13 || body[close + 1] != 10 {
            return Err(HttpError::ChunkNotTerminated);
        }
        proof {
            let tail = body@.skip(start as int);
            assert(tail.skip(size + 2) =~= body@.skip(close + 2));
            assert(tail.take(size as int) =~= body@.subrange(start as int, close as int));
            assert(output@ =~= before + tail.take(size as int));
            if let Ok(data) = chunk_data(body@.skip(close + 2)) {
                assert(before + (tail.take(size as int) + data) =~= output@ + data);
            }
        }
        from = close + 2;
    }
}

/// A response by its status and its body.
#[derive(Debug, Clone, PartialEq, Eq)]
pub struct ParsedHttpResponse {
    /// Status code.
    pub status: u16,
    /// Body, without its transfer coding.
    pub body: Vec<u8>,
}

/// The status and the body that a response carries.
pub open spec fn response_of(response: Seq<u8>) -> Result<(u16, Seq<u8>), HttpError> {
    match first_mark(response, headers_end()) {
        None => Err(HttpError::HeadersMissing),
        Some(end) => {
            let head = response.take(end);
            let body = response.skip(end + 4);
            let headers = vstd::utf8::decode_utf8(head);
            if !vstd::utf8::valid_utf8(head) {
                Err(HttpError::HeadersInvalid)
            } else {
                match status_of(headers) {
                    Err(error) => Err(error),
                    Ok(status) => if chunked_transfer(headers) {
                        match chunk_data(body) {
                            Ok(data) => Ok((status, data)),
                            Err(error) => Err(error),
                        }
                    } else {
                        Ok((status, body))
                    },
                }
            }
        },
    }
}

/// Reads the status and the body of a response.
pub fn parse_http_response(response: &[u8]) -> (r: Result<ParsedHttpResponse, HttpError>)
    ensures
        match r {
            Ok(parsed) => response_of(response@) == Ok::<(u16, Seq<u8>), HttpError>(
                (parsed.status, parsed.body@),
            ),
            Err(error) => response_of(response@) == Err::<(u16, Seq<u8>), HttpError>(error),
        },
{
    let mark: [u8; 4] = [13, 10, 13, 10];
    proof {
        assert(mark@ =~= headers_end());
        assert(response@.skip(0) =~= response@);
    }
    let end = match find_mark(response, 0, mark.as_slice()) {
        Some(end) => end,
        None => return Err(HttpError::HeadersMissing),
    };
    let total: usize = response.len();
    let head = vstd::slice::slice_subrange(response, 0, end);
    let body = vstd::slice::slice_subrange(response, end + 4, total);
    proof {
        assert(head@ =~= response@.take(end as int));
        assert(body@ =~= response@.skip(end + 4));
    }
    let headers = match String::from_utf8(vstd::slice::slice_to_vec(head)) {
        Ok(headers) => headers,
        Err(_) => return Err(HttpError::HeadersInvalid),
    };
    proof {
        vstd::utf8::encode_utf8_decode_utf8(headers@);
    }
    let status = match parse_status(headers.as_str()) {
        Ok(status) => status,
        Err(error) => return Err(error),
    };
    let body = if has_chunked_transfer(headers.as_str()) {
        match decode_chunked_body(body) {
            Ok(data) => data,
            Err(error) => return Err(error),
        }
    } else {
        vstd::slice::slice_to_vec(body)
    };
    Ok(ParsedHttpResponse { status, body })
}

/// Tells whether `r` and `after` are what comes of adding `bytes` to the response `before`.
pub open spec fn extended(
    before: Seq<u8>,
    bytes: Seq<u8>,
    after: Seq<u8>,
    r: Result<(), HttpError>,
) -> bool {
    match r {
        Ok(_) => {
            &&& before.len() + bytes.len() <= MAX_RESPONSE_BYTES
            &&& after == before + bytes
        },
        Err(error) => {
            &&& before.len() + bytes.len() > MAX_RESPONSE_BYTES
            &&& error == HttpError::ResponseTooLong
            &&& after == before
        },
    }
}

/// Adds what was read to a response. A response that grows too long is refused
/// and left as it is.
pub fn extend_response(output: &mut Vec<u8>, bytes: &[u8]) -> (r: Result<(), HttpError>)
    ensures
        extended(old(output)@, bytes@, final(output)@, r),
{
    if output.len() > MAX_RESPONSE_BYTES || bytes.len() > MAX_RESPONSE_BYTES - output.len() {
        return Err(HttpError::ResponseTooLong);
    }
    output.extend_from_slice(bytes);
    proof {
        assert(output@ =~= old(output)@ + bytes@);
    }
    Ok(())
}

/// Why an API call failed.
#[derive(Debug, Clone, PartialEq, Eq)]
pub enum ApiCallError {
    /// The response is no HTTP response.
    Http(HttpError),
    /// The server refused the request.
    Refused {
        /// Status code.
        status: u16,
        /// Body of the response.
        body: Vec<u8>,
    },
    /// The body of the response is not UTF-8.
    BodyNotUtf8,
}

/// Tells whether `r` is what a call reports that was answered with `response`.
pub open spec fn reported(response: Seq<u8>, r: Result<String, ApiCallError>) -> bool {
    match response_of(response) {
        Err(error) => r == Err::<String, ApiCallError>(ApiCallError::Http(error)),
        Ok((status, body)) => if !(200 <= status < 300) {
            r matches Err(ApiCallError::Refused { status: code, body: data }) && code == status
                && data@ == body
        } else if vstd::utf8::valid_utf8(body) {
            r matches Ok(text) && text@ == vstd::utf8::decode_utf8(body)
        } else {
            r matches Err(ApiCallError::BodyNotUtf8)
        },
    }
}

/// Returns the body of a response that reports success.
pub fn response_text(response: &[u8]) -> (r: Result<String, ApiCallError>)
    ensures
        reported(response@, r),
{
    let parsed = match parse_http_response(response) {
        Ok(parsed) => parsed,
        Err(error) => return Err(ApiCallError::Http(error)),
    };
    if parsed.status < 200 || parsed.status >= 300 {
        return Err(ApiCallError::Refused { status: parsed.status, body: parsed.body });
    }
    match String::from_utf8(parsed.body) {
        Ok(text) => {
            proof {
                vstd::utf8::encode_utf8_decode_utf8(text@);
            }
            Ok(text)
        },
        Err(_) => Err(ApiCallError::BodyNotUtf8),
    }
}

/// The target of a request: path and query.
pub open spec fn target_text(path: Seq<char>, query: Option<Seq<char>>) -> Seq<char> {
    match query {
        Some(query) => path + "?"@ + query,
        None => path,
    }
}

/// Returns the target of a request.
pub fn request_target(path: &str, query: Option<&str>) -> (r: String)
    ensures
        r@ == target_text(
            path@,
            match query {
                Some(query) => Some(query@),
                None => None,
            },
        ),
{
    match query {
        Some(query) => {
            let mut target = path.to_owned();
            target.append("?");
            target.append(query);
            target
        },
        None => path.to_owned(),
    }
}

/// Host of a server.
#[derive(Debug, Clone, PartialEq, Eq)]
pub enum ApiHost {
    /// By name.
    Domain(String),
    /// By version 4 address.
    Ipv4([u8; 4]),
    /// By version 6 address, in its text form without brackets.
    Ipv6(String),
}

/// A host, as values.
pub enum HostView {
    /// By name.
    Domain(Seq<char>),
    /// By version 4 address.
    Ipv4(Seq<u8>),
    /// By version 6 address.
    Ipv6(Seq<char>),
}

impl View for ApiHost {
    type V = HostView;

    open spec fn view(&self) -> HostView {
        match self {
            ApiHost::Domain(name) => HostView::Domain(name@),
            ApiHost::Ipv4(octets) => HostView::Ipv4(octets@),
            ApiHost::Ipv6(text) => HostView::Ipv6(text@),
        }
    }
}

/// Where a request goes.
#[derive(Debug, Clone, PartialEq, Eq)]
pub struct ApiTarget {
    /// Host.
    pub host: ApiHost,
    /// Port.
    pub port: u16,
    /// Target of the request: path and query.
    pub target: String,
}

/// Why a URL names no place for a request.
#[derive(Debug, Clone, Copy, PartialEq, Eq, Structural)]
pub enum TargetError {
    /// No host.
    HostMissing,
    /// No port.
    PortMissing,
}

impl TargetError {
    /// The text of the failure.
    pub open spec fn text(self) -> Seq<char> {
        match self {
            TargetError::HostMissing => "API URL missing host"@,
            TargetError::PortMissing => "API URL missing port"@,
        }
    }

    /// Returns the text of the failure.
    #[must_use]
    pub fn message(self) -> (r: &'static str)
        ensures
            r@ == self.text(),
    {
        match self {
            TargetError::HostMissing => "API URL missing host",
            TargetError::PortMissing => "API URL missing port",
        }
    }
}

/// Tells whether `r` is where a request to `url`, with the host `host`, goes.
pub open spec fn targeted(
    host: Option<HostView>,
    url: UrlView,
    r: Result<ApiTarget, TargetError>,
) -> bool {
    match (host, url.port) {
        (None, _) => r == Err::<ApiTarget, TargetError>(TargetError::HostMissing),
        (Some(_), None) => r == Err::<ApiTarget, TargetError>(TargetError::PortMissing),
        (Some(host), Some(port)) => {
            &&& r matches Ok(place)
            &&& place.host@ == host
            &&& place.port == port
            &&& place.target@ == target_text(url.path, url.query)
        },
    }
}

/// Returns where a request to a URL goes.
pub fn endpoint_target(url: &UrlParts) -> (r: Result<ApiTarget, TargetError>)
    ensures
        targeted(crate::web_url::url_host(url@.text), url@, r),
{
    target_with_host(crate::web_url::host_of_url(url.text.as_str()), url)
}

/// Returns where a request to a URL goes that has the host `host`.
pub fn target_with_host(host: Option<ApiHost>, url: &UrlParts) -> (r: Result<
    ApiTarget,
    TargetError,
>)
    ensures
        targeted(
            match host {
                Some(host) => Some(host@),
                None => None,
            },
            url@,
            r,
        ),
{
    let host = match host {
        Some(host) => host,
        None => return Err(TargetError::HostMissing),
    };
    let port = match url.port {
        Some(port) => port,
        None => return Err(TargetError::PortMissing),
    };
    let query = match &url.query {
        Some(query) => Some(query.as_str()),
        None => None,
    };
    Ok(ApiTarget { host, port, target: request_target(url.path.as_str(), query) })
}

/// The text by which a connection to a host is made.
pub open spec fn host_text(host: ApiHost) -> Seq<char> {
    match host {
        ApiHost::Domain(name) => name@,
        ApiHost::Ipv4(octets) => crate::net::dotted(octets@),
        ApiHost::Ipv6(text) => text@,
    }
}

/// Returns the text by which a connection to a host is made.
pub fn connect_host(host: &ApiHost) -> (r: String)
    ensures
        r@ == host_text(*host),
{
    match host {
        ApiHost::Domain(name) => name.clone(),
        ApiHost::Ipv4(octets) => crate::net::dotted_text(octets),
        ApiHost::Ipv6(text) => text.clone(),
    }
}

/// The `Host` header for a host and a port. A version 6 address stands in brackets.
pub open spec fn host_header_text(host: ApiHost, port: u16) -> Seq<char> {
    (if host is Ipv6 {
        "["@ + host_text(host) + "]"@
    } else {
        host_text(host)
    }) + ":"@ + crate::text::decimal_text(port as nat)
}

/// Returns the `Host` header for a host and a port. A version 6 address stands in
/// brackets.
pub fn host_header(host: &ApiHost, port: u16) -> (r: String)
    ensures
        r@ == host_header_text(*host, port),
{
    let bracketed = matches!(host, ApiHost::Ipv6(_));
    let mut text = String::new();
    if bracketed {
        text.append("[");
    }
    text.append(connect_host(host).as_str());
    if bracketed {
        text.append("]");
    }
    proof {
        assert(text@ =~= if host is Ipv6 {
            "["@ + host_text(*host) + "]"@
        } else {
            host_text(*host)
        });
    }
    text.append(":");
    text.append(crate::text::decimal(port as u64).as_str());
    text
}

/// A request that posts JSON: its head tells how many bytes follow it, and that
/// no other request does.
pub open spec fn post_text(target: Seq<char>, host: Seq<char>, body: Seq<char>) -> Seq<char> {
    "POST "@ + target + " HTTP/1.1\r\nHost: "@ + host
        + "\r\nContent-Type: application/json\r\nContent-Length: "@ + crate::text::decimal_text(
        crate::text::byte_len(body),
    ) + "\r\nConnection: close\r\n\r\n"@ + body
}

/// Returns a request that posts JSON.
pub fn post_request(target: &str, host: &str, body: &str) -> (r: String)
    ensures
        r@ == post_text(target@, host@, body@),
{
    let mut request = String::from_str("POST ");
    request.append(target);
    request.append(" HTTP/1.1\r\nHost: ");
    request.append(host);
    request.append("\r\nContent-Type: application/json\r\nContent-Length: ");
    request.append(crate::text::decimal(body.as_bytes().len() as u64).as_str());
    request.append("\r\nConnection: close\r\n\r\n");
    request.append(body);
    request
}

/// `n` in hexadecimal.
pub open spec fn hex_digits(n: nat) -> Seq<char>
    decreases n,
{
    let digit = crate::protocol::nibble_char(n as int % 16);
    if n < 16 {
        seq![digit]
    } else {
        hex_digits(n / 16).push(digit)
    }
}

/// A chunk that carries `data`.
pub open spec fn chunk(data: Seq<u8>) -> Seq<u8> {
    vstd::utf8::encode_utf8(hex_digits(data.len())) + line_break() + data + line_break()
}

/// A chunked body that carries `parts`, one by one.
pub open spec fn chunked(parts: Seq<Seq<u8>>) -> Seq<u8>
    decreases parts.len(),
{
    if parts.len() == 0 {
        vstd::utf8::encode_utf8(hex_digits(0)) + line_break()
    } else {
        chunk(parts[0]) + chunked(parts.drop_first())
    }
}

/// All of `parts`, one behind the other.
pub open spec fn together(parts: Seq<Seq<u8>>) -> Seq<u8>
    decreases parts.len(),
{
    if parts.len() == 0 {
        seq![]
    } else {
        parts[0] + together(parts.drop_first())
    }
}

/// A character that a hexadecimal number holds.
spec fn hex_char(c: char) -> bool {
    '0' <= c <= '9' || 'a' <= c <= 'f'
}

proof fn lemma_hex_digits(n: nat)
    ensures
        hex_digits(n).len() > 0,
        forall|i: int| 0 <= i < hex_digits(n).len() ==> hex_char(#[trigger] hex_digits(n)[i]),
        crate::text::digits_value(hex_digits(n), 16) == Some(n),
    decreases n,
{
    reveal_with_fuel(crate::text::digits_value, 2);
    let s = hex_digits(n);
    if n < 16 {
        assert(s.drop_last() =~= seq![]);
    } else {
        lemma_hex_digits(n / 16);
        assert(s.drop_last() =~= hex_digits(n / 16));
        assert forall|i: int| 0 <= i < s.len() implies hex_char(#[trigger] s[i]) by {
            if i < s.len() - 1 {
                assert(s[i] == hex_digits(n / 16)[i]);
            }
        }
    }
}

proof fn lemma_size_line(n: nat)
    requires
        n <= usize::MAX,
    ensures
        chunk_size(vstd::utf8::encode_utf8(hex_digits(n))) == Ok::<nat, HttpError>(n),
        forall|i: int|
            0 <= i < vstd::utf8::encode_utf8(hex_digits(n)).len()
                ==> #[trigger] vstd::utf8::encode_utf8(hex_digits(n))[i] != 13,
{
    let s = hex_digits(n);
    lemma_hex_digits(n);
    assert(vstd::utf8::is_ascii_chars(s));
    vstd::utf8::is_ascii_chars_encode_utf8(s);
    vstd::utf8::encode_utf8_valid_utf8(s);
    vstd::utf8::encode_utf8_decode_utf8(s);
    assert forall|i: int| 0 <= i < s.len() implies !crate::text::just(';')(#[trigger] s[i]) by {
        assert(hex_char(s[i]));
    }
    crate::text::lemma_first_where(s, crate::text::just(';'), s.len() as int);
    assert(hex_char(s[0]));
    assert(hex_char(s.last()));
    assert(crate::text::without_leading(s, crate::text::space()) == s);
    assert(crate::text::trimmed(s) == s);
    assert forall|i: int| 0 <= i < s.len() implies #[trigger] vstd::utf8::encode_utf8(s)[i]
        != 13 by {
        assert(hex_char(s[i]));
        let code = s[i] as u32;
        assert(s[i] as u8 == code as u8);
        assert(code as u8 != 13) by (bit_vector)
            requires
                48 <= code <= 57 || 97 <= code <= 102,
        ;
    }
}

proof fn lemma_line_ends(line: Seq<u8>, rest: Seq<u8>)
    requires
        forall|i: int| 0 <= i < line.len() ==> #[trigger] line[i] != 13,
    ensures
        first_mark(line + line_break() + rest, line_break()) == Some(line.len() as int),
{
    let s = line + line_break() + rest;
    let n = line.len() as int;
    assert(s.subrange(n, n + 2) =~= line_break());
    assert forall|k: int| k < n implies !stands_at(s, line_break(), k) by {
        if stands_at(s, line_break(), k) {
            assert(s.subrange(k, k + 2)[0] == s[k]);
            assert(s[k] == line[k]);
        }
    }
    lemma_first_mark(s, line_break(), n);
}

/// What was sent in chunks is read back, whatever follows the last chunk.
pub proof fn law_chunks_round_trip(parts: Seq<Seq<u8>>, trailer: Seq<u8>)
    requires
        forall|i: int| 0 <= i < parts.len() ==> 0 < (#[trigger] parts[i]).len() <= usize::MAX - 2,
    ensures
        chunk_data(chunked(parts) + trailer) == Ok::<Seq<u8>, HttpError>(together(parts)),
    decreases parts.len(),
{
    let body = chunked(parts) + trailer;
    if parts.len() == 0 {
        let line = vstd::utf8::encode_utf8(hex_digits(0));
        lemma_size_line(0);
        lemma_line_ends(line, trailer);
        assert(body =~= line + line_break() + trailer);
        assert(body.take(line.len() as int) =~= line);
    } else {
        let data = parts[0];
        let size = data.len() as int;
        let line = vstd::utf8::encode_utf8(hex_digits(data.len()));
        let tail = chunked(parts.drop_first()) + trailer;
        assert forall|i: int| 0 <= i < parts.drop_first().len() implies 0 < (
        #[trigger] parts.drop_first()[i]).len() <= usize::MAX - 2 by {
            assert(parts.drop_first()[i] == parts[i + 1]);
        }
        law_chunks_round_trip(parts.drop_first(), trailer);
        lemma_size_line(data.len());
        let rest = data + line_break() + tail;
        lemma_line_ends(line, rest);
        assert(body =~= line + line_break() + rest);
        assert(body.take(line.len() as int) =~= line);
        assert(body.skip(line.len() as int + 2) =~= rest);
        assert(rest.subrange(size, size + 2) =~= line_break());
        assert(rest.skip(size + 2) =~= tail);
        assert(rest.take(size) =~= data);
    }
}

proof fn lemma_no_break_at(line: Seq<u8>, cut: Seq<u8>, k: int)
    requires
        forall|i: int| 0 <= i < line.len() ==> #[trigger] line[i] != 13,
        cut.len() < line.len() + 2,
        forall|i: int| 0 <= i < line.len() && i < cut.len() ==> #[trigger] cut[i] == line[i],
    ensures
        !stands_at(cut, line_break(), k),
{
    if stands_at(cut, line_break(), k) {
        assert(cut.subrange(k, k + 2)[0] == cut[k]);
        assert(cut[k] == line[k]);
        assert(line_break()[0] == 13);
    }
}

proof fn lemma_line_is_cut(line: Seq<u8>, cut: Seq<u8>)
    requires
        forall|i: int| 0 <= i < line.len() ==> #[trigger] line[i] != 13,
        cut.len() < line.len() + 2,
        forall|i: int| 0 <= i < line.len() && i < cut.len() ==> #[trigger] cut[i] == line[i],
    ensures
        first_mark(cut, line_break()) is None,
{
    assert forall|k: int| !stands_at(cut, line_break(), k) by {
        lemma_no_break_at(line, cut, k);
    }
    lemma_no_mark(cut, line_break());
}

/// A chunked body that is cut short anywhere is refused.
pub proof fn law_cut_chunks_are_refused(parts: Seq<Seq<u8>>, n: int)
    requires
        forall|i: int| 0 <= i < parts.len() ==> 0 < (#[trigger] parts[i]).len() <= usize::MAX - 2,
        0 <= n < chunked(parts).len(),
    ensures
        chunk_data(chunked(parts).take(n)) is Err,
    decreases parts.len(),
{
    let body = chunked(parts);
    let cut = body.take(n);
    if parts.len() == 0 {
        let line = vstd::utf8::encode_utf8(hex_digits(0));
        lemma_size_line(0);
        lemma_line_is_cut(line, cut);
    } else {
        let data = parts[0];
        let size = data.len() as int;
        let line = vstd::utf8::encode_utf8(hex_digits(data.len()));
        let tail = chunked(parts.drop_first());
        let rest = data + line_break() + tail;
        let start = line.len() as int + 2;
        lemma_size_line(data.len());
        assert(body =~= line + line_break() + rest);
        if n < start {
            lemma_line_is_cut(line, cut);
        } else {
            let left = rest.take(n - start);
            assert(cut =~= line + line_break() + left);
            lemma_line_ends(line, left);
            assert(cut.take(line.len() as int) =~= line);
            assert(cut.skip(start) =~= left);
            if left.len() >= size + 2 {
                assert forall|i: int| 0 <= i < parts.drop_first().len() implies 0 < (
                #[trigger] parts.drop_first()[i]).len() <= usize::MAX - 2 by {
                    assert(parts.drop_first()[i] == parts[i + 1]);
                }
                law_cut_chunks_are_refused(parts.drop_first(), n - start - size - 2);
                assert(left.skip(size + 2) =~= tail.take(n - start - size - 2));
            }
        }
    }
}

/// A status line starts with an HTTP version, behind which the status stands as a number. A
/// reason may follow.
pub proof fn law_status_line_is_read(
    version: Seq<char>,
    status: u16,
    reason: Seq<char>,
    rest: Seq<char>,
)
    requires
        !version.contains(' '),
        !version.contains('\t'),
        !version.contains('\n'),
        !version.contains('\u{c}'),
        !version.contains('\r'),
        !reason.contains('\n'),
    ensures
        status_of(
            "HTTP/"@ + version + seq![' '] + crate::text::decimal_text(status as nat) + seq![' ']
                + reason + seq!['\r', '\n'] + rest,
        ) == Ok::<u16, HttpError>(status),
{
    reveal_strlit("HTTP/");
    let first = "HTTP/"@ + version;
    let second = crate::text::decimal_text(status as nat);
    let line = first + seq![' '] + second + seq![' '] + reason;
    let headers = line + seq!['\r', '\n'] + rest;
    crate::text::lemma_decimal_is_a_field(status as nat);
    assert forall|i: int| 0 <= i < second.len() implies second[i] != ' ' && second[i] != '\t'
        && second[i] != '\n' && second[i] != '\u{c}' && second[i] != '\r' by {
        assert(!crate::text::ascii_space()(second[i]));
    }
    assert forall|i: int| 0 <= i < first.len() implies first[i] != ' ' && first[i] != '\t'
        && first[i] != '\n' && first[i] != '\u{c}' && first[i] != '\r' by {
        if i >= 5 {
            assert(first[i] == version[i - 5]);
            assert(version.contains(version[i - 5]));
        }
    }
    assert(!line.contains('\n')) by {
        if line.contains('\n') {
            let i = line.index_of('\n');
            let n = first.len() as int;
            let m = second.len() as int;
            assert(line[i] == '\n');
            if i >= n + m + 2 {
                assert(line[i] == reason[i - n - m - 2]);
                assert(reason.contains('\n'));
            } else if i > n && i < n + 1 + m {
                assert(line[i] == second[i - n - 1]);
            } else if i < n {
                assert(line[i] == first[i]);
            }
        }
    }
    crate::text::law_lines_end_with_line_feeds(line, rest);
    crate::text::law_fields_stand_between_white_space(
        first,
        ' ',
        second + seq![' '] + reason,
    );
    crate::text::law_fields_stand_between_white_space(second, ' ', reason);
    assert(line =~= first + seq![' '] + (second + seq![' '] + reason));
    assert(first.take(5) =~= "HTTP/"@);
    crate::text::law_decimal_round_trip(status as nat, u16::MAX as nat);
    assert(headers =~= "HTTP/"@ + version + seq![' '] + second + seq![' '] + reason + seq![
        '\r',
        '\n',
    ] + rest);
}

/// A response is cut at its first empty line. What stands before it tells the status, and
/// what stands behind it is the body, which is kept as it is unless it comes in chunks.
pub proof fn law_response_is_cut_at_the_empty_line(
    head: Seq<char>,
    body: Seq<u8>,
    parts: Seq<Seq<u8>>,
)
    requires
        forall|k: int|
            #![trigger vstd::utf8::encode_utf8(head)[k]]
            0 <= k < vstd::utf8::encode_utf8(head).len() ==> {
                let bytes = vstd::utf8::encode_utf8(head) + seq![13u8, 10u8, 13u8, 10u8];
                !(bytes[k] == 13 && bytes[k + 1] == 10 && bytes[k + 2] == 13 && bytes[k + 3] == 10)
            },
        forall|i: int| 0 <= i < parts.len() ==> 0 < (#[trigger] parts[i]).len() <= usize::MAX - 2,
    ensures
        ({
            let front = vstd::utf8::encode_utf8(head) + seq![13u8, 10u8, 13u8, 10u8];
            match status_of(head) {
                Ok(status) => {
                    &&& !chunked_transfer(head) ==> response_of(front + body) == Ok::<
                        (u16, Seq<u8>),
                        HttpError,
                    >((status, body))
                    &&& chunked_transfer(head) ==> response_of(front + chunked(parts)) == Ok::<
                        (u16, Seq<u8>),
                        HttpError,
                    >((status, together(parts)))
                },
                Err(error) => response_of(front + body) == Err::<(u16, Seq<u8>), HttpError>(error),
            }
        }),
{
    lemma_head_ends(head, body);
    lemma_head_ends(head, chunked(parts));
    law_chunks_round_trip(parts, seq![]);
    assert(chunked(parts) + Seq::<u8>::empty() =~= chunked(parts));
    vstd::utf8::encode_utf8_valid_utf8(head);
    vstd::utf8::encode_utf8_decode_utf8(head);
}

proof fn lemma_head_ends(head: Seq<char>, body: Seq<u8>)
    requires
        forall|k: int|
            #![trigger vstd::utf8::encode_utf8(head)[k]]
            0 <= k < vstd::utf8::encode_utf8(head).len() ==> {
                let bytes = vstd::utf8::encode_utf8(head) + seq![13u8, 10u8, 13u8, 10u8];
                !(bytes[k] == 13 && bytes[k + 1] == 10 && bytes[k + 2] == 13 && bytes[k + 3] == 10)
            },
    ensures
        ({
            let front = vstd::utf8::encode_utf8(head);
            let s = front + seq![13u8, 10u8, 13u8, 10u8] + body;
            &&& first_mark(s, headers_end()) == Some(front.len() as int)
            &&& s.take(front.len() as int) == front
            &&& s.skip(front.len() as int + 4) == body
        }),
{
    let front = vstd::utf8::encode_utf8(head);
    let bytes = front + seq![13u8, 10u8, 13u8, 10u8];
    let s = bytes + body;
    let n = front.len() as int;
    assert(s.subrange(n, n + 4) =~= headers_end());
    assert forall|k: int| k < n implies !stands_at(s, headers_end(), k) by {
        if stands_at(s, headers_end(), k) {
            let window = s.subrange(k, k + 4);
            assert(window[0] == 13 && window[1] == 10 && window[2] == 13 && window[3] == 10);
            assert(window[0] == s[k] && window[1] == s[k + 1]);
            assert(window[2] == s[k + 2] && window[3] == s[k + 3]);
            assert(bytes[k] == s[k] && bytes[k + 1] == s[k + 1]);
            assert(bytes[k + 2] == s[k + 2] && bytes[k + 3] == s[k + 3]);
            assert(front[k] == bytes[k]);
        }
    }
    lemma_first_mark(s, headers_end(), n);
    assert(s.take(n) =~= front);
    assert(s.skip(n + 4) =~= body);
}

proof fn lemma_lower_literals()
    ensures
        crate::text::lowered("transfer-encoding"@) == "transfer-encoding"@,
        crate::text::lowered("chunked"@) == "chunked"@,
{
    reveal_strlit("transfer-encoding");
    reveal_strlit("chunked");
    assert(crate::text::lowered("transfer-encoding"@) =~= "transfer-encoding"@);
    assert(crate::text::lowered("chunked"@) =~= "chunked"@);
}

proof fn lemma_colon(name: Seq<char>, value: Seq<char>)
    requires
        !name.contains(':'),
    ensures
        ({
            let line = name + seq![':'] + value;
            let n = name.len() as int;
            &&& crate::text::first_where(line, crate::text::just(':')) == n
            &&& crate::text::first_where(name, crate::text::just(':')) == n
            &&& line.take(n) == name
            &&& line.skip(n + 1) == value
        }),
{
    let line = name + seq![':'] + value;
    let n = name.len() as int;
    let p = crate::text::just(':');
    assert forall|k: int| 0 <= k < n implies !p(#[trigger] name[k]) by {
        assert(name.contains(name[k]));
    }
    assert forall|k: int| 0 <= k < n implies !p(#[trigger] line[k]) by {
        assert(line[k] == name[k]);
    }
    crate::text::lemma_first_where(line, p, n);
    crate::text::lemma_first_where(name, p, n);
    assert(line.take(n) =~= name);
    assert(line.skip(n + 1) =~= value);
}

/// A response comes in chunks where a header says so, in whatever case, with white space
/// around it, alone or among other codings.
pub proof fn law_chunked_coding_is_recognised(
    name: Seq<char>,
    coding: Seq<char>,
    others: Seq<char>,
)
    requires
        !name.contains(':'),
        !coding.contains(','),
    ensures
        crate::text::lowered(name) != "transfer-encoding"@ ==> !names_chunked(
            name + seq![':'] + coding,
        ),
        !names_chunked(name),
        crate::text::lowered(name) == "transfer-encoding"@ ==> {
            &&& names_chunked(name + seq![':'] + coding) <==> crate::text::lowered(
                crate::text::trimmed(coding),
            ) == "chunked"@
            &&& names_chunked(name + seq![':'] + (coding + seq![','] + others)) <==> {
                ||| names_chunked(name + seq![':'] + coding)
                ||| names_chunked(name + seq![':'] + others)
            }
        },
{
    lemma_lower_literals();
    lemma_colon(name, coding);
    lemma_colon(name, others);
    lemma_colon(name, coding + seq![','] + others);
    crate::text::law_pieces_are_cut_at_each_mark(coding, others, ',');
    let first = crate::text::pieces(coding, ',');
    let later = crate::text::pieces(others, ',');
    let all = crate::text::pieces(coding + seq![','] + others, ',');
    assert(first[0] == coding && all[0] == coding);
    assert(forall|i: int| 0 <= i < later.len() ==> later[i] == #[trigger] all[i + 1]);
    assert forall|i: int| 0 < i < all.len() implies all[i] == #[trigger] later[i - 1] by {}
    assert(names_chunked(name + seq![':'] + coding) ==> reads_chunked(first[0]));
    if exists|i: int| 0 <= i < later.len() && reads_chunked(#[trigger] later[i]) {
        let i = choose|i: int| 0 <= i < later.len() && reads_chunked(#[trigger] later[i]);
        assert(reads_chunked(all[i + 1]));
    }
    if exists|i: int| 0 <= i < all.len() && reads_chunked(#[trigger] all[i]) {
        let i = choose|i: int| 0 <= i < all.len() && reads_chunked(#[trigger] all[i]);
        if i > 0 {
            assert(reads_chunked(later[i - 1]));
        }
    }
}

/// A header anywhere among the others tells that the body comes in chunks.
pub proof fn law_any_header_counts(line: Seq<char>, rest: Seq<char>)
    requires
        !line.contains('\n'),
    ensures
        chunked_transfer(line + seq!['\r', '\n'] + rest) <==> names_chunked(line)
            || chunked_transfer(rest),
{
    crate::text::law_lines_end_with_line_feeds(line, rest);
    let later = crate::text::text_lines(rest);
    let all = crate::text::text_lines(line + seq!['\r', '\n'] + rest);
    assert(all[0] == line);
    if chunked_transfer(rest) {
        let i = choose|i: int| 0 <= i < later.len() && names_chunked(#[trigger] later[i]);
        assert(names_chunked(all[i + 1]));
    }
    if chunked_transfer(line + seq!['\r', '\n'] + rest) {
        let i = choose|i: int| 0 <= i < all.len() && names_chunked(#[trigger] all[i]);
        if i > 0 {
            assert(names_chunked(later[i - 1]));
        }
    }
}

/// A call reports the text of the body where the status is one of success, 200 to 299, and
/// what the server answered where it is not.
pub proof fn law_success_is_two_hundred(
    response: Seq<u8>,
    status: u16,
    body: Seq<char>,
    r: Result<String, ApiCallError>,
)
    requires
        response_of(response) == Ok::<(u16, Seq<u8>), HttpError>(
            (status, vstd::utf8::encode_utf8(body)),
        ),
        reported(response, r),
    ensures
        r is Ok <==> 200 <= status <= 299,
        r matches Ok(text) ==> text@ == body,
        r matches Err(error) ==> {
            &&& error matches ApiCallError::Refused { status: code, body: data }
            &&& code == status
            &&& data@ == vstd::utf8::encode_utf8(body)
        },
{
    vstd::utf8::encode_utf8_valid_utf8(body);
    vstd::utf8::encode_utf8_decode_utf8(body);
}

/// A response is read up to a mebibyte, and what was read stays in order.
pub proof fn law_response_is_read_up_to_a_limit(
    before: Seq<u8>,
    bytes: Seq<u8>,
    after: Seq<u8>,
    r: Result<(), HttpError>,
)
    requires
        extended(before, bytes, after, r),
    ensures
        r is Ok <==> before.len() + bytes.len() <= 1024 * 1024,
        r is Ok ==> after == before + bytes,
        r is Err ==> after == before,
        r is Err ==> r->Err_0 is ResponseTooLong,
{
}

/// A request asks for the path, and for the query behind a question mark where there is one.
pub proof fn law_target_holds_path_and_query(path: Seq<char>, query: Seq<char>)
    ensures
        target_text(path, None) == path,
        target_text(path, Some(query)) == path + seq!['?'] + query,
{
    reveal_strlit("?");
    assert("?"@ =~= seq!['?']);
}

/// A host is named with its port behind the last colon, and a version 6 address, which holds
/// colons of its own, stands in brackets.
pub proof fn law_host_is_named_with_its_port(host: ApiHost, port: u16)
    ensures
        match host {
            ApiHost::Domain(name) => host_header_text(host, port) == name@ + seq![':']
                + crate::text::decimal_text(port as nat),
            ApiHost::Ipv4(octets) => host_header_text(host, port) == crate::net::dotted(octets@)
                + seq![':'] + crate::text::decimal_text(port as nat),
            ApiHost::Ipv6(text) => host_header_text(host, port) == seq!['['] + text@ + seq![
                ']',
                ':',
            ] + crate::text::decimal_text(port as nat),
        },
        match host {
            ApiHost::Domain(name) => host_text(host) == name@,
            ApiHost::Ipv4(octets) => host_text(host) == crate::net::dotted(octets@),
            ApiHost::Ipv6(text) => host_text(host) == text@,
        },
{
    reveal_strlit(":");
    reveal_strlit("[");
    reveal_strlit("]");
    assert(":"@ =~= seq![':']);
    if let ApiHost::Ipv6(text) = host {
        assert(host_header_text(host, port) =~= seq!['['] + text@ + seq![']', ':']
            + crate::text::decimal_text(port as nat));
    }
}

/// A request is a head of lines, an empty line and the body. The head names target and host,
/// tells the length of the body in bytes, and asks for the connection to be closed.
pub proof fn law_request_has_its_lines(target: Seq<char>, host: Seq<char>, body: Seq<char>)
    ensures
        ({
            let end = seq!['\r', '\n'];
            let length = crate::text::decimal_text(vstd::utf8::encode_utf8(body).len());
            let lines = seq![
                "POST "@ + target + " HTTP/1.1"@,
                "Host: "@ + host,
                "Content-Type: application/json"@,
                "Content-Length: "@ + length,
                "Connection: close"@,
            ];
            post_text(target, host, body) == crate::text::joined(lines, end) + end + end + body
        }),
{
    let end = seq!['\r', '\n'];
    let length = crate::text::decimal_text(vstd::utf8::encode_utf8(body).len());
    reveal_strlit(" HTTP/1.1");
    reveal_strlit("Host: ");
    reveal_strlit(" HTTP/1.1\r\nHost: ");
    reveal_strlit("Content-Type: application/json");
    reveal_strlit("Content-Length: ");
    reveal_strlit("\r\nContent-Type: application/json\r\nContent-Length: ");
    reveal_strlit("Connection: close");
    reveal_strlit("\r\nConnection: close\r\n\r\n");
    assert(" HTTP/1.1\r\nHost: "@ =~= " HTTP/1.1"@ + end + "Host: "@);
    assert("\r\nContent-Type: application/json\r\nContent-Length: "@ =~= end
        + "Content-Type: application/json"@ + end + "Content-Length: "@);
    assert("\r\nConnection: close\r\n\r\n"@ =~= end + "Connection: close"@ + end + end);
    let a = "POST "@ + target + " HTTP/1.1"@;
    let b = "Host: "@ + host;
    let c = "Content-Type: application/json"@;
    let d = "Content-Length: "@ + length;
    let e = "Connection: close"@;
    crate::text::law_parts_are_joined(seq![], a, end);
    crate::text::law_parts_are_joined(seq![a], b, end);
    crate::text::law_parts_are_joined(seq![a, b], c, end);
    crate::text::law_parts_are_joined(seq![a, b, c], d, end);
    crate::text::law_parts_are_joined(seq![a, b, c, d], e, end);
    assert(seq![a].push(b) =~= seq![a, b]);
    assert(seq![a, b].push(c) =~= seq![a, b, c]);
    assert(seq![a, b, c].push(d) =~= seq![a, b, c, d]);
    assert(seq![a, b, c, d].push(e) =~= seq![a, b, c, d, e]);
    assert(post_text(target, host, body) =~= a + end + b + end + c + end + d + end + e + end + end
        + body);
}

/// The size of a chunk is the hexadecimal number before the first semicolon of its line, in
/// capitals or not, with white space around it.
pub proof fn law_chunk_size_is_hexadecimal(size: nat, capitals: Seq<char>, extension: Seq<char>)
    requires
        size <= usize::MAX,
        crate::text::lowered(capitals) == hex_digits(size),
    ensures
        chunk_size(vstd::utf8::encode_utf8(capitals)) == Ok::<nat, HttpError>(size),
        chunk_size(
            vstd::utf8::encode_utf8(seq![' '] + capitals + seq![' ', ';'] + extension),
        ) == Ok::<nat, HttpError>(size),
{
    let padded = seq![' '] + capitals + seq![' '];
    let line = seq![' '] + capitals + seq![' ', ';'] + extension;
    vstd::utf8::encode_utf8_valid_utf8(capitals);
    vstd::utf8::encode_utf8_decode_utf8(capitals);
    vstd::utf8::encode_utf8_valid_utf8(line);
    vstd::utf8::encode_utf8_decode_utf8(line);
    lemma_hex_digits(size);
    assert forall|i: int| 0 <= i < capitals.len() implies capitals[i] != ';' && capitals[i] != '+'
        && !crate::text::is_space(capitals[i]) by {
        crate::text::law_capitals_are_lowered(capitals, i);
        assert(hex_char(hex_digits(size)[i]));
    }
    lemma_case_of_digits(capitals);
    assert(!capitals.contains(';'));
    assert(!padded.contains(';'));
    crate::text::law_pieces_are_cut_at_each_mark(capitals, seq![], ';');
    crate::text::law_pieces_are_cut_at_each_mark(padded, extension, ';');
    assert(line =~= padded + seq![';'] + extension);
    crate::text::law_white_space_is_trimmed(capitals, ' ');
    crate::text::law_white_space_is_trimmed(seq![' '] + capitals, ' ');
    assert(padded =~= (seq![' '] + capitals).push(' '));
}

proof fn lemma_case_of_digits(s: Seq<char>)
    ensures
        crate::text::digits_value(crate::text::lowered(s), 16) == crate::text::digits_value(s, 16),
    decreases s.len(),
{
    let small = crate::text::lowered(s);
    if s.len() > 0 {
        lemma_case_of_digits(s.drop_last());
        assert(small.drop_last() =~= crate::text::lowered(s.drop_last()));
        crate::text::law_capitals_are_lowered(s, s.len() - 1);
    }
}

/// Each failure of a response is told in its own words.
pub proof fn law_http_failures_have_their_words(error: HttpError)
    ensures
        error is HeadersMissing ==> error.text() == "API response did not contain HTTP headers"@,
        error is HeadersInvalid ==> error.text() == "API response headers were invalid"@,
        error is StatusLineMissing ==> error.text() == "API response missing status line"@,
        error is VersionMissing ==> error.text() == "API response missing HTTP version"@,
        error is VersionInvalid ==> error.text() == "API response had invalid HTTP version"@,
        error is StatusMissing ==> error.text() == "API response missing HTTP status"@,
        error is StatusInvalid ==> error.text() == "API response status was invalid"@,
        error is ChunkSizeMissing ==> error.text() == "chunked response missing chunk size"@,
        error is ChunkSizeNotUtf8 ==> error.text() == "chunk size was not valid UTF-8"@,
        error is ChunkSizeInvalid ==> error.text() == "chunk size was not valid hexadecimal"@,
        error is ChunkTooLong ==> error.text() == "chunk length overflow"@,
        error is ChunkTruncated ==> error.text() == "chunked response ended before chunk body"@,
        error is ChunkNotTerminated ==> error.text()
            == "chunked response chunk was not terminated"@,
        error is ResponseTooLong ==> error.text() == "API response exceeded 1048576 bytes"@,
{
}

/// A URL that names no place for a request is told what it lacks.
pub proof fn law_target_failures_have_their_words(error: TargetError)
    ensures
        error is HostMissing ==> error.text() == "API URL missing host"@,
        error is PortMissing ==> error.text() == "API URL missing port"@,
{
}

/// A request goes to the host and the port of its URL, and asks for its path and query. A URL
/// without one of the two leads nowhere, and the host is missed first.
pub proof fn law_request_goes_to_its_url(
    host: Option<HostView>,
    url: UrlView,
    r: Result<ApiTarget, TargetError>,
)
    requires
        targeted(host, url, r),
    ensures
        r is Ok <==> host is Some && url.port is Some,
        r matches Ok(place) ==> {
            &&& Some(place.host@) == host
            &&& Some(place.port) == url.port
            &&& url.query is None ==> place.target@ == url.path
            &&& url.query matches Some(query) ==> place.target@ == url.path + seq!['?'] + query
        },
        r is Err && host is None ==> r->Err_0 is HostMissing,
        r is Err && host is Some ==> r->Err_0 is PortMissing,
{
    reveal_strlit("?");
    assert("?"@ =~= seq!['?']);
}

} // verus!
