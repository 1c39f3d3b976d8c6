use vstd::prelude::*;
use vstd::utf8::encode_utf8;
use crate::clock::{
    format_timestamp_millis, rfc3339_millis, utc_millis_shape, MAX_CLOCK_MILLIS, MIN_CLOCK_MILLIS,
};

verus! {

/// The largest header block a binary frame can describe with its 16-bit length prefix.
pub const MAX_HEADER_LEN: usize = 65535;

/// Why a request could not be turned into a frame.
#[derive(Debug, Clone, Copy, PartialEq, Eq, Structural)]
pub enum EncodeError {
    /// The header block of a binary frame is longer than `MAX_HEADER_LEN` bytes.
    HeaderOverflow,
    /// The session id is empty, or a header value or a text body holds a CRLF.
    InvariantViolation,
    /// The clock value names an instant outside the years 0 to 9999.
    ClockOutOfRange,
}

/// A request to the speech service, before it is framed for the wire.
#[allow(inconsistent_fields)]
#[derive(Debug, Clone, PartialEq, Eq)]
pub enum Request {
    /// A configuration update; `payload` is the serialized JSON document.
    ConfigUpdate { session_id: String, payload: String },
    /// A context update; `payload` is the serialized JSON document.
    ContextUpdate { session_id: String, payload: String },
    /// The first audio of a stream, with the media type of what follows.
    AudioStart { session_id: String, content_type: String, payload: Vec<u8> },
    /// A piece of audio; `None` marks the end of the stream.
    AudioChunk { session_id: String, payload: Option<Vec<u8>> },
}

/// The mathematical content of a `Request`.
#[allow(inconsistent_fields)]
pub enum RequestView {
    ConfigUpdate { session_id: Seq<char>, payload: Seq<char> },
    ContextUpdate { session_id: Seq<char>, payload: Seq<char> },
    AudioStart { session_id: Seq<char>, content_type: Seq<char>, payload: Seq<u8> },
    AudioChunk { session_id: Seq<char>, payload: Option<Seq<u8>> },
}

pub open spec fn option_text_view(o: Option<String>) -> Option<Seq<char>> {
    match o {
        Some(s) => Some(s@),
        None => None,
    }
}

pub open spec fn option_bytes_view(o: Option<Vec<u8>>) -> Option<Seq<u8>> {
    match o {
        Some(v) => Some(v@),
        None => None,
    }
}

impl View for Request {
    type V = RequestView;

    open spec fn view(&self) -> RequestView {
        match self {
            Request::ConfigUpdate { session_id, payload } => RequestView::ConfigUpdate {
                session_id: session_id@,
                payload: payload@,
            },
            Request::ContextUpdate { session_id, payload } => RequestView::ContextUpdate {
                session_id: session_id@,
                payload: payload@,
            },
            Request::AudioStart { session_id, content_type, payload } => RequestView::AudioStart {
                session_id: session_id@,
                content_type: content_type@,
                payload: payload@,
            },
            Request::AudioChunk { session_id, payload } => RequestView::AudioChunk {
                session_id: session_id@,
                payload: option_bytes_view(*payload),
            },
        }
    }
}

/// A message ready for the transport: one WebSocket text or binary frame.
#[derive(Debug, Clone, PartialEq, Eq)]
pub enum Frame {
    Text(String),
    Binary(Vec<u8>),
}

pub enum FrameView {
    Text(Seq<char>),
    Binary(Seq<u8>),
}

impl View for Frame {
    type V = FrameView;

    open spec fn view(&self) -> FrameView {
        match self {
            Frame::Text(s) => FrameView::Text(s@),
            Frame::Binary(b) => FrameView::Binary(b@),
        }
    }
}

pub open spec fn text_result_view(r: Result<String, EncodeError>) -> Result<Seq<char>, EncodeError> {
    match r {
        Ok(s) => Ok(s@),
        Err(e) => Err(e),
    }
}

pub open spec fn bytes_result_view(r: Result<Vec<u8>, EncodeError>) -> Result<Seq<u8>, EncodeError> {
    match r {
        Ok(b) => Ok(b@),
        Err(e) => Err(e),
    }
}

pub open spec fn frame_result_view(r: Result<Frame, EncodeError>) -> Result<FrameView, EncodeError> {
    match r {
        Ok(f) => Ok(f@),
        Err(e) => Err(e),
    }
}

// ---------------------------------------------------------------- header block

/// The two characters that end every header line.
pub open spec fn crlf() -> Seq<char> {
    seq!['\r', '\n']
}

/// One rendered header line: `<name>: <value>\r\n`.
pub open spec fn header_line(name: Seq<char>, value: Seq<char>) -> Seq<char> {
    name + seq![':', ' '] + value + crlf()
}

/// The header block: every line, in the order given.
pub open spec fn header_block(headers: Seq<(Seq<char>, Seq<char>)>) -> Seq<char>
    decreases headers.len(),
{
    if headers.len() == 0 {
        Seq::empty()
    } else {
        header_block(headers.drop_last()) + header_line(headers.last().0, headers.last().1)
    }
}

pub open spec fn headers_view(headers: Seq<(String, String)>) -> Seq<(Seq<char>, Seq<char>)> {
    headers.map_values(|h: (String, String)| (h.0@, h.1@))
}

/// Renders each `(name, value)` pair as one header line and concatenates them in order.
pub fn transform_headers_to_string(headers: &Vec<(String, String)>) -> (r: String)
    ensures
        r@ == header_block(headers_view(headers@)),
{
    let mut out = String::new();
    let mut i: usize = 0;
    while i < headers.len()
        invariant
            i <= headers@.len(),
            out@ == header_block(headers_view(headers@.subrange(0, i as int))),
        decreases headers@.len() - i,
    {
        let name = &headers[i].0;
        let value = &headers[i].1;
        out.append(name.as_str());
        out.append(": ");
        out.append(value.as_str());
        out.append("\r\n");
        proof {
            reveal_strlit(": ");
            reveal_strlit("\r\n");
            let s = headers_view(headers@.subrange(0, i + 1));
            assert(s.drop_last() =~= headers_view(headers@.subrange(0, i as int)));
        }
        i = i + 1;
    }
    assert(headers@.subrange(0, i as int) =~= headers@);
    out
}

// ---------------------------------------------------------------- binary layout

/// A length as two bytes, most significant first.
pub open spec fn be16(n: nat) -> Seq<u8> {
    seq![(n / 256) as u8, (n % 256) as u8]
}

/// A binary frame: the header length, the header bytes, then the payload bytes.
pub open spec fn binary_layout(header: Seq<u8>, body: Seq<u8>) -> Seq<u8> {
    be16(header.len()) + header + body
}

pub open spec fn body_bytes(data: Option<Seq<u8>>) -> Seq<u8> {
    match data {
        Some(d) => d,
        None => Seq::empty(),
    }
}

/// Lays out a binary frame around a rendered header block; fails when the block's UTF-8
/// encoding does not fit in 16 bits.
pub fn make_binary_payload(headers: String, data: Option<Vec<u8>>) -> (r: Result<Vec<u8>, EncodeError>)
    ensures
        encode_utf8(headers@).len() > MAX_HEADER_LEN ==> r == Err::<Vec<u8>, EncodeError>(
            EncodeError::HeaderOverflow,
        ),
        encode_utf8(headers@).len() <= MAX_HEADER_LEN ==> r is Ok && r->Ok_0@ == binary_layout(
            encode_utf8(headers@),
            body_bytes(option_bytes_view(data)),
        ),
{
    let header_buffer = headers.as_str().as_bytes();
    let header_length = header_buffer.len();
    if header_length > MAX_HEADER_LEN {
        return Err(EncodeError::HeaderOverflow);
    }
    let data_length: usize = match &data {
        Some(d) => d.len(),
        None => 0,
    };
    // The exact frame size; only a capacity hint, so an impossible overflow just drops it.
    let capacity: usize = match data_length.checked_add(2 + header_length) {
        Some(c) => c,
        None => 0,
    };
    let mut payload: Vec<u8> = Vec::with_capacity(capacity);
    payload.push((header_length / 256) as u8);
    payload.push((header_length % 256) as u8);
    let ghost prefix = payload@;
    assert(prefix =~= be16(header_buffer@.len()));
    let mut i: usize = 0;
    while i < header_length
        invariant
            header_length == header_buffer@.len(),
            i <= header_length,
            payload@ == prefix + header_buffer@.subrange(0, i as int),
        decreases header_length - i,
    {
        payload.push(header_buffer[i]);
        assert(header_buffer@.subrange(0, i + 1) =~= header_buffer@.subrange(0, i as int).push(
            header_buffer@[i as int],
        ));
        i = i + 1;
    }
    assert(header_buffer@.subrange(0, i as int) =~= header_buffer@);
    let ghost framed = payload@;
    if let Some(d) = data {
        let mut j: usize = 0;
        while j < d.len()
            invariant
                j <= d@.len(),
                payload@ == framed + d@.subrange(0, j as int),
            decreases d@.len() - j,
        {
            payload.push(d[j]);
            assert(d@.subrange(0, j + 1) =~= d@.subrange(0, j as int).push(d@[j as int]));
            j = j + 1;
        }
        assert(d@.subrange(0, j as int) =~= d@);
    } else {
        assert(payload@ =~= framed + Seq::<u8>::empty());
    }
    Ok(payload)
}

// ---------------------------------------------------------------- header values

pub open spec fn path_name() -> Seq<char> {
    seq!['P', 'a', 't', 'h']
}

pub open spec fn request_id_name() -> Seq<char> {
    seq!['X', '-', 'R', 'e', 'q', 'u', 'e', 's', 't', 'I', 'd']
}

pub open spec fn timestamp_name() -> Seq<char> {
    seq!['X', '-', 'T', 'i', 'm', 'e', 's', 't', 'a', 'm', 'p']
}

pub open spec fn content_type_name() -> Seq<char> {
    seq!['C', 'o', 'n', 't', 'e', 'n', 't', '-', 'T', 'y', 'p', 'e']
}

pub open spec fn json_media_type() -> Seq<char> {
    seq!['a', 'p', 'p', 'l', 'i', 'c', 'a', 't', 'i', 'o', 'n', '/', 'j', 's', 'o', 'n']
}

pub open spec fn config_path() -> Seq<char> {
    seq!['s', 'p', 'e', 'e', 'c', 'h', '.', 'c', 'o', 'n', 'f', 'i', 'g']
}

pub open spec fn context_path() -> Seq<char> {
    seq!['s', 'p', 'e', 'e', 'c', 'h', '.', 'c', 'o', 'n', 't', 'e', 'x', 't']
}

pub open spec fn audio_path() -> Seq<char> {
    seq!['a', 'u', 'd', 'i', 'o']
}

/// The headers of a message, in wire order: `Path`, `X-RequestId`, `X-Timestamp`, then
/// `Content-Type` when there is one.
pub open spec fn message_headers(
    path: Seq<char>,
    session_id: Seq<char>,
    timestamp: Seq<char>,
    content_type: Option<Seq<char>>,
) -> Seq<(Seq<char>, Seq<char>)> {
    let base = seq![
        (path_name(), path),
        (request_id_name(), session_id),
        (timestamp_name(), timestamp),
    ];
    match content_type {
        Some(ct) => base.push((content_type_name(), ct)),
        None => base,
    }
}

/// A carriage return at `i`, directly followed by a line feed.
pub open spec fn crlf_at(s: Seq<char>, i: int) -> bool {
    0 <= i < s.len() - 1 && s[i] == '\r' && s[i + 1] == '\n'
}

pub open spec fn has_crlf(s: Seq<char>) -> bool {
    exists|i: int| #[trigger] crlf_at(s, i)
}

/// The header values can be framed: a non-empty session id and no CRLF in any value.
pub open spec fn header_values_ok(
    path: Seq<char>,
    session_id: Seq<char>,
    timestamp: Seq<char>,
    content_type: Option<Seq<char>>,
) -> bool {
    &&& session_id.len() > 0
    &&& !has_crlf(path)
    &&& !has_crlf(session_id)
    &&& !has_crlf(timestamp)
    &&& (content_type is Some ==> !has_crlf(content_type->0))
}

fn contains_crlf(s: &str) -> (r: bool)
    ensures
        r == has_crlf(s@),
{
    let mut prev_cr = false;
    for c in it: s.chars()
        invariant
            it.seq() == s@,
            prev_cr <==> (it.index() > 0 && s@[it.index() - 1] == '\r'),
            forall|j: int| 0 <= j < it.index() - 1 ==> !#[trigger] crlf_at(s@, j),
    {
        if prev_cr && c == '\n' {
            assert(crlf_at(s@, it.index() - 1));
            return true;
        }
        prev_cr = c == '\r';
    }
    false
}

fn check_header_values(
    path: &str,
    session_id: &str,
    timestamp: &str,
    content_type: &Option<String>,
) -> (ok: bool)
    ensures
        ok == header_values_ok(path@, session_id@, timestamp@, option_text_view(*content_type)),
{
    if session_id.is_empty() || contains_crlf(path) || contains_crlf(session_id) || contains_crlf(
        timestamp,
    ) {
        return false;
    }
    match content_type {
        Some(ct) => !contains_crlf(ct.as_str()),
        None => true,
    }
}

fn build_headers(path: &str, session_id: &str, timestamp: &str, content_type: Option<String>) -> (r:
    Vec<(String, String)>)
    ensures
        headers_view(r@) == message_headers(
            path@,
            session_id@,
            timestamp@,
            option_text_view(content_type),
        ),
{
    let mut headers: Vec<(String, String)> = Vec::new();
    headers.push(("Path".to_owned(), path.to_owned()));
    headers.push(("X-RequestId".to_owned(), session_id.to_owned()));
    headers.push(("X-Timestamp".to_owned(), timestamp.to_owned()));
    if let Some(ct) = content_type {
        headers.push(("Content-Type".to_owned(), ct));
    }
    proof {
        reveal_strlit("Path");
        reveal_strlit("X-RequestId");
        reveal_strlit("X-Timestamp");
        reveal_strlit("Content-Type");
        assert("Path"@ =~= path_name());
        assert("X-RequestId"@ =~= request_id_name());
        assert("X-Timestamp"@ =~= timestamp_name());
        assert("Content-Type"@ =~= content_type_name());
        assert(headers_view(headers@) =~= message_headers(
            path@,
            session_id@,
            timestamp@,
            option_text_view(content_type),
        ));
    }
    headers
}

// ---------------------------------------------------------------- messages

/// A text frame: the header block, a blank line, then the body when there is one.
pub open spec fn text_layout(block: Seq<char>, body: Option<Seq<char>>) -> Seq<char> {
    match body {
        Some(b) => block + crlf() + b,
        None => block + crlf(),
    }
}

/// What a text message encodes to.
pub open spec fn text_message(
    path: Seq<char>,
    session_id: Seq<char>,
    timestamp: Seq<char>,
    content_type: Option<Seq<char>>,
    body: Option<Seq<char>>,
) -> Result<Seq<char>, EncodeError> {
    if !header_values_ok(path, session_id, timestamp, content_type) || (body is Some && has_crlf(
        body->0,
    )) {
        Err(EncodeError::InvariantViolation)
    } else {
        Ok(text_layout(header_block(message_headers(path, session_id, timestamp, content_type)), body))
    }
}

/// What a binary message encodes to.
pub open spec fn binary_message(
    path: Seq<char>,
    session_id: Seq<char>,
    timestamp: Seq<char>,
    content_type: Option<Seq<char>>,
    body: Seq<u8>,
) -> Result<Seq<u8>, EncodeError> {
    let block = encode_utf8(header_block(message_headers(path, session_id, timestamp, content_type)));
    if !header_values_ok(path, session_id, timestamp, content_type) {
        Err(EncodeError::InvariantViolation)
    } else if block.len() > MAX_HEADER_LEN {
        Err(EncodeError::HeaderOverflow)
    } else {
        Ok(binary_layout(block, body))
    }
}

/// Frames a message as text: headers, a blank line, and the body when there is one.
pub fn make_text_message(
    path: &str,
    session_id: &str,
    timestamp: &str,
    content_type: Option<String>,
    data: Option<String>,
) -> (r: Result<String, EncodeError>)
    ensures
        text_result_view(r) == text_message(
            path@,
            session_id@,
            timestamp@,
            option_text_view(content_type),
            option_text_view(data),
        ),
{
    if !check_header_values(path, session_id, timestamp, &content_type) {
        return Err(EncodeError::InvariantViolation);
    }
    if let Some(ref d) = data {
        if contains_crlf(d.as_str()) {
            return Err(EncodeError::InvariantViolation);
        }
    }
    let headers = build_headers(path, session_id, timestamp, content_type);
    let mut message = transform_headers_to_string(&headers);
    let ghost block = message@;
    message.append("\r\n");
    proof {
        reveal_strlit("\r\n");
        assert("\r\n"@ =~= crlf());
    }
    if let Some(d) = data {
        message.append(d.as_str());
        assert(message@ == text_layout(block, Some(d@)));
    } else {
        assert(message@ == text_layout(block, None));
    }
    Ok(message)
}

/// Frames a message as binary: the header length, the headers, and the payload bytes.
pub fn make_binary_message(
    path: &str,
    session_id: &str,
    timestamp: &str,
    content_type: Option<String>,
    data: Option<Vec<u8>>,
) -> (r: Result<Vec<u8>, EncodeError>)
    ensures
        bytes_result_view(r) == binary_message(
            path@,
            session_id@,
            timestamp@,
            option_text_view(content_type),
            body_bytes(option_bytes_view(data)),
        ),
{
    if !check_header_values(path, session_id, timestamp, &content_type) {
        return Err(EncodeError::InvariantViolation);
    }
    let headers = build_headers(path, session_id, timestamp, content_type);
    make_binary_payload(transform_headers_to_string(&headers), data)
}

// ---------------------------------------------------------------- requests

pub open spec fn text_frame(r: Result<Seq<char>, EncodeError>) -> Result<FrameView, EncodeError> {
    match r {
        Ok(t) => Ok(FrameView::Text(t)),
        Err(e) => Err(e),
    }
}

pub open spec fn binary_frame(r: Result<Seq<u8>, EncodeError>) -> Result<FrameView, EncodeError> {
    match r {
        Ok(b) => Ok(FrameView::Binary(b)),
        Err(e) => Err(e),
    }
}

/// The frame a request becomes when stamped with `timestamp`.
pub open spec fn encoded(r: RequestView, timestamp: Seq<char>) -> Result<FrameView, EncodeError> {
    match r {
        RequestView::ConfigUpdate { session_id, payload } => text_frame(
            text_message(
                config_path(),
                session_id,
                timestamp,
                Some(json_media_type()),
                Some(payload),
            ),
        ),
        RequestView::ContextUpdate { session_id, payload } => text_frame(
            text_message(
                context_path(),
                session_id,
                timestamp,
                Some(json_media_type()),
                Some(payload),
            ),
        ),
        RequestView::AudioStart { session_id, content_type, payload } => binary_frame(
            binary_message(audio_path(), session_id, timestamp, Some(content_type), payload),
        ),
        RequestView::AudioChunk { session_id, payload } => binary_frame(
            binary_message(audio_path(), session_id, timestamp, None, body_bytes(payload)),
        ),
    }
}

impl Request {
    /// Frames the request with the given `X-Timestamp` value: text for the two updates,
    /// binary for audio.
    pub fn into_frame(self, timestamp: &str) -> (r: Result<Frame, EncodeError>)
        ensures
            frame_result_view(r) == encoded(self@, timestamp@),
    {
        proof {
            reveal_strlit("speech.config");
            reveal_strlit("speech.context");
            reveal_strlit("audio");
            reveal_strlit("application/json");
            assert("speech.config"@ =~= config_path());
            assert("speech.context"@ =~= context_path());
            assert("audio"@ =~= audio_path());
            assert("application/json"@ =~= json_media_type());
        }
        match self {
            Request::ConfigUpdate { session_id, payload } => {
                let json = String::from_str("application/json");
                match make_text_message(
                    "speech.config",
                    session_id.as_str(),
                    timestamp,
                    Some(json),
                    Some(payload),
                ) {
                    Ok(t) => Ok(Frame::Text(t)),
                    Err(e) => Err(e),
                }
            },
            Request::ContextUpdate { session_id, payload } => {
                let json = String::from_str("application/json");
                match make_text_message(
                    "speech.context",
                    session_id.as_str(),
                    timestamp,
                    Some(json),
                    Some(payload),
                ) {
                    Ok(t) => Ok(Frame::Text(t)),
                    Err(e) => Err(e),
                }
            },
            Request::AudioStart { session_id, content_type, payload } => {
                match make_binary_message(
                    "audio",
                    session_id.as_str(),
                    timestamp,
                    Some(content_type),
                    Some(payload),
                ) {
                    Ok(b) => Ok(Frame::Binary(b)),
                    Err(e) => Err(e),
                }
            },
            Request::AudioChunk { session_id, payload } => {
                match make_binary_message("audio", session_id.as_str(), timestamp, None, payload) {
                    Ok(b) => Ok(Frame::Binary(b)),
                    Err(e) => Err(e),
                }
            },
        }
    }
}

/// The frame a request becomes at the clock value `millis`.
pub open spec fn encoded_at(r: RequestView, millis: int) -> Result<FrameView, EncodeError> {
    if MIN_CLOCK_MILLIS <= millis <= MAX_CLOCK_MILLIS {
        encoded(r, rfc3339_millis(millis))
    } else {
        Err(EncodeError::ClockOutOfRange)
    }
}

impl Request {
    /// Frames the request stamped with the instant `now_millis` milliseconds after the Unix
    /// epoch, read from whatever clock the caller injects.
    pub fn encode_at(self, now_millis: i64) -> (r: Result<Frame, EncodeError>)
        ensures
            frame_result_view(r) == encoded_at(self@, now_millis as int),
            MIN_CLOCK_MILLIS <= now_millis <= MAX_CLOCK_MILLIS ==> utc_millis_shape(
                rfc3339_millis(now_millis as int),
            ),
    {
        if now_millis < MIN_CLOCK_MILLIS || now_millis > MAX_CLOCK_MILLIS {
            return Err(EncodeError::ClockOutOfRange);
        }
        match format_timestamp_millis(now_millis) {
            Some(timestamp) => self.into_frame(timestamp.as_str()),
            None => Err(EncodeError::ClockOutOfRange),
        }
    }
}

} // verus!
