use vstd::prelude::*;
use vstd::utf8::encode_utf8;
use crate::clock::{utc_millis_shape, is_digit};
use crate::frame::{
    audio_path, be16, binary_layout, body_bytes, MAX_HEADER_LEN, config_path, content_type_name, context_path, encoded, header_block,
    header_line, json_media_type, message_headers, path_name, request_id_name, timestamp_name,
    crlf, crlf_at, encoded_at, has_crlf, header_values_ok, text_message, EncodeError, FrameView, Request, RequestView,
};

verus! {

/// The `Path` header value of a request.
pub open spec fn path_of(r: RequestView) -> Seq<char> {
    match r {
        RequestView::ConfigUpdate { .. } => config_path(),
        RequestView::ContextUpdate { .. } => context_path(),
        _ => audio_path(),
    }
}

/// The `X-RequestId` header value of a request.
pub open spec fn session_id_of(r: RequestView) -> Seq<char> {
    match r {
        RequestView::ConfigUpdate { session_id, .. } => session_id,
        RequestView::ContextUpdate { session_id, .. } => session_id,
        RequestView::AudioStart { session_id, .. } => session_id,
        RequestView::AudioChunk { session_id, .. } => session_id,
    }
}

/// The `Content-Type` header value of a request, when it carries one.
pub open spec fn content_type_of(r: RequestView) -> Option<Seq<char>> {
    match r {
        RequestView::ConfigUpdate { .. } => Some(json_media_type()),
        RequestView::ContextUpdate { .. } => Some(json_media_type()),
        RequestView::AudioStart { content_type, .. } => Some(content_type),
        RequestView::AudioChunk { .. } => None,
    }
}

/// The bytes an audio request carries after its headers.
pub open spec fn audio_payload_of(r: RequestView) -> Seq<u8> {
    match r {
        RequestView::AudioStart { payload, .. } => payload,
        RequestView::AudioChunk { payload, .. } => body_bytes(payload),
        _ => Seq::empty(),
    }
}

/// The header block of a request stamped with `timestamp`.
pub open spec fn header_block_of(r: RequestView, timestamp: Seq<char>) -> Seq<char> {
    header_block(message_headers(path_of(r), session_id_of(r), timestamp, content_type_of(r)))
}

/// The header lines spelled out one after another, in wire order.
pub open spec fn ordered_header_lines(
    path: Seq<char>,
    session_id: Seq<char>,
    timestamp: Seq<char>,
    content_type: Option<Seq<char>>,
) -> Seq<char> {
    header_line(path_name(), path) + header_line(request_id_name(), session_id) + header_line(
        timestamp_name(),
        timestamp,
    ) + match content_type {
        Some(ct) => header_line(content_type_name(), ct),
        None => Seq::empty(),
    }
}

/// Four characters `\r\n\r\n` starting at `i`: the blank line that ends a header block.
pub open spec fn blank_line_at(s: Seq<char>, i: int) -> bool {
    &&& 0 <= i
    &&& i + 4 <= s.len()
    &&& s[i] == '\r'
    &&& s[i + 1] == '\n'
    &&& s[i + 2] == '\r'
    &&& s[i + 3] == '\n'
}

/// Two requests with the same content, encoded at the same clock value, give the same result,
/// byte for byte.
pub proof fn lemma_encoding_is_deterministic(a: Request, b: Request, now_millis: i64)
    requires
        a@ == b@,
    ensures
        encoded_at(a@, now_millis as int) == encoded_at(b@, now_millis as int),
{
}

proof fn lemma_header_block_push(hs: Seq<(Seq<char>, Seq<char>)>, h: (Seq<char>, Seq<char>))
    ensures
        header_block(hs.push(h)) == header_block(hs) + header_line(h.0, h.1),
{
    assert(hs.push(h).drop_last() =~= hs);
}

/// The header block lists `Path`, `X-RequestId`, `X-Timestamp` and then `Content-Type`, when
/// present, in that order.
pub proof fn lemma_header_block_order(
    path: Seq<char>,
    session_id: Seq<char>,
    timestamp: Seq<char>,
    content_type: Option<Seq<char>>,
)
    ensures
        header_block(message_headers(path, session_id, timestamp, content_type))
            == ordered_header_lines(path, session_id, timestamp, content_type),
{
    let hs = message_headers(path, session_id, timestamp, content_type);
    let e = Seq::<(Seq<char>, Seq<char>)>::empty();
    let one = e.push((path_name(), path));
    let two = one.push((request_id_name(), session_id));
    let three = two.push((timestamp_name(), timestamp));
    lemma_header_block_push(e, (path_name(), path));
    lemma_header_block_push(one, (request_id_name(), session_id));
    lemma_header_block_push(two, (timestamp_name(), timestamp));
    assert(three =~= seq![
        (path_name(), path),
        (request_id_name(), session_id),
        (timestamp_name(), timestamp),
    ]);
    if let Some(ct) = content_type {
        lemma_header_block_push(three, (content_type_name(), ct));
    }
    assert(header_block(hs) =~= ordered_header_lines(path, session_id, timestamp, content_type));
}

/// Every encoded frame starts its header block with `Path`, then `X-RequestId`, then
/// `X-Timestamp`, then `Content-Type` when the request has one.
pub proof fn lemma_frame_header_order(r: RequestView, timestamp: Seq<char>)
    ensures
        ({
            let ordered = ordered_header_lines(
                path_of(r),
                session_id_of(r),
                timestamp,
                content_type_of(r),
            );
            match encoded(r, timestamp) {
                Ok(FrameView::Text(t)) => ordered.len() <= t.len() && t.subrange(
                    0,
                    ordered.len() as int,
                ) == ordered,
                Ok(FrameView::Binary(b)) => 2 + encode_utf8(ordered).len() <= b.len()
                    && b.subrange(2, 2 + encode_utf8(ordered).len() as int) == encode_utf8(ordered),
                Err(_) => true,
            }
        }),
{
    let ordered = ordered_header_lines(path_of(r), session_id_of(r), timestamp, content_type_of(r));
    lemma_header_block_order(path_of(r), session_id_of(r), timestamp, content_type_of(r));
    match encoded(r, timestamp) {
        Ok(FrameView::Text(t)) => {
            assert(t.subrange(0, ordered.len() as int) =~= ordered);
        },
        Ok(FrameView::Binary(b)) => {
            assert(b.subrange(2, 2 + encode_utf8(ordered).len() as int) =~= encode_utf8(ordered));
        },
        Err(_) => {},
    }
}

proof fn lemma_be16_reads_back(n: nat)
    requires
        n <= MAX_HEADER_LEN,
    ensures
        be16(n)[0] as int * 256 + be16(n)[1] as int == n,
{
}

/// In every binary frame, the first two bytes read as a big-endian number give the length of
/// the header block that follows them, and the `total - 2 - length` bytes after that block are
/// the request's payload exactly.
pub proof fn lemma_binary_round_trip(r: RequestView, timestamp: Seq<char>)
    requires
        encoded(r, timestamp) is Ok,
        encoded(r, timestamp)->Ok_0 is Binary,
    ensures
        ({
            let f = encoded(r, timestamp)->Ok_0->Binary_0;
            let h = f[0] as int * 256 + f[1] as int;
            &&& 2 + h <= f.len()
            &&& f.subrange(2, 2 + h) == encode_utf8(header_block_of(r, timestamp))
            &&& f.len() - 2 - h == audio_payload_of(r).len()
            &&& f.subrange(2 + h, f.len() as int) == audio_payload_of(r)
            &&& forall|i: int| !blank_line_at(header_block_of(r, timestamp), i)
        }),
{
    lemma_message_block_well_spaced(path_of(r), session_id_of(r), timestamp, content_type_of(r));
    let f = encoded(r, timestamp)->Ok_0->Binary_0;
    let block = encode_utf8(header_block_of(r, timestamp));
    let body = audio_payload_of(r);
    assert(f == binary_layout(block, body));
    lemma_be16_reads_back(block.len());
    assert(f.subrange(2, 2 + block.len() as int) =~= block);
    assert(f.subrange(2 + block.len() as int, f.len() as int) =~= body);
}

pub open spec fn has_line_break(s: Seq<char>) -> bool {
    exists|i: int| 0 <= i < s.len() && (s[i] == '\r' || s[i] == '\n')
}

/// Each CRLF ends the sequence or is followed by something other than a carriage return: no
/// blank line inside.
spec fn crlf_well_spaced(s: Seq<char>) -> bool {
    forall|i: int| #[trigger] crlf_at(s, i) ==> i + 2 == s.len() || s[i + 2] != '\r'
}

spec fn ends_with_crlf(s: Seq<char>) -> bool {
    s.len() >= 2 && s[s.len() - 2] == '\r' && s[s.len() - 1] == '\n'
}

spec fn header_fields_plain(hs: Seq<(Seq<char>, Seq<char>)>) -> bool {
    forall|k: int|
        0 <= k < hs.len() ==> #[trigger] hs[k].0.len() > 0 && !has_line_break(hs[k].0)
            && !has_crlf(hs[k].1)
}

proof fn lemma_line_well_spaced(name: Seq<char>, value: Seq<char>)
    requires
        name.len() > 0,
        !has_line_break(name),
        !has_crlf(value),
    ensures
        crlf_well_spaced(header_line(name, value)),
        ends_with_crlf(header_line(name, value)),
        header_line(name, value)[0] != '\r',
{
    let l = header_line(name, value);
    let v0 = name.len() + 2;
    assert(l =~= name + (seq![':', ' '] + value + crlf()));
    assert forall|i: int| #[trigger] crlf_at(l, i) implies i == l.len() - 2 by {
        if i < name.len() {
            assert(name[i] == l[i]);
        } else if v0 <= i < v0 + value.len() - 1 {
            assert(value[i - v0] == l[i]);
            assert(value[i + 1 - v0] == l[i + 1]);
            assert(crlf_at(value, i - v0));
        }
    }
    assert(name[0] == l[0]);
}

proof fn lemma_concat_well_spaced(x: Seq<char>, l: Seq<char>)
    requires
        crlf_well_spaced(x),
        x.len() == 0 || ends_with_crlf(x),
        crlf_well_spaced(l),
        l.len() > 0,
        l[0] != '\r',
    ensures
        crlf_well_spaced(x + l),
{
    let s = x + l;
    assert forall|i: int| #[trigger] crlf_at(s, i) implies i + 2 == s.len() || s[i + 2] != '\r' by {
        if i < x.len() - 1 {
            assert(crlf_at(x, i));
        } else if i >= x.len() {
            assert(crlf_at(l, i - x.len()));
        }
    }
}

proof fn lemma_block_well_spaced(hs: Seq<(Seq<char>, Seq<char>)>)
    requires
        header_fields_plain(hs),
    ensures
        crlf_well_spaced(header_block(hs)),
        hs.len() > 0 ==> ends_with_crlf(header_block(hs)),
    decreases hs.len(),
{
    if hs.len() > 0 {
        let init = hs.drop_last();
        assert forall|k: int| 0 <= k < init.len() implies #[trigger] init[k].0.len() > 0
            && !has_line_break(init[k].0) && !has_crlf(init[k].1) by {
            assert(init[k] == hs[k]);
        }
        lemma_block_well_spaced(init);
        let h = hs[hs.len() - 1];
        lemma_line_well_spaced(h.0, h.1);
        lemma_concat_well_spaced(header_block(init), header_line(h.0, h.1));
        let b = header_block(hs);
        let l = header_line(h.0, h.1);
        assert(b[b.len() - 1] == l[l.len() - 1]);
        assert(b[b.len() - 2] == l[l.len() - 2]);
    }
}

/// The header block of framable values ends with a CRLF and holds no blank line.
proof fn lemma_message_block_well_spaced(
    path: Seq<char>,
    session_id: Seq<char>,
    timestamp: Seq<char>,
    content_type: Option<Seq<char>>,
)
    requires
        header_values_ok(path, session_id, timestamp, content_type),
    ensures
        crlf_well_spaced(header_block(message_headers(path, session_id, timestamp, content_type))),
        ends_with_crlf(header_block(message_headers(path, session_id, timestamp, content_type))),
        forall|i: int|
            !blank_line_at(
                header_block(message_headers(path, session_id, timestamp, content_type)),
                i,
            ),
{
    let hs = message_headers(path, session_id, timestamp, content_type);
    assert(!has_line_break(path_name()));
    assert(!has_line_break(request_id_name()));
    assert(!has_line_break(timestamp_name()));
    assert(!has_line_break(content_type_name()));
    assert(header_fields_plain(hs));
    lemma_block_well_spaced(hs);
    let block = header_block(hs);
    assert forall|i: int| !blank_line_at(block, i) by {
        if blank_line_at(block, i) {
            assert(crlf_at(block, i));
        }
    }
}

/// A text frame holds exactly one `\r\n\r\n`, where its header block ends; after it comes the
/// body, or nothing at all when there is no body.
pub proof fn lemma_text_single_boundary(
    path: Seq<char>,
    session_id: Seq<char>,
    timestamp: Seq<char>,
    content_type: Option<Seq<char>>,
    body: Option<Seq<char>>,
)
    requires
        text_message(path, session_id, timestamp, content_type, body) is Ok,
    ensures
        ({
            let t = text_message(path, session_id, timestamp, content_type, body)->Ok_0;
            let n = header_block(message_headers(path, session_id, timestamp, content_type)).len() as int;
            &&& blank_line_at(t, n - 2)
            &&& forall|i: int| blank_line_at(t, i) ==> i == n - 2
            &&& t.subrange(n + 2, t.len() as int) == match body {
                Some(b) => b,
                None => Seq::empty(),
            }
        }),
{
    let hs = message_headers(path, session_id, timestamp, content_type);
    let block = header_block(hs);
    let t = text_message(path, session_id, timestamp, content_type, body)->Ok_0;
    let rest = match body {
        Some(b) => b,
        None => Seq::<char>::empty(),
    };
    lemma_message_block_well_spaced(path, session_id, timestamp, content_type);
    let n = block.len() as int;
    assert(t =~= block + crlf() + rest);
    assert(t.subrange(n + 2, t.len() as int) =~= rest);
    assert(blank_line_at(t, n - 2));
    assert forall|i: int| blank_line_at(t, i) implies i == n - 2 by {
        if i < n - 2 {
            assert(crlf_at(block, i));
            assert(block[i + 2] == t[i + 2]);
        } else if i == n - 1 {
            assert(block[i] == t[i]);
        } else if i == n {
            assert(crlf_at(rest, 0));
        } else if i >= n + 2 {
            assert(crlf_at(rest, i - n - 2));
        }
    }
}

/// The serialized document a configuration or context update carries.
pub open spec fn text_payload_of(r: RequestView) -> Seq<char> {
    match r {
        RequestView::ConfigUpdate { payload, .. } => payload,
        RequestView::ContextUpdate { payload, .. } => payload,
        _ => Seq::empty(),
    }
}

/// Every text frame of a request holds exactly one `\r\n\r\n`, right after its header block,
/// and the request's serialized document follows it.
pub proof fn lemma_text_frame_single_boundary(r: RequestView, timestamp: Seq<char>)
    requires
        encoded(r, timestamp) is Ok,
        encoded(r, timestamp)->Ok_0 is Text,
    ensures
        ({
            let t = encoded(r, timestamp)->Ok_0->Text_0;
            let n = header_block_of(r, timestamp).len() as int;
            &&& blank_line_at(t, n - 2)
            &&& forall|i: int| blank_line_at(t, i) ==> i == n - 2
            &&& t.subrange(n + 2, t.len() as int) == text_payload_of(r)
        }),
{
    lemma_text_single_boundary(
        path_of(r),
        session_id_of(r),
        timestamp,
        content_type_of(r),
        Some(text_payload_of(r)),
    );
}

/// A clock text of the shape `YYYY-MM-DDTHH:mm:ss.sssZ` holds no CRLF.
proof fn lemma_clock_text_has_no_crlf(timestamp: Seq<char>)
    requires
        utc_millis_shape(timestamp),
    ensures
        !has_crlf(timestamp),
{
    assert forall|i: int| !#[trigger] crlf_at(timestamp, i) by {
        if 0 <= i < 24 && i != 4 && i != 7 && i != 10 && i != 13 && i != 16 && i != 19 && i
            != 23 {
            assert(is_digit(timestamp[i]));
        }
    }
}

/// An audio chunk without payload, whose session id is non-empty and holds no CRLF, becomes a
/// binary frame at every clock text of the shape `YYYY-MM-DDTHH:mm:ss.sssZ` for which its
/// header block fits the length prefix: the prefix and the header block, with nothing after.
pub proof fn lemma_audio_chunk_always_frames(session_id: Seq<char>, timestamp: Seq<char>)
    requires
        session_id.len() > 0,
        !has_crlf(session_id),
        utc_millis_shape(timestamp),
        encode_utf8(header_block(message_headers(audio_path(), session_id, timestamp, None))).len()
            <= MAX_HEADER_LEN,
    ensures
        ({
            let block = encode_utf8(
                header_block(message_headers(audio_path(), session_id, timestamp, None)),
            );
            let r = RequestView::AudioChunk { session_id, payload: None };
            &&& encoded(r, timestamp) == Ok::<FrameView, EncodeError>(
                FrameView::Binary(be16(block.len()) + block),
            )
            &&& (be16(block.len()) + block).len() == 2 + block.len()
        }),
{
    lemma_clock_text_has_no_crlf(timestamp);
    assert(!has_crlf(audio_path())) by {
        assert forall|i: int| !#[trigger] crlf_at(audio_path(), i) by {
            assert(!has_line_break(audio_path()));
            if 0 <= i < audio_path().len() {
                assert(audio_path()[i] != '\r');
            }
        }
    }
    let block = encode_utf8(header_block(message_headers(audio_path(), session_id, timestamp, None)));
    assert(binary_layout(block, body_bytes(None)) =~= be16(block.len()) + block);
}

} // verus!
