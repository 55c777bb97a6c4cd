//! What the relay records of each request, and how the records are gathered
//! into batches for the metadata service.

use std::time::Instant;
use vstd::prelude::*;
use vstd::slice::*;
use crate::bytes::{ascii_bytes, copy_bytes, lit, push_all, same_bytes};
use crate::clock::{instant_now, millis_or_max, millis_since};
use crate::encoding::{base64_encode, base64_standard, json_quote, json_string_bytes, utf8_text};
use crate::request::{header_views, text_of, Header, HeaderView};
use crate::response::{text_or, text_or_default};

verus! {

/// The longest body that is recorded, in bytes.
pub const MAX_BODY_SIZE: usize = 65536;

/// The most records that one batch holds.
pub const BATCH_SIZE: usize = 50;

/// Seconds between two flushes of all batches.
pub const FLUSH_INTERVAL_SECS: u64 = 5;

/// The part of `body` that is recorded: its first `max_size` bytes.
pub open spec fn truncated(body: Seq<u8>, max_size: int) -> Seq<u8> {
    if body.len() > max_size {
        body.subrange(0, max_size)
    } else {
        body
    }
}

/// The length of `body` where it is longer than what is recorded of it.
pub open spec fn original_size(body: Seq<u8>, max_size: int) -> Option<u64> {
    if body.len() > max_size {
        Some(
            if body.len() > u64::MAX {
                u64::MAX
            } else {
                body.len() as u64
            },
        )
    } else {
        None
    }
}

/// Cuts `body` to `max_size` bytes. A body that was cut comes with its full
/// length.
pub fn truncate_body(body: &[u8], max_size: usize) -> (r: (Vec<u8>, Option<u64>))
    ensures
        r.0@ == truncated(body@, max_size as int),
        r.1 == original_size(body@, max_size as int),
{
    if body.len() > max_size {
        (copy_bytes(slice_subrange(body, 0, max_size)), Some(body.len() as u64))
    } else {
        (copy_bytes(body), None)
    }
}

/// What is recorded of one request.
#[derive(Debug, Clone)]
pub struct HttpRequestLog {
    pub method: String,
    pub path: String,
    pub query_string: Option<String>,
    /// The request's headers as a JSON object, in base64.
    pub request_headers: String,
    /// The first 64 KiB of the request's body, in base64.
    pub request_body: Option<String>,
    pub response_status: u16,
    /// The response's headers as a JSON object, in base64.
    pub response_headers: Option<String>,
    /// The first 64 KiB of the response's body, in base64.
    pub response_body: Option<String>,
    pub duration_ms: u32,
    /// When the request ended, in Unix seconds.
    pub timestamp: i64,
    /// The length of the request's body where it was cut.
    pub original_request_size: Option<u32>,
    /// The length of the response's body where it was cut.
    pub original_response_size: Option<u32>,
}

/// What the logger is told.
pub enum LoggerMessage {
    /// Record `request` for the session.
    Log { session_id: String, request: HttpRequestLog },
    /// Send what is recorded for the session: it is about to end.
    FlushSession { session_id: String },
}

/// Records that go to the metadata service together.
pub struct Batch {
    pub session_id: String,
    pub requests: Vec<HttpRequestLog>,
}

/// Measures how long a request takes.
pub struct RequestTimer {
    start: Instant,
}

impl RequestTimer {
    /// Starts the measurement now.
    pub fn start_now() -> (r: Self) {
        RequestTimer { start: instant_now() }
    }

    /// Milliseconds since the measurement started, by the machine's clock; the
    /// largest number where the count does not fit.
    pub fn elapsed_ms(&self) -> (r: u64) {
        millis_or_max(millis_since(&self.start))
    }
}

/// Whether header `i` is recorded: its name and its value are valid UTF-8.
pub open spec fn readable(h: HeaderView) -> bool {
    text_of(h.name) is Some && text_of(h.value) is Some
}

/// Whether a readable header after `i`, from `j` on, has the name of header `i`.
pub open spec fn superseded(hs: Seq<HeaderView>, i: int, j: int) -> bool
    decreases hs.len() - j,
{
    if j < 0 || j >= hs.len() || i < 0 || i >= hs.len() {
        false
    } else {
        (readable(hs[j]) && hs[j].name == hs[i].name) || superseded(hs, i, j + 1)
    }
}

/// A header as a member of a JSON object.
pub open spec fn json_member(h: HeaderView) -> Seq<u8> {
    json_string_bytes(text_of(h.name).unwrap()) + ascii_bytes(":"@) + json_string_bytes(
        text_of(h.value).unwrap(),
    )
}

/// The members for the headers from `i` on, with a comma before each but the
/// first. A header is a member if it is readable and no readable header after
/// it has its name: of several headers of one name the last counts.
pub open spec fn json_members(hs: Seq<HeaderView>, i: int, first: bool) -> Seq<u8>
    decreases hs.len() - i,
{
    if i < 0 || i >= hs.len() {
        Seq::empty()
    } else if readable(hs[i]) && !superseded(hs, i, i + 1) {
        (if first {
            Seq::empty()
        } else {
            ascii_bytes(","@)
        }) + json_member(hs[i]) + json_members(hs, i + 1, false)
    } else {
        json_members(hs, i + 1, first)
    }
}

/// The headers as a JSON object from name to value.
pub open spec fn headers_json(hs: Seq<HeaderView>) -> Seq<u8> {
    ascii_bytes("{"@) + json_members(hs, 0, true) + ascii_bytes("}"@)
}

fn is_superseded(hs: &Vec<Header>, i: usize) -> (r: bool)
    requires
        i < hs.len(),
    ensures
        r == superseded(header_views(hs@), i as int, i + 1),
{
    let mut j: usize = i + 1;
    while j < hs.len()
        invariant
            i < j <= hs.len(),
            superseded(header_views(hs@), i as int, i + 1) == superseded(
                header_views(hs@),
                i as int,
                j as int,
            ),
        decreases hs.len() - j,
    {
        assert(header_views(hs@)[j as int] == hs@[j as int]@);
        assert(header_views(hs@)[i as int] == hs@[i as int]@);
        if same_bytes(hs[j].name.as_slice(), hs[i].name.as_slice()) && utf8_text(
            hs[j].name.as_slice(),
        ).is_some() && utf8_text(hs[j].value.as_slice()).is_some() {
            return true;
        }
        j += 1;
    }
    false
}

/// Writes headers as a JSON object.
pub fn write_headers_json(hs: &Vec<Header>) -> (r: Vec<u8>)
    ensures
        r@ == headers_json(header_views(hs@)),
{
    proof {
        reveal_strlit("{");
        reveal_strlit("}");
        reveal_strlit(",");
        reveal_strlit(":");
    }
    let open_brace = lit("{");
    let close_brace = lit("}");
    let comma = lit(",");
    let colon = lit(":");
    let ghost hv = header_views(hs@);
    let mut out: Vec<u8> = Vec::new();
    push_all(&mut out, open_brace);
    let mut first = true;
    let mut i: usize = 0;
    while i < hs.len()
        invariant
            i <= hs.len(),
            hv == header_views(hs@),
            comma@ == ascii_bytes(","@),
            colon@ == ascii_bytes(":"@),
            open_brace@ == ascii_bytes("{"@),
            open_brace@ + json_members(hv, 0, true) == out@ + json_members(hv, i as int, first),
        decreases hs.len() - i,
    {
        assert(hv[i as int] == hs@[i as int]@);
        let name = utf8_text(hs[i].name.as_slice());
        let value = utf8_text(hs[i].value.as_slice());
        match (name, value) {
            (Some(n), Some(v)) => {
                if !is_superseded(hs, i) {
                    let ghost before = out@;
                    if !first {
                        push_all(&mut out, comma);
                    }
                    let qn = json_quote(n.as_str());
                    push_all(&mut out, qn.as_slice());
                    push_all(&mut out, colon);
                    let qv = json_quote(v.as_str());
                    push_all(&mut out, qv.as_slice());
                    assert(out@ =~= before + ((if first {
                        Seq::<u8>::empty()
                    } else {
                        ascii_bytes(","@)
                    }) + json_member(hv[i as int])));
                    assert(open_brace@ + json_members(hv, 0, true) =~= out@ + json_members(
                        hv,
                        i + 1,
                        false,
                    ));
                    first = false;
                }
            },
            _ => {},
        }
        i += 1;
    }
    assert(json_members(hv, hs@.len() as int, first) =~= Seq::<u8>::empty());
    assert(out@ =~= open_brace@ + json_members(hv, 0, true));
    push_all(&mut out, close_brace);
    out
}

/// The base64 text of `data`; empty for data too long to be encoded on this
/// machine.
pub open spec fn encoded_or_empty(data: Seq<u8>) -> Seq<char> {
    if data.len() <= usize::MAX / 2 {
        base64_standard(data)
    } else {
        Seq::empty()
    }
}

/// Encodes `data` in base64.
pub fn encode_or_empty(data: &[u8]) -> (r: String)
    ensures
        r@ == encoded_or_empty(data@),
{
    if data.len() <= usize::MAX / 2 {
        base64_encode(data)
    } else {
        String::new()
    }
}

/// A number of milliseconds as the record holds it.
pub open spec fn recorded_duration(ms: u64) -> u32 {
    if ms > u32::MAX {
        u32::MAX
    } else {
        ms as u32
    }
}

/// What is known of a request when it has ended.
pub struct RequestSummary<'a> {
    pub method: &'a [u8],
    pub path: &'a [u8],
    pub query: Option<&'a [u8]>,
    pub headers: &'a Vec<Header>,
    /// The request's body, as far as it was read.
    pub body: &'a [u8],
    pub response_status: u16,
    pub response_headers: Option<&'a Vec<Header>>,
    /// The recorded part of the response's body.
    pub response_body: Option<&'a [u8]>,
    pub original_response_size: Option<u32>,
    pub duration_ms: u64,
    pub timestamp: i64,
}

/// The text of an optional byte string, where it is there and valid UTF-8.
pub open spec fn optional_text_of(bytes: Option<Seq<u8>>) -> Option<Seq<char>> {
    match bytes {
        Some(b) => text_of(b),
        None => None,
    }
}

/// A length as the record holds it.
pub open spec fn recorded_length(n: nat) -> u32 {
    if n > u32::MAX {
        u32::MAX
    } else {
        n as u32
    }
}

/// Writes the record of a request: method, path and query as texts (`UNKNOWN`
/// and `/` where method or path cannot be read), the headers as JSON in base64,
/// the bodies cut to 64 KiB in base64, the full length of the request's body
/// where it has one, and the duration in milliseconds as far as 32 bits hold
/// it.
pub fn build_request_log(s: &RequestSummary) -> (r: HttpRequestLog)
    ensures
        r.method@ == text_or(Some(s.method@), "UNKNOWN"@),
        r.path@ == text_or(Some(s.path@), "/"@),
        crate::encoding::text_view(r.query_string) == optional_text_of(
            match s.query {
                Some(q) => Some(q@),
                None => None,
            },
        ),
        r.request_headers@ == encoded_or_empty(headers_json(header_views(s.headers@))),
        crate::encoding::text_view(r.request_body) == if s.body@.len() > 0 {
            Some(encoded_or_empty(truncated(s.body@, MAX_BODY_SIZE as int)))
        } else {
            None
        },
        r.response_status == s.response_status,
        crate::encoding::text_view(r.response_headers) == match s.response_headers {
            Some(hs) => Some(encoded_or_empty(headers_json(header_views(hs@)))),
            None => None,
        },
        crate::encoding::text_view(r.response_body) == match s.response_body {
            Some(b) => Some(encoded_or_empty(b@)),
            None => None,
        },
        r.duration_ms == recorded_duration(s.duration_ms),
        r.timestamp == s.timestamp,
        r.original_request_size == if s.body@.len() > 0 {
            Some(recorded_length(s.body@.len()))
        } else {
            None
        },
        r.original_response_size == s.original_response_size,
{
    let method = text_or_default(Some(copy_bytes(s.method)), "UNKNOWN");
    let path = text_or_default(Some(copy_bytes(s.path)), "/");
    let query_string = match s.query {
        Some(q) => utf8_text(q),
        None => None,
    };
    let request_json = write_headers_json(s.headers);
    let request_headers = encode_or_empty(request_json.as_slice());
    let (cut, _) = truncate_body(s.body, MAX_BODY_SIZE);
    let request_body = if s.body.len() > 0 {
        Some(encode_or_empty(cut.as_slice()))
    } else {
        None
    };
    let response_headers = match s.response_headers {
        Some(hs) => {
            let json = write_headers_json(hs);
            Some(encode_or_empty(json.as_slice()))
        },
        None => None,
    };
    let response_body = match s.response_body {
        Some(b) => Some(encode_or_empty(b)),
        None => None,
    };
    let original_request_size = if s.body.len() > 0 {
        Some(shorten_u64(s.body.len() as u64))
    } else {
        None
    };
    HttpRequestLog {
        method,
        path,
        query_string,
        request_headers,
        request_body,
        response_status: s.response_status,
        response_headers,
        response_body,
        duration_ms: shorten_u64(s.duration_ms),
        timestamp: s.timestamp,
        original_request_size,
        original_response_size: s.original_response_size,
    }
}

fn shorten_u64(n: u64) -> (r: u32)
    ensures
        r == recorded_duration(n),
{
    if n > u32::MAX as u64 {
        u32::MAX
    } else {
        n as u32
    }
}

/// The records of the first batch from `i` on that belongs to `session`; none
/// where there is no such batch.
pub open spec fn logs_of(batches: Seq<Batch>, session: Seq<char>, i: int) -> Seq<HttpRequestLog>
    decreases batches.len() - i,
{
    if i < 0 || i >= batches.len() {
        Seq::empty()
    } else if batches[i].session_id@ == session {
        batches[i].requests@
    } else {
        logs_of(batches, session, i + 1)
    }
}

/// Every session has at most one batch, and every batch holds at least one
/// record and fewer than fifty.
pub open spec fn batches_wf(batches: Seq<Batch>) -> bool {
    &&& forall|i: int, j: int|
        0 <= i < j < batches.len() ==> batches[i].session_id@ != batches[j].session_id@
    &&& forall|i: int|
        0 <= i < batches.len() ==> 0 < (#[trigger] batches[i]).requests@.len() < BATCH_SIZE
}

/// No batch from `i` on belongs to `session`.
pub open spec fn absent_from(batches: Seq<Batch>, session: Seq<char>, i: int) -> bool {
    forall|k: int| i <= k < batches.len() ==> (#[trigger] batches[k]).session_id@ != session
}

proof fn lemma_absent_logs(batches: Seq<Batch>, session: Seq<char>, i: int)
    requires
        0 <= i,
        absent_from(batches, session, i),
    ensures
        logs_of(batches, session, i) == Seq::<HttpRequestLog>::empty(),
    decreases batches.len() - i,
{
    if i < batches.len() {
        assert(batches[i].session_id@ != session);
        lemma_absent_logs(batches, session, i + 1);
    }
}

proof fn lemma_logs_at(batches: Seq<Batch>, session: Seq<char>, i: int, k: int)
    requires
        0 <= i <= k < batches.len(),
        batches[k].session_id@ == session,
        forall|m: int| i <= m < k ==> (#[trigger] batches[m]).session_id@ != session,
    ensures
        logs_of(batches, session, i) == batches[k].requests@,
    decreases k - i,
{
    if i < k {
        assert(batches[i].session_id@ != session);
        lemma_logs_at(batches, session, i + 1, k);
    }
}

proof fn lemma_logs_after_remove(batches: Seq<Batch>, k: int, session: Seq<char>, i: int)
    requires
        0 <= i,
        0 <= k < batches.len(),
        batches_wf(batches),
    ensures
        logs_of(batches.remove(k), session, if i <= k {
            i
        } else {
            i - 1
        }) == if batches[k].session_id@ == session {
            if i <= k {
                Seq::<HttpRequestLog>::empty()
            } else {
                logs_of(batches, session, i)
            }
        } else {
            logs_of(batches, session, i)
        },
    decreases batches.len() - i,
{
    let rest = batches.remove(k);
    if i >= batches.len() {
    } else if i < k {
        assert(rest[i] == batches[i]);
        if batches[i].session_id@ == session {
        } else {
            lemma_logs_after_remove(batches, k, session, i + 1);
        }
    } else if i == k {
        lemma_logs_after_remove(batches, k, session, i + 1);
        if batches[k].session_id@ == session {
            assert(absent_from(batches, session, k + 1));
            lemma_absent_logs(batches, session, k + 1);
        }
    } else {
        assert(rest[i - 1] == batches[i]);
        if batches[i].session_id@ == session {
        } else {
            lemma_logs_after_remove(batches, k, session, i + 1);
        }
    }
}

proof fn lemma_logs_after_push(batches: Seq<Batch>, b: Batch, session: Seq<char>, i: int)
    requires
        0 <= i <= batches.len(),
    ensures
        logs_of(batches.push(b), session, i) == if absent_from(batches, session, i) {
            if b.session_id@ == session {
                b.requests@
            } else {
                Seq::<HttpRequestLog>::empty()
            }
        } else {
            logs_of(batches, session, i)
        },
    decreases batches.len() - i,
{
    let more = batches.push(b);
    if i == batches.len() {
        assert(more[i] == b);
        assert(logs_of(more, session, i + 1) == Seq::<HttpRequestLog>::empty());
    } else {
        assert(more[i] == batches[i]);
        if batches[i].session_id@ == session {
            assert(!absent_from(batches, session, i));
        } else {
            lemma_logs_after_push(batches, b, session, i + 1);
            assert(absent_from(batches, session, i) == absent_from(batches, session, i + 1)) by {
                if absent_from(batches, session, i + 1) {
                    assert forall|k: int| i <= k < batches.len() implies (
                    #[trigger] batches[k]).session_id@ != session by {
                        if k > i {
                        }
                    }
                }
            }
        }
    }
}

/// Taking a batch out keeps the batches well formed, and leaves none for its
/// session.
proof fn lemma_remove_keeps_wf(batches: Seq<Batch>, k: int)
    requires
        0 <= k < batches.len(),
        batches_wf(batches),
    ensures
        batches_wf(batches.remove(k)),
        absent_from(batches.remove(k), batches[k].session_id@, 0),
{
    let rest = batches.remove(k);
    assert forall|i: int| 0 <= i < rest.len() implies rest[i] == batches[if i < k {
        i
    } else {
        i + 1
    }] by {}
    assert forall|i: int, j: int| 0 <= i < j < rest.len() implies rest[i].session_id@
        != rest[j].session_id@ by {
        let oi = if i < k {
            i
        } else {
            i + 1
        };
        let oj = if j < k {
            j
        } else {
            j + 1
        };
        assert(rest[i] == batches[oi]);
        assert(rest[j] == batches[oj]);
    }
    assert forall|i: int| 0 <= i < rest.len() implies 0 < (#[trigger] rest[i]).requests@.len()
        < BATCH_SIZE by {
        let oi = if i < k {
            i
        } else {
            i + 1
        };
        assert(rest[i] == batches[oi]);
    }
    assert forall|m: int| 0 <= m < rest.len() implies (#[trigger] rest[m]).session_id@
        != batches[k].session_id@ by {
        let om = if m < k {
            m
        } else {
            m + 1
        };
        assert(rest[m] == batches[om]);
    }
}

/// Adding a batch for a session that has none keeps the batches well formed.
proof fn lemma_push_keeps_wf(batches: Seq<Batch>, b: Batch)
    requires
        batches_wf(batches),
        absent_from(batches, b.session_id@, 0),
        0 < b.requests@.len() < BATCH_SIZE,
    ensures
        batches_wf(batches.push(b)),
{
    let more = batches.push(b);
    assert forall|i: int, j: int| 0 <= i < j < more.len() implies more[i].session_id@
        != more[j].session_id@ by {
        assert(more[i] == batches[i]);
        if j < batches.len() {
            assert(more[j] == batches[j]);
        }
    }
    assert forall|i: int| 0 <= i < more.len() implies 0 < (#[trigger] more[i]).requests@.len()
        < BATCH_SIZE by {
        if i < batches.len() {
            assert(more[i] == batches[i]);
        }
    }
}

/// The records that wait to be sent, by session.
pub struct LogBuffer {
    batches: Vec<Batch>,
}

impl LogBuffer {
    /// The batches that wait.
    pub closed spec fn stored(&self) -> Seq<Batch> {
        self.batches@
    }

    /// The records that wait for `session`.
    pub open spec fn logs(&self, session: Seq<char>) -> Seq<HttpRequestLog> {
        logs_of(self.stored(), session, 0)
    }

    /// Every session has at most one batch, and every batch holds at least one
    /// record and fewer than fifty.
    pub open spec fn wf(&self) -> bool {
        batches_wf(self.stored())
    }

    /// A buffer without records.
    pub fn new() -> (r: Self)
        ensures
            r.wf(),
            r.stored() == Seq::<Batch>::empty(),
    {
        LogBuffer { batches: Vec::new() }
    }

    fn position(&self, session: &str) -> (r: Option<usize>)
        requires
            self.wf(),
        ensures
            match r {
                Some(k) => k < self.stored().len() && self.stored()[k as int].session_id@
                    == session@ && self.logs(session@) == self.stored()[k as int].requests@,
                None => absent_from(self.stored(), session@, 0) && self.logs(session@)
                    == Seq::<HttpRequestLog>::empty(),
            },
    {
        let mut i: usize = 0;
        while i < self.batches.len()
            invariant
                i <= self.batches.len(),
                forall|m: int| 0 <= m < i ==> (#[trigger] self.batches@[m]).session_id@ != session@,
            decreases self.batches.len() - i,
        {
            if crate::protocol::same_text(self.batches[i].session_id.as_str(), session) {
                proof {
                    lemma_logs_at(self.batches@, session@, 0, i as int);
                }
                return Some(i);
            }
            i += 1;
        }
        proof {
            lemma_absent_logs(self.batches@, session@, 0);
        }
        None
    }

    /// Takes a message. A record joins those of its session; with the fiftieth
    /// the session's records come back as a batch to send. A flush gives the
    /// session's records as a batch, if there are any. In both cases nothing is
    /// left waiting for the session once a batch came back, and the records of
    /// the other sessions stay as they are.
    pub fn on_message(&mut self, msg: LoggerMessage) -> (r: Option<Batch>)
        requires
            old(self).wf(),
        ensures
            final(self).wf(),
            match msg {
                LoggerMessage::Log { session_id, request } => {
                    let all = old(self).logs(session_id@).push(request);
                    &&& forall|s: Seq<char>|
                        s != session_id@ ==> #[trigger] final(self).logs(s) == old(self).logs(s)
                    &&& if all.len() >= BATCH_SIZE {
                        &&& r is Some
                        &&& r.unwrap().session_id@ == session_id@
                        &&& r.unwrap().requests@ == all
                        &&& final(self).logs(session_id@) == Seq::<HttpRequestLog>::empty()
                    } else {
                        &&& r is None
                        &&& final(self).logs(session_id@) == all
                    }
                },
                LoggerMessage::FlushSession { session_id } => {
                    &&& forall|s: Seq<char>|
                        s != session_id@ ==> #[trigger] final(self).logs(s) == old(self).logs(s)
                    &&& final(self).logs(session_id@) == Seq::<HttpRequestLog>::empty()
                    &&& if old(self).logs(session_id@).len() > 0 {
                        &&& r is Some
                        &&& r.unwrap().session_id@ == session_id@
                        &&& r.unwrap().requests@ == old(self).logs(session_id@)
                    } else {
                        r is None
                    }
                },
            },
    {
        match msg {
            LoggerMessage::Log { session_id, request } => {
                let mut batch = match self.take(session_id.as_str()) {
                    Some(b) => b,
                    None => Batch { session_id, requests: Vec::new() },
                };
                let ghost mid = *self;
                let ghost middle = self.batches@;
                batch.requests.push(request);
                if batch.requests.len() >= BATCH_SIZE {
                    proof {
                        assert forall|s: Seq<char>| s != session_id@ implies #[trigger] self.logs(s)
                            == old(self).logs(s) by {
                            assert(mid.logs(s) == old(self).logs(s));
                        }
                    }
                    Some(batch)
                } else {
                    let ghost pushed = batch;
                    self.batches.push(batch);
                    proof {
                        lemma_push_keeps_wf(middle, pushed);
                        assert forall|s: Seq<char>| true implies logs_of(self.batches@, s, 0) == if s
                            == pushed.session_id@ {
                            pushed.requests@
                        } else {
                            logs_of(middle, s, 0)
                        } by {
                            lemma_logs_after_push(middle, pushed, s, 0);
                            if s != pushed.session_id@ && absent_from(middle, s, 0) {
                                lemma_absent_logs(middle, s, 0);
                            }
                        }
                        assert forall|s: Seq<char>| s != session_id@ implies #[trigger] self.logs(s)
                            == old(self).logs(s) by {
                            assert(mid.logs(s) == old(self).logs(s));
                        }
                    }
                    None
                }
            },
            LoggerMessage::FlushSession { session_id } => self.take(session_id.as_str()),
        }
    }

    /// Takes the batch of `session` out, if it has one.
    fn take(&mut self, session: &str) -> (r: Option<Batch>)
        requires
            old(self).wf(),
        ensures
            final(self).wf(),
            absent_from(final(self).stored(), session@, 0),
            final(self).logs(session@) == Seq::<HttpRequestLog>::empty(),
            forall|s: Seq<char>| s != session@ ==> #[trigger] final(self).logs(s) == old(self).logs(s),
            match r {
                Some(b) => b.session_id@ == session@ && b.requests@ == old(self).logs(session@)
                    && 0 < b.requests@.len() < BATCH_SIZE,
                None => old(self).logs(session@) == Seq::<HttpRequestLog>::empty(),
            },
    {
        let ghost before = self.batches@;
        match self.position(session) {
            Some(k) => {
                let b = self.batches.remove(k);
                proof {
                    lemma_remove_keeps_wf(before, k as int);
                    assert forall|s: Seq<char>| true implies logs_of(self.batches@, s, 0) == if s
                        == session@ {
                        Seq::<HttpRequestLog>::empty()
                    } else {
                        logs_of(before, s, 0)
                    } by {
                        lemma_logs_after_remove(before, k as int, s, 0);
                    }
                }
                Some(b)
            },
            None => None,
        }
    }

    /// The periodic flush: every batch that waits comes back to be sent, and
    /// nothing is left waiting.
    pub fn on_tick(&mut self) -> (r: Vec<Batch>)
        requires
            old(self).wf(),
        ensures
            final(self).wf(),
            r@ == old(self).stored(),
            final(self).stored() == Seq::<Batch>::empty(),
    {
        let mut out: Vec<Batch> = Vec::new();
        std::mem::swap(&mut out, &mut self.batches);
        out
    }
}

} // verus!
