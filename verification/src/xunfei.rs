use vstd::prelude::*;

use crate::codec::{
    base64_decode, law_base64_round_trip, http_date_shape, base64_encode, base64_standard, format_utc_now, hmac_sha256, hmac_sha256_tag, url_encode,
    url_encode_bytes,
};
use crate::json::{
    array_of, entries_view, field, field_of, lookup, i64_of, items_view, lemma_items_view_index,
    lemma_items_view_len, opt_array, opt_get, opt_i64, opt_str, str_of, Json, JsonNumber,
    JsonView, NumberView,
};
use crate::preset::{int_json, int_view};
use crate::text::{blank, is_blank};
use vstd::utf8::encode_utf8;

verus! {

// ---------------------------------------------------------------------------
// The signed address of the speech recognition service.
// ---------------------------------------------------------------------------

/// Host of the speech recognition service.
pub open spec fn iat_host() -> Seq<char> {
    "iat-api.xfyun.cn"@
}

/// The text signed to authorize a connection made at `date`.
pub open spec fn signature_origin(date: Seq<char>) -> Seq<char> {
    "host: "@ + iat_host() + "\ndate: "@ + date + "\n"@ + "GET /v2/iat HTTP/1.1"@
}

/// The authorization text, before its base64 encoding.
pub open spec fn authorization_origin(api_key: Seq<char>, signature: Seq<char>) -> Seq<char> {
    "api_key=\""@ + api_key + "\", algorithm=\"hmac-sha256\", headers=\"host date request-line\", signature=\""@
        + signature + "\""@
}

/// The address of a connection made at `date`, signed with the API secret.
pub open spec fn signed_url(api_key: Seq<char>, api_secret: Seq<char>, date: Seq<char>) -> Seq<char> {
    let signature = base64_standard(
        hmac_sha256_tag(encode_utf8(api_secret), encode_utf8(signature_origin(date))),
    );
    let authorization = base64_standard(encode_utf8(authorization_origin(api_key, signature)));
    "wss://"@ + iat_host() + "/v2/iat?authorization="@ + url_encode_bytes(encode_utf8(authorization))
        + "&date="@ + url_encode_bytes(encode_utf8(date)) + "&host="@ + iat_host()
}

/// The signed address of a connection made at `date` (an HTTP date such as
/// `Mon, 01 Jan 2024 00:00:00 GMT`).
pub fn xunfei_signed_url(api_key: &str, api_secret: &str, date: &str) -> (r: Result<String, String>)
    ensures
        r matches Ok(url) && url@ == signed_url(api_key@, api_secret@, date@),
{
    let mut origin = "host: ".to_owned();
    origin.append("iat-api.xfyun.cn");
    origin.append("\ndate: ");
    origin.append(date);
    origin.append("\n");
    origin.append("GET /v2/iat HTTP/1.1");
    assert(origin@ =~= signature_origin(date@));
    let tag = match hmac_sha256(api_secret.as_bytes(), origin.as_str().as_bytes()) {
        Ok(tag) => tag,
        Err(_) => return Err("Invalid Length".to_owned()),
    };
    let signature = base64_encode(tag.as_slice());
    let mut auth = "api_key=\"".to_owned();
    auth.append(api_key);
    auth.append("\", algorithm=\"hmac-sha256\", headers=\"host date request-line\", signature=\"");
    auth.append(signature.as_str());
    auth.append("\"");
    assert(auth@ =~= authorization_origin(api_key@, signature@));
    let authorization = base64_encode(auth.as_str().as_bytes());
    let mut url = "wss://".to_owned();
    url.append("iat-api.xfyun.cn");
    url.append("/v2/iat?authorization=");
    let enc_auth = url_encode(authorization.as_str());
    url.append(enc_auth.as_str());
    url.append("&date=");
    let enc_date = url_encode(date);
    url.append(enc_date.as_str());
    url.append("&host=");
    url.append("iat-api.xfyun.cn");
    assert(url@ =~= signed_url(api_key@, api_secret@, date@));
    Ok(url)
}

/// The signed address of a connection made now: signed at the current UTC time.
pub fn xunfei_build_url(api_key: &str, api_secret: &str) -> (r: Result<String, String>)
    ensures
        r is Ok,
        r matches Ok(url) && exists|date: Seq<char>|
            http_date_shape(date) && url@ == signed_url(api_key@, api_secret@, date),
{
    let date = format_utc_now("%a, %d %b %Y %H:%M:%S GMT");
    xunfei_signed_url(api_key, api_secret, &date)
}

// ---------------------------------------------------------------------------
// Audio frames.
// ---------------------------------------------------------------------------

/// Samples sent per frame.
pub const CHUNK_SIZE: usize = 640;

/// A frame of the recognition stream (`status` 0 opens, 1 continues, 2 ends).
pub open spec fn frame_view(app_id: Seq<char>, status: int, audio: Seq<char>) -> JsonView {
    JsonView::Object(
        seq![
            ("common"@, JsonView::Object(seq![("app_id"@, JsonView::Str(app_id))])),
            (
                "business"@,
                JsonView::Object(
                    seq![
                        ("language"@, JsonView::Str("zh_cn"@)),
                        ("domain"@, JsonView::Str("iat"@)),
                        ("accent"@, JsonView::Str("mandarin"@)),
                        ("dwa"@, JsonView::Str("wpgs"@)),
                        ("vad_eos"@, JsonView::Number(NumberView::PosInt(60000))),
                        ("ptt"@, JsonView::Number(NumberView::PosInt(0))),
                    ],
                ),
            ),
            (
                "data"@,
                JsonView::Object(
                    seq![
                        ("status"@, int_view(status)),
                        ("format"@, JsonView::Str("audio/L16;rate=16000"@)),
                        ("encoding"@, JsonView::Str("raw"@)),
                        ("audio"@, JsonView::Str(audio)),
                    ],
                ),
            ),
        ],
    )
}

fn str_entry(k: &str, v: &str) -> (r: (String, Json))
    ensures
        r.0@ == k@,
        r.1@ == JsonView::Str(v@),
{
    (k.to_owned(), Json::Str(v.to_owned()))
}

/// The frame that carries `pcm` (16-bit little-endian mono samples at 16 kHz) in base64.
pub fn xunfei_frame(app_id: &str, status: i32, pcm: &[u8]) -> (r: Json)
    ensures
        r@ == frame_view(app_id@, status as int, base64_standard(pcm@)),
{
    let common: Vec<(String, Json)> = vec![str_entry("app_id", app_id)];
    let business: Vec<(String, Json)> = vec![
        str_entry("language", "zh_cn"),
        str_entry("domain", "iat"),
        str_entry("accent", "mandarin"),
        str_entry("dwa", "wpgs"),
        ("vad_eos".to_owned(), Json::Number(JsonNumber::PosInt(60000))),
        ("ptt".to_owned(), Json::Number(JsonNumber::PosInt(0))),
    ];
    let audio = base64_encode(pcm);
    let data: Vec<(String, Json)> = vec![
        ("status".to_owned(), int_json(status as i64)),
        str_entry("format", "audio/L16;rate=16000"),
        str_entry("encoding", "raw"),
        ("audio".to_owned(), Json::Str(audio)),
    ];
    proof {
        reveal_with_fuel(entries_view, 7);
    }
    let ghost fv = frame_view(app_id@, status as int, base64_standard(pcm@));
    assert(entries_view(common@) =~= seq![("app_id"@, JsonView::Str(app_id@))]);
    assert(entries_view(business@) =~= fv->Object_0[1].1->Object_0);
    assert(entries_view(data@) =~= fv->Object_0[2].1->Object_0);
    let frame: Vec<(String, Json)> = vec![
        ("common".to_owned(), Json::Object(common)),
        ("business".to_owned(), Json::Object(business)),
        ("data".to_owned(), Json::Object(data)),
    ];
    assert(entries_view(frame@) =~= fv->Object_0);
    Json::Object(frame)
}

/// The little-endian bytes of 16-bit samples, two per sample.
pub open spec fn le_bytes(samples: Seq<i16>) -> Seq<u8>
    decreases samples.len(),
{
    if samples.len() == 0 {
        Seq::empty()
    } else {
        let v: int = if samples.last() >= 0 { samples.last() as int } else { samples.last() + 65536 };
        le_bytes(samples.drop_last()).push((v % 256) as u8).push((v / 256) as u8)
    }
}

/// The little-endian bytes of 16-bit samples, like `to_le_bytes` on each.
pub fn pcm_le_bytes(samples: &[i16]) -> (r: Vec<u8>)
    ensures
        r@ == le_bytes(samples@),
{
    let mut out: Vec<u8> = Vec::new();
    for i in 0..samples.len()
        invariant
            out@ == le_bytes(samples@.take(i as int)),
    {
        let s = samples[i];
        let v: i32 = if s >= 0 { s as i32 } else { s as i32 + 65536 };
        out.push((v % 256) as u8);
        out.push((v / 256) as u8);
        assert(samples@.take(i + 1).drop_last() =~= samples@.take(i as int));
    }
    assert(samples@.take(samples@.len() as int) =~= samples@);
    out
}

/// How pending samples are cut into frames: full chunks of `CHUNK_SIZE` while there are
/// enough, then, when all of them must go, one shorter chunk with the rest. Also gives
/// the number of samples left pending.
pub fn chunk_sizes(pending: usize, flush_all: bool) -> (r: (Vec<usize>, usize))
    ensures
        r.0.len() == pending / CHUNK_SIZE + if flush_all && pending % CHUNK_SIZE > 0 { 1int } else { 0 },
        forall|i: int| 0 <= i < pending / CHUNK_SIZE ==> #[trigger] r.0[i] == CHUNK_SIZE,
        flush_all && pending % CHUNK_SIZE > 0 ==> r.0[r.0.len() - 1] == pending % CHUNK_SIZE,
        r.1 == if flush_all { 0 } else { pending % CHUNK_SIZE },
{
    let mut sizes: Vec<usize> = Vec::new();
    let mut left = pending;
    while left >= CHUNK_SIZE
        invariant
            left <= pending,
            forall|i: int| 0 <= i < sizes.len() ==> #[trigger] sizes[i] == CHUNK_SIZE,
            pending == sizes.len() * CHUNK_SIZE + left,
        decreases left,
    {
        sizes.push(CHUNK_SIZE);
        left -= CHUNK_SIZE;
    }
    let full = sizes.len();
    assert(full == pending / CHUNK_SIZE && left == pending % CHUNK_SIZE) by (nonlinear_arith)
        requires
            pending == full * 640 + left,
            left < 640,
            CHUNK_SIZE == 640,
    ;
    if flush_all && left > 0 {
        sizes.push(left);
        left = 0;
    }
    (sizes, left)
}

// ---------------------------------------------------------------------------
// Recognition results.
// ---------------------------------------------------------------------------

/// The word of a candidate (`w`), empty when it has none.
pub open spec fn candidate_word(c: JsonView) -> Seq<char> {
    match str_of(field(c, "w"@)) {
        Some(w) => w,
        None => Seq::empty(),
    }
}

/// The words of a segment's candidates, joined.
pub open spec fn candidates_text(cw: Seq<JsonView>) -> Seq<char>
    decreases cw.len(),
{
    if cw.len() == 0 {
        Seq::empty()
    } else {
        candidates_text(cw.drop_last()) + candidate_word(cw.last())
    }
}

/// The text of a segment (its `cw` candidates), empty when it has none.
pub open spec fn segment_text(seg: JsonView) -> Seq<char> {
    match array_of(field(seg, "cw"@)) {
        Some(cw) => candidates_text(cw),
        None => Seq::empty(),
    }
}

/// The text of all segments, joined.
pub open spec fn segments_text(ws: Seq<JsonView>) -> Seq<char>
    decreases ws.len(),
{
    if ws.len() == 0 {
        Seq::empty()
    } else {
        segments_text(ws.drop_last()) + segment_text(ws.last())
    }
}

/// The recognized text a response carries: the segments of `data.result.ws`, when
/// `data.result` is an object with a `ws` array.
pub open spec fn response_text(resp: JsonView) -> Option<Seq<char>> {
    match field_of(field(resp, "data"@), "result"@) {
        Some(JsonView::Object(es)) => match array_of(field(JsonView::Object(es), "ws"@)) {
            Some(ws) => Some(segments_text(ws)),
            None => None,
        },
        _ => None,
    }
}

/// Whether the text of a response replaces what came before (`pgs` is `rpl`).
pub open spec fn response_replaces(resp: JsonView) -> bool {
    str_of(field_of(field_of(field(resp, "data"@), "result"@), "pgs"@)) == Some("rpl"@)
}

/// The error code of a response (0 when it has none).
pub open spec fn response_code(resp: JsonView) -> int {
    match i64_of(field(resp, "code"@)) {
        Some(c) => c as int,
        None => 0,
    }
}

/// Whether a response marks the end of recognition (`data.status` is 2).
pub open spec fn response_final(resp: JsonView) -> bool {
    i64_of(field_of(field(resp, "data"@), "status"@)) == Some(2i64)
}

/// A message for the conversation window.
#[derive(Debug, Clone)]
pub struct XunfeiNotice {
    pub event: String,
    pub text: String,
}

/// A change of the deadline by which the last results must come.
#[derive(Debug, Clone, Copy, PartialEq, Eq)]
pub enum DeadlineChange {
    Keep,
    /// The deadline becomes this many milliseconds from now.
    In(u64),
}

/// What handling a message of the recognition service leads to.
#[derive(Debug, Clone)]
pub struct XunfeiHandled {
    /// Whether the session goes on.
    pub keep_going: bool,
    pub notice: Option<XunfeiNotice>,
    pub deadline: DeadlineChange,
}

pub open spec fn notice_view(n: Option<XunfeiNotice>) -> Option<(Seq<char>, Seq<char>)> {
    match n {
        Some(x) => Some((x.event@, x.text@)),
        None => None,
    }
}

/// The expected result of handling a message, with the latest text before and after.
pub open spec fn handled_spec(
    parsed: Result<JsonView, Seq<char>>,
    latest: Seq<char>,
    finishing: bool,
    has_deadline: bool,
) -> (bool, Option<(Seq<char>, Seq<char>)>, DeadlineChange, Seq<char>) {
    match parsed {
        Err(e) => (false, Some(("xunfei:error"@, "讯飞响应解析失败: "@ + e)), DeadlineChange::Keep, latest),
        Ok(resp) => if response_code(resp) != 0 {
            let msg = match str_of(field(resp, "message"@)) {
                Some(m) => m,
                None => "未知错误"@,
            };
            (false, Some(("xunfei:error"@, msg)), DeadlineChange::Keep, latest)
        } else {
            let text = response_text(resp);
            let updated = text is Some && !blank(text->0);
            let new_latest = if updated { text->0 } else { latest };
            let notice = if updated {
                Some((if response_replaces(resp) { "xunfei:final"@ } else { "xunfei:partial"@ }, text->0))
            } else {
                None
            };
            let deadline = if has_deadline && response_final(resp) {
                DeadlineChange::In(250)
            } else if has_deadline && updated && finishing {
                DeadlineChange::In(700)
            } else {
                DeadlineChange::Keep
            };
            (true, notice, deadline, new_latest)
        },
    }
}

pub open spec fn parsed_view(p: Result<Json, String>) -> Result<JsonView, Seq<char>> {
    match p {
        Ok(j) => Ok(j@),
        Err(e) => Err(e@),
    }
}

fn candidates_text_of(cw: &Vec<Json>) -> (r: String)
    ensures
        r@ == candidates_text(items_view(cw@)),
{
    let mut text = String::new();
    proof {
        lemma_items_view_len(cw@);
    }
    assert(items_view(cw@).take(0) =~= Seq::<JsonView>::empty());
    for i in 0..cw.len()
        invariant
            items_view(cw@).len() == cw.len(),
            text@ == candidates_text(items_view(cw@).take(i as int)),
    {
        proof {
            lemma_items_view_index(cw@, i as int);
            assert(items_view(cw@).take(i + 1).drop_last() =~= items_view(cw@).take(i as int));
        }
        match opt_str(cw[i].get("w")) {
            Some(w) => {
                text.append(w.as_str());
            },
            None => {
                assert(text@ + Seq::<char>::empty() =~= text@);
            },
        }
    }
    assert(items_view(cw@).take(cw.len() as int) =~= items_view(cw@));
    text
}

fn segments_text_of(ws: &Vec<Json>) -> (r: String)
    ensures
        r@ == segments_text(items_view(ws@)),
{
    let mut text = String::new();
    proof {
        lemma_items_view_len(ws@);
    }
    assert(items_view(ws@).take(0) =~= Seq::<JsonView>::empty());
    for i in 0..ws.len()
        invariant
            items_view(ws@).len() == ws.len(),
            text@ == segments_text(items_view(ws@).take(i as int)),
    {
        proof {
            lemma_items_view_index(ws@, i as int);
            assert(items_view(ws@).take(i + 1).drop_last() =~= items_view(ws@).take(i as int));
        }
        match opt_array(ws[i].get("cw")) {
            Some(cw) => {
                let part = candidates_text_of(cw);
                text.append(part.as_str());
            },
            None => {
                assert(text@ + Seq::<char>::empty() =~= text@);
            },
        }
    }
    assert(items_view(ws@).take(ws.len() as int) =~= items_view(ws@));
    text
}

fn notice(event: &str, text: String) -> (r: Option<XunfeiNotice>)
    ensures
        notice_view(r) == Some((event@, text@)),
{
    Some(XunfeiNotice { event: event.to_owned(), text })
}

/// Handles a message of the recognition service (already parsed, or the parse error's
/// text): reports errors, keeps the latest recognized text, and says how the deadline
/// moves when there is one.
pub fn handle_xunfei_message(
    parsed: &Result<Json, String>,
    latest_text: &mut String,
    finishing: bool,
    has_deadline: bool,
) -> (r: XunfeiHandled)
    ensures
        ({
            let s = handled_spec(parsed_view(*parsed), old(latest_text)@, finishing, has_deadline);
            &&& r.keep_going == s.0
            &&& notice_view(r.notice) == s.1
            &&& r.deadline == s.2
            &&& final(latest_text)@ == s.3
        }),
{
    let resp = match parsed {
        Err(e) => {
            let mut msg = "讯飞响应解析失败: ".to_owned();
            msg.append(e.as_str());
            return XunfeiHandled {
                keep_going: false,
                notice: notice("xunfei:error", msg),
                deadline: DeadlineChange::Keep,
            };
        },
        Ok(resp) => resp,
    };
    let code = match resp.get("code") {
        Some(v) => match v.as_i64() {
            Some(c) => c,
            None => 0,
        },
        None => 0,
    };
    if code != 0 {
        let msg = match opt_str(resp.get("message")) {
            Some(m) => m.clone(),
            None => "未知错误".to_owned(),
        };
        return XunfeiHandled {
            keep_going: false,
            notice: notice("xunfei:error", msg),
            deadline: DeadlineChange::Keep,
        };
    }
    let data = resp.get("data");
    let result = opt_get(data, "result");
    let mut out_notice: Option<XunfeiNotice> = None;
    let mut updated = false;
    match result {
        Some(Json::Object(_)) => {
            let res = result.unwrap();
            match opt_array(res.get("ws")) {
                Some(ws) => {
                    let text = segments_text_of(ws);
                    if !is_blank(&text) {
                        *latest_text = text.clone();
                        let replaces = match opt_str(res.get("pgs")) {
                            Some(p) => crate::text::str_eq(p, "rpl"),
                            None => false,
                        };
                        let event = if replaces { "xunfei:final" } else { "xunfei:partial" };
                        out_notice = notice(event, text);
                        updated = true;
                    }
                },
                None => {},
            }
        },
        _ => {},
    }
    let status = opt_i64(opt_get(data, "status"));
    let deadline = if has_deadline && status == Some(2i64) {
        DeadlineChange::In(250)
    } else if has_deadline && updated && finishing {
        DeadlineChange::In(700)
    } else {
        DeadlineChange::Keep
    };
    XunfeiHandled { keep_going: true, notice: out_notice, deadline }
}

// ---------------------------------------------------------------------------
// The recognition session.
// ---------------------------------------------------------------------------

/// Milliseconds the session waits for the last results once the audio is finished.
pub const DRAIN_MS: u64 = 3500;

/// Something that happened to a recognition session.
#[derive(Debug)]
pub enum XunfeiEvent {
    /// More samples were appended to the pending ones.
    Samples,
    /// The window stopped sending samples for good.
    AudioClosed,
    /// The window asked to finish and collect the result.
    Finish,
    /// The window asked to abort.
    Abort,
    /// A text message came from the service: its JSON, or the parse error's text.
    Text(Result<Json, String>),
    /// The service closed the connection, or the stream ended.
    Closed,
    /// Another kind of message came from the service.
    Other,
    /// The connection failed; the error's text.
    Failed(String),
    /// The deadline for the last results passed.
    TimeUp,
}

/// What the session runner does next.
#[derive(Debug, Clone, Copy, PartialEq, Eq)]
pub enum XunfeiAction {
    /// Wait for the next event.
    Continue,
    /// Send the full chunks of pending samples.
    FlushSamples,
    /// Send all pending samples and the closing frame, then wait for the last results.
    StartDraining,
    /// Hand over the latest text as the result, closing the connection when asked.
    Stop { close_socket: bool },
}

/// One step of a recognition session.
#[derive(Debug, Clone)]
pub struct XunfeiStep {
    pub notice: Option<XunfeiNotice>,
    pub action: XunfeiAction,
    pub deadline: DeadlineChange,
}

/// The state of a recognition session: the latest recognized text, and whether the audio
/// is finished (the session then only waits for the last results).
#[derive(Debug, Clone)]
pub struct XunfeiSession {
    pub latest_text: String,
    pub finishing: bool,
}

/// The expected step of a session in state (`latest`, `finishing`) on an event, with the
/// state after it.
pub open spec fn session_step(latest: Seq<char>, finishing: bool, event: XunfeiEvent) -> (
    Option<(Seq<char>, Seq<char>)>,
    XunfeiAction,
    DeadlineChange,
    Seq<char>,
    bool,
) {
    if !finishing {
        match event {
            XunfeiEvent::Samples => (None, XunfeiAction::FlushSamples, DeadlineChange::Keep, latest, false),
            XunfeiEvent::AudioClosed => (None, XunfeiAction::Stop { close_socket: true }, DeadlineChange::Keep, latest, false),
            XunfeiEvent::Finish => (None, XunfeiAction::StartDraining, DeadlineChange::In(DRAIN_MS), latest, true),
            XunfeiEvent::Abort => (None, XunfeiAction::Stop { close_socket: true }, DeadlineChange::Keep, latest, false),
            XunfeiEvent::Text(p) => {
                let h = handled_spec(parsed_view(p), latest, false, false);
                (
                    h.1,
                    if h.0 { XunfeiAction::Continue } else { XunfeiAction::Stop { close_socket: true } },
                    DeadlineChange::Keep,
                    h.3,
                    false,
                )
            },
            XunfeiEvent::Closed => (None, XunfeiAction::Stop { close_socket: false }, DeadlineChange::Keep, latest, false),
            XunfeiEvent::Failed(e) => (
                Some(("xunfei:error"@, e@)),
                XunfeiAction::Stop { close_socket: true },
                DeadlineChange::Keep,
                latest,
                false,
            ),
            _ => (None, XunfeiAction::Continue, DeadlineChange::Keep, latest, false),
        }
    } else {
        match event {
            XunfeiEvent::Text(p) => {
                let h = handled_spec(parsed_view(p), latest, true, true);
                (
                    h.1,
                    if h.0 { XunfeiAction::Continue } else { XunfeiAction::Stop { close_socket: true } },
                    h.2,
                    h.3,
                    true,
                )
            },
            XunfeiEvent::Closed => (None, XunfeiAction::Stop { close_socket: true }, DeadlineChange::Keep, latest, true),
            XunfeiEvent::TimeUp => (None, XunfeiAction::Stop { close_socket: true }, DeadlineChange::Keep, latest, true),
            XunfeiEvent::Failed(e) => (
                Some(("xunfei:error"@, e@)),
                XunfeiAction::Stop { close_socket: true },
                DeadlineChange::Keep,
                latest,
                true,
            ),
            _ => (None, XunfeiAction::Continue, DeadlineChange::Keep, latest, true),
        }
    }
}

impl XunfeiSession {
    /// A session that has recognized nothing yet and still takes audio.
    pub fn new() -> (r: XunfeiSession)
        ensures
            r.latest_text@ == Seq::<char>::empty(),
            !r.finishing,
    {
        XunfeiSession { latest_text: String::new(), finishing: false }
    }

    /// Decides what a session does on an event. While audio comes in, samples are sent
    /// as they fill chunks and messages update the text; finishing sends the rest and
    /// waits up to `DRAIN_MS` for the last results, a final result shortening the wait.
    pub fn step(&mut self, event: XunfeiEvent) -> (r: XunfeiStep)
        ensures
            ({
                let s = session_step(old(self).latest_text@, old(self).finishing, event);
                &&& notice_view(r.notice) == s.0
                &&& r.action == s.1
                &&& r.deadline == s.2
                &&& final(self).latest_text@ == s.3
                &&& final(self).finishing == s.4
            }),
    {
        let finishing = self.finishing;
        match event {
            XunfeiEvent::Text(p) => {
                let h = handle_xunfei_message(&p, &mut self.latest_text, finishing, finishing);
                let action = if h.keep_going {
                    XunfeiAction::Continue
                } else {
                    XunfeiAction::Stop { close_socket: true }
                };
                let deadline = if finishing { h.deadline } else { DeadlineChange::Keep };
                XunfeiStep { notice: h.notice, action, deadline }
            },
            XunfeiEvent::Failed(e) => XunfeiStep {
                notice: notice("xunfei:error", e),
                action: XunfeiAction::Stop { close_socket: true },
                deadline: DeadlineChange::Keep,
            },
            XunfeiEvent::Closed => XunfeiStep {
                notice: None,
                action: XunfeiAction::Stop { close_socket: finishing },
                deadline: DeadlineChange::Keep,
            },
            XunfeiEvent::TimeUp => XunfeiStep {
                notice: None,
                action: if finishing { XunfeiAction::Stop { close_socket: true } } else { XunfeiAction::Continue },
                deadline: DeadlineChange::Keep,
            },
            XunfeiEvent::Samples => XunfeiStep {
                notice: None,
                action: if finishing { XunfeiAction::Continue } else { XunfeiAction::FlushSamples },
                deadline: DeadlineChange::Keep,
            },
            XunfeiEvent::AudioClosed | XunfeiEvent::Abort => XunfeiStep {
                notice: None,
                action: if finishing { XunfeiAction::Continue } else { XunfeiAction::Stop { close_socket: true } },
                deadline: DeadlineChange::Keep,
            },
            XunfeiEvent::Finish => {
                if finishing {
                    XunfeiStep { notice: None, action: XunfeiAction::Continue, deadline: DeadlineChange::Keep }
                } else {
                    self.finishing = true;
                    XunfeiStep {
                        notice: None,
                        action: XunfeiAction::StartDraining,
                        deadline: DeadlineChange::In(DRAIN_MS),
                    }
                }
            },
            XunfeiEvent::Other => XunfeiStep {
                notice: None,
                action: XunfeiAction::Continue,
                deadline: DeadlineChange::Keep,
            },
        }
    }
}

/// The message shown when the service cannot be reached.
pub fn connect_failed_notice(error: &str) -> (r: XunfeiNotice)
    ensures
        r.event@ == "xunfei:error"@,
        r.text@ == "讯飞 WebSocket 连接失败: "@ + error@,
{
    let mut text = "讯飞 WebSocket 连接失败: ".to_owned();
    text.append(error);
    XunfeiNotice { event: "xunfei:error".to_owned(), text }
}

/// The message shown when the signed address cannot be built.
pub fn url_failed_notice(error: &str) -> (r: XunfeiNotice)
    ensures
        r.event@ == "xunfei:error"@,
        r.text@ == error@,
{
    XunfeiNotice { event: "xunfei:error".to_owned(), text: error.to_owned() }
}

// ---------------------------------------------------------------------------
// Laws.
// ---------------------------------------------------------------------------

/// The latest text of a session only ever changes to a text that is not blank.
pub proof fn law_latest_text_never_blanked(
    parsed: Result<JsonView, Seq<char>>,
    latest: Seq<char>,
    finishing: bool,
    has_deadline: bool,
)
    ensures
        ({
            let s = handled_spec(parsed, latest, finishing, has_deadline);
            s.3 == latest || !blank(s.3)
        }),
{
}

/// Once a session finishes its audio it stays finishing, and it never asks to send
/// samples again.
pub proof fn law_finishing_is_final(latest: Seq<char>, event: XunfeiEvent)
    ensures
        session_step(latest, true, event).4,
        session_step(latest, true, event).1 != XunfeiAction::FlushSamples,
        session_step(latest, true, event).1 != XunfeiAction::StartDraining,
{
}

/// The actions a session takes on a series of events, starting in state (`latest`,
/// `finishing`), up to and including the first `Stop` (after which the runner hands over
/// the result and ends), and the latest text when the events run out or the session stops.
pub open spec fn session_run(latest: Seq<char>, finishing: bool, events: Seq<XunfeiEvent>) -> (
    Seq<XunfeiAction>,
    Seq<char>,
)
    decreases events.len(),
{
    if events.len() == 0 {
        (Seq::empty(), latest)
    } else {
        let s = session_step(latest, finishing, events[0]);
        if s.1 is Stop {
            (seq![s.1], s.3)
        } else {
            let rest = session_run(s.3, s.4, events.drop_first());
            (seq![s.1] + rest.0, rest.1)
        }
    }
}

/// The shape of the actions of a run: `Stop` (handing over the result) comes at most once
/// and only last; `StartDraining` (the last audio and the closing frame) comes at most once,
/// and no samples are sent after it; a finishing session sends no samples at all; and the
/// text handed over is the one it started with or a text that is not blank.
pub open spec fn run_shape(finishing: bool, latest: Seq<char>, acts: Seq<XunfeiAction>, result: Seq<char>) -> bool {
    &&& forall|i: int| 0 <= i < acts.len() - 1 ==> !(#[trigger] acts[i] is Stop)
    &&& forall|i: int, j: int|
        0 <= i < j < acts.len() && (#[trigger] acts[i] is StartDraining) ==> !(#[trigger] acts[j] is FlushSamples)
            && !(acts[j] is StartDraining)
    &&& finishing ==> forall|i: int|
        0 <= i < acts.len() ==> !(#[trigger] acts[i] is FlushSamples) && !(acts[i] is StartDraining)
    &&& (result == latest || !blank(result))
}

/// Over any series of events, a recognition session hands over its result at most once, as
/// its last action; it sends the closing frame at most once and no audio after it; and the
/// text it hands over is the one it started with or a text that is not blank. Starting
/// fresh, that is the empty text or the last non-blank recognized text.
pub proof fn law_session_run(latest: Seq<char>, finishing: bool, events: Seq<XunfeiEvent>)
    ensures
        session_run(latest, finishing, events).0.len() <= events.len(),
        run_shape(finishing, latest, session_run(latest, finishing, events).0, session_run(latest, finishing, events).1),
    decreases events.len(),
{
    if events.len() > 0 {
        let e = events[0];
        let s = session_step(latest, finishing, e);
        law_finishing_is_final(latest, e);
        match e {
            XunfeiEvent::Text(p) => {
                law_latest_text_never_blanked(parsed_view(p), latest, finishing, finishing);
            },
            _ => {},
        }
        if !(s.1 is Stop) {
            let rest = session_run(s.3, s.4, events.drop_first());
            law_session_run(s.3, s.4, events.drop_first());
            let acts = seq![s.1] + rest.0;
            assert forall|i: int| 0 < i < acts.len() implies acts[i] == rest.0[i - 1] by {}
            assert(acts[0] == s.1);
            assert(s.1 is StartDraining ==> s.4);
            assert forall|i: int| 0 <= i < acts.len() - 1 implies !(#[trigger] acts[i] is Stop) by {
                if i > 0 {
                    assert(acts[i] == rest.0[i - 1]);
                }
            }
            assert forall|i: int, j: int|
                0 <= i < j < acts.len() && (#[trigger] acts[i] is StartDraining) implies !(#[trigger] acts[j] is FlushSamples)
                    && !(acts[j] is StartDraining) by {
                assert(acts[j] == rest.0[j - 1]);
                if i > 0 {
                    assert(acts[i] == rest.0[i - 1]);
                }
            }
            if finishing {
                assert forall|i: int| 0 <= i < acts.len() implies !(#[trigger] acts[i] is FlushSamples)
                    && !(acts[i] is StartDraining) by {
                    if i > 0 {
                        assert(acts[i] == rest.0[i - 1]);
                    }
                }
            }
        }
    }
}

/// A frame carries the application id under `common.app_id`, its status under
/// `data.status`, and under `data.audio` the base64 text of its samples, which decodes back
/// to the samples' bytes.
pub proof fn law_frame_carries_audio(app_id: Seq<char>, status: int, pcm: Seq<u8>)
    ensures
        field_of(field(frame_view(app_id, status, base64_standard(pcm)), "common"@), "app_id"@) == Some(
            JsonView::Str(app_id),
        ),
        field_of(field(frame_view(app_id, status, base64_standard(pcm)), "data"@), "status"@) == Some(
            int_view(status),
        ),
        str_of(field_of(field(frame_view(app_id, status, base64_standard(pcm)), "data"@), "audio"@)) == Some(
            base64_standard(pcm),
        ),
        base64_decode(base64_standard(pcm)) == pcm,
{
    reveal_strlit("common");
    reveal_strlit("business");
    reveal_strlit("data");
    reveal_strlit("app_id");
    reveal_strlit("status");
    reveal_strlit("format");
    reveal_strlit("encoding");
    reveal_strlit("audio");
    law_base64_round_trip(pcm);
    let f = frame_view(app_id, status, base64_standard(pcm));
    let top = f->Object_0;
    assert(top.drop_last() =~= top.take(2));
    assert(top.take(2).drop_last() =~= top.take(1));
    assert(top.take(1).drop_last() =~= Seq::<(Seq<char>, JsonView)>::empty());
    assert("data"@.len() == 4 && "business"@.len() == 8 && "common"@.len() == 6);
    assert(lookup(top, "data"@) == Some(top[2].1));
    assert(lookup(top, "common"@) == lookup(top.take(2), "common"@));
    assert(lookup(top.take(2), "common"@) == lookup(top.take(1), "common"@));
    let common = top[0].1->Object_0;
    assert(common.drop_last() =~= Seq::<(Seq<char>, JsonView)>::empty());
    let data = top[2].1->Object_0;
    assert(data.drop_last() =~= data.take(3));
    assert(data.take(3).drop_last() =~= data.take(2));
    assert(data.take(2).drop_last() =~= data.take(1));
    assert("audio"@.len() == 5 && "encoding"@.len() == 8 && "status"@.len() == 6);
    assert("format"@[0] != "status"@[0]);
    assert(lookup(data, "status"@) == lookup(data.take(3), "status"@));
    assert(lookup(data.take(3), "status"@) == lookup(data.take(2), "status"@));
    assert(lookup(data.take(2), "status"@) == lookup(data.take(1), "status"@));
}

/// The recognized text a message carries when it updates the latest text: a message that
/// parsed, has no error code, and carries a non-blank text.
pub open spec fn message_text(e: XunfeiEvent) -> Option<Seq<char>> {
    match e {
        XunfeiEvent::Text(Ok(j)) => if response_code(j@) == 0 && response_text(j@) is Some && !blank(
            response_text(j@)->0,
        ) {
            response_text(j@)
        } else {
            None
        },
        _ => None,
    }
}

/// The last text carried by a message among `events`, or `start` when none carries one.
pub open spec fn last_message_text(start: Seq<char>, events: Seq<XunfeiEvent>) -> Seq<char>
    decreases events.len(),
{
    if events.len() == 0 {
        start
    } else {
        let next = match message_text(events[0]) {
            Some(t) => t,
            None => start,
        };
        last_message_text(next, events.drop_first())
    }
}

/// The text a run of a session hands over is the last text recognized among the events it
/// handled (those up to and including its stop), or the text it started with when there was
/// none; a fresh session thus hands over the last non-blank recognized text, or nothing.
pub proof fn law_run_result_is_last_text(latest: Seq<char>, finishing: bool, events: Seq<XunfeiEvent>)
    ensures
        session_run(latest, finishing, events).1 == last_message_text(
            latest,
            events.take(session_run(latest, finishing, events).0.len() as int),
        ),
    decreases events.len(),
{
    law_session_run(latest, finishing, events);
    let run = session_run(latest, finishing, events);
    if events.len() == 0 {
        assert(events.take(0) =~= Seq::<XunfeiEvent>::empty());
    } else {
        let e = events[0];
        let s = session_step(latest, finishing, e);
        let next = match message_text(e) {
            Some(t) => t,
            None => latest,
        };
        match e {
            XunfeiEvent::Text(p) => {
                match p {
                    Ok(j) => {
                        assert(parsed_view(p) == Ok::<JsonView, Seq<char>>(j@));
                    },
                    Err(_) => {},
                }
            },
            _ => {},
        }
        assert(s.3 == next);
        if s.1 is Stop {
            let t = events.take(1);
            assert(t.drop_first() =~= Seq::<XunfeiEvent>::empty());
            assert(t[0] == e);
            assert(run.0.len() == 1);
            assert(last_message_text(latest, t) == last_message_text(next, t.drop_first()));
            assert(last_message_text(next, t.drop_first()) == next);
        } else {
            let rest = session_run(s.3, s.4, events.drop_first());
            law_run_result_is_last_text(s.3, s.4, events.drop_first());
            let k = run.0.len() as int;
            assert(k == rest.0.len() + 1);
            let t = events.take(k);
            assert(t.drop_first() =~= events.drop_first().take(rest.0.len() as int));
            assert(t[0] == e);
            assert(last_message_text(latest, t) == last_message_text(next, t.drop_first()));
            assert(run.1 == rest.1);
        }
    }
}

/// Before draining starts, the window aborting or closing its audio stops the session at
/// once: that step is a `Stop` and the last of the run.
pub proof fn law_abort_stops_at_once(latest: Seq<char>, events: Seq<XunfeiEvent>, i: int)
    requires
        0 <= i < session_run(latest, false, events).0.len(),
        events[i] is Abort || events[i] is AudioClosed,
        forall|j: int| 0 <= j < i ==> !(#[trigger] session_run(latest, false, events).0[j] is StartDraining),
    ensures
        session_run(latest, false, events).0[i] is Stop,
        i == session_run(latest, false, events).0.len() - 1,
    decreases i,
{
    law_session_run(latest, false, events);
    let run = session_run(latest, false, events);
    let e = events[0];
    let s = session_step(latest, false, e);
    if i == 0 {
        assert(run.0[0] == s.1);
    } else {
        assert(run.0[0] == s.1);
        if s.1 is Stop {
            assert(run.0.len() == 1);
        } else {
            assert(!(run.0[0] is StartDraining));
            assert(!s.4);
            let rest = session_run(s.3, false, events.drop_first());
            assert forall|j: int| 0 <= j < i - 1 implies !(#[trigger] rest.0[j] is StartDraining) by {
                assert(run.0[j + 1] == rest.0[j]);
            }
            assert(events.drop_first()[i - 1] == events[i]);
            law_abort_stops_at_once(s.3, events.drop_first(), i - 1);
            assert(run.0[i] == rest.0[i - 1]);
        }
    }
}

/// The statuses of the frames sent for an action with `n` chunks of audio pending: one
/// status-1 frame per chunk, and for draining a closing status-2 frame after them.
pub open spec fn action_statuses(a: XunfeiAction, n: nat) -> Seq<int> {
    match a {
        XunfeiAction::FlushSamples => Seq::new(n, |i: int| 1int),
        XunfeiAction::StartDraining => Seq::new(n, |i: int| 1int).push(2),
        _ => Seq::empty(),
    }
}

/// The frames sent for an action: each chunk in a status-1 frame, in order, and for
/// draining a closing status-2 frame without audio.
pub open spec fn action_frame_views(app_id: Seq<char>, a: XunfeiAction, chunks: Seq<Seq<u8>>) -> Seq<JsonView> {
    let st = action_statuses(a, chunks.len());
    Seq::new(
        st.len(),
        |i: int|
            frame_view(
                app_id,
                st[i],
                base64_standard(if i < chunks.len() { chunks[i] } else { Seq::empty() }),
            ),
    )
}

pub open spec fn chunks_view(v: Seq<Vec<u8>>) -> Seq<Seq<u8>> {
    v.map_values(|c: Vec<u8>| c@)
}

pub open spec fn frames_view(v: Seq<Json>) -> Seq<JsonView> {
    v.map_values(|f: Json| f@)
}

/// The frames to send for an action of a session, given the pending audio cut into chunks.
pub fn action_frames(app_id: &str, action: XunfeiAction, chunks: &Vec<Vec<u8>>) -> (r: Vec<Json>)
    ensures
        frames_view(r@) == action_frame_views(app_id@, action, chunks_view(chunks@)),
{
    let mut out: Vec<Json> = Vec::new();
    let ghost want = action_frame_views(app_id@, action, chunks_view(chunks@));
    match action {
        XunfeiAction::FlushSamples | XunfeiAction::StartDraining => {
            for i in 0..chunks.len()
                invariant
                    want == action_frame_views(app_id@, action, chunks_view(chunks@)),
                    action is FlushSamples || action is StartDraining,
                    frames_view(out@) == want.take(i as int),
            {
                let f = xunfei_frame(app_id, 1, chunks[i].as_slice());
                let ghost before = out@;
                out.push(f);
                assert(frames_view(out@) =~= frames_view(before).push(f@));
                assert(want.take(i + 1) =~= want.take(i as int).push(want[i as int]));
            }
            if matches!(action, XunfeiAction::StartDraining) {
                let empty: Vec<u8> = Vec::new();
                let f = xunfei_frame(app_id, 2, empty.as_slice());
                let ghost before = out@;
                out.push(f);
                assert(frames_view(out@) =~= frames_view(before).push(f@));
                assert(want.take(chunks.len() as int).push(want[chunks.len() as int]) =~= want);
            } else {
                assert(want.take(chunks.len() as int) =~= want);
            }
        },
        _ => {
            assert(frames_view(out@) =~= want);
        },
    }
    out
}

/// The statuses of the frames sent for a series of actions, given the number of chunks
/// pending at each.
pub open spec fn run_statuses(acts: Seq<XunfeiAction>, counts: Seq<nat>) -> Seq<int>
    decreases acts.len(),
{
    if acts.len() == 0 || counts.len() == 0 {
        Seq::empty()
    } else {
        action_statuses(acts[0], counts[0]) + run_statuses(acts.drop_first(), counts.drop_first())
    }
}

proof fn lemma_quiet_statuses(acts: Seq<XunfeiAction>, counts: Seq<nat>)
    requires
        forall|i: int| 0 <= i < acts.len() ==> !(#[trigger] acts[i] is FlushSamples) && !(acts[i] is StartDraining),
    ensures
        run_statuses(acts, counts).len() == 0,
    decreases acts.len(),
{
    if acts.len() > 0 && counts.len() > 0 {
        assert(acts[0] == acts[0]);
        assert forall|i: int| 0 <= i < acts.drop_first().len() implies !(#[trigger] acts.drop_first()[i] is FlushSamples)
            && !(acts.drop_first()[i] is StartDraining) by {
            assert(acts.drop_first()[i] == acts[i + 1]);
        }
        lemma_quiet_statuses(acts.drop_first(), counts.drop_first());
        assert(action_statuses(acts[0], counts[0]) =~= Seq::<int>::empty());
    }
}

proof fn lemma_run_statuses(acts: Seq<XunfeiAction>, counts: Seq<nat>)
    requires
        forall|i: int, j: int|
            0 <= i < j < acts.len() && (#[trigger] acts[i] is StartDraining) ==> !(#[trigger] acts[j] is FlushSamples)
                && !(acts[j] is StartDraining),
    ensures
        forall|k: int|
            0 <= k < run_statuses(acts, counts).len() ==> #[trigger] run_statuses(acts, counts)[k] == 1 || (
            run_statuses(acts, counts)[k] == 2 && k == run_statuses(acts, counts).len() - 1),
    decreases acts.len(),
{
    if acts.len() > 0 && counts.len() > 0 {
        let d = acts.drop_first();
        assert forall|i: int, j: int|
            0 <= i < j < d.len() && (#[trigger] d[i] is StartDraining) implies !(#[trigger] d[j] is FlushSamples)
                && !(d[j] is StartDraining) by {
            assert(d[i] == acts[i + 1] && d[j] == acts[j + 1]);
        }
        lemma_run_statuses(d, counts.drop_first());
        let head = action_statuses(acts[0], counts[0]);
        let rest = run_statuses(d, counts.drop_first());
        let st = run_statuses(acts, counts);
        assert(st == head + rest);
        if acts[0] is StartDraining {
            assert forall|i: int| 0 <= i < d.len() implies !(#[trigger] d[i] is FlushSamples) && !(d[i] is StartDraining) by {
                assert(d[i] == acts[i + 1]);
            }
            lemma_quiet_statuses(d, counts.drop_first());
            assert(st =~= head);
        }
        assert forall|k: int| 0 <= k < st.len() implies #[trigger] st[k] == 1 || (st[k] == 2 && k == st.len() - 1) by {
            if k < head.len() {
                assert(st[k] == head[k]);
            } else {
                assert(st[k] == rest[k - head.len()]);
            }
        }
    }
}

/// The frames a session sends over a run, after its opening status-0 frame, are status-1
/// audio frames and at most one closing status-2 frame, which comes last: no audio follows
/// the closing frame, and nothing follows the stop.
pub proof fn law_run_frame_order(latest: Seq<char>, events: Seq<XunfeiEvent>, counts: Seq<nat>)
    ensures
        ({
            let st = seq![0int] + run_statuses(session_run(latest, false, events).0, counts);
            &&& st[0] == 0
            &&& forall|k: int| 0 < k < st.len() ==> #[trigger] st[k] == 1 || (st[k] == 2 && k == st.len() - 1)
        }),
{
    law_session_run(latest, false, events);
    let acts = session_run(latest, false, events).0;
    lemma_run_statuses(acts, counts);
    let st = seq![0int] + run_statuses(acts, counts);
    assert forall|k: int| 0 < k < st.len() implies #[trigger] st[k] == 1 || (st[k] == 2 && k == st.len() - 1) by {
        assert(st[k] == run_statuses(acts, counts)[k - 1]);
    }
}

/// The recognition parameters of a frame: its `business` field.
pub open spec fn frame_business(frame: JsonView) -> Option<JsonView> {
    field(frame, "business"@)
}

/// Every frame, whatever its status, application id or audio, carries the same recognition
/// parameters: Mandarin Chinese (`language` `zh_cn`, `accent` `mandarin`) in the `iat`
/// domain with dynamic correction (`dwa` `wpgs`), a 60-second end-of-speech silence
/// (`vad_eos` 60000) and no punctuation (`ptt` 0); and its audio is described as raw
/// 16-bit PCM at 16 kHz.
pub proof fn law_frame_recognition_parameters(
    app_id: Seq<char>,
    status: int,
    audio: Seq<char>,
    other_app_id: Seq<char>,
    other_status: int,
    other_audio: Seq<char>,
)
    ensures
        frame_business(frame_view(app_id, status, audio)) == frame_business(
            frame_view(other_app_id, other_status, other_audio),
        ),
        field_of(frame_business(frame_view(app_id, status, audio)), "language"@) == Some(
            JsonView::Str("zh_cn"@),
        ),
        field_of(frame_business(frame_view(app_id, status, audio)), "domain"@) == Some(JsonView::Str("iat"@)),
        field_of(frame_business(frame_view(app_id, status, audio)), "accent"@) == Some(
            JsonView::Str("mandarin"@),
        ),
        field_of(frame_business(frame_view(app_id, status, audio)), "dwa"@) == Some(JsonView::Str("wpgs"@)),
        field_of(frame_business(frame_view(app_id, status, audio)), "vad_eos"@) == Some(
            JsonView::Number(NumberView::PosInt(60000)),
        ),
        field_of(frame_business(frame_view(app_id, status, audio)), "ptt"@) == Some(
            JsonView::Number(NumberView::PosInt(0)),
        ),
        field_of(field(frame_view(app_id, status, audio), "data"@), "format"@) == Some(
            JsonView::Str("audio/L16;rate=16000"@),
        ),
        field_of(field(frame_view(app_id, status, audio), "data"@), "encoding"@) == Some(
            JsonView::Str("raw"@),
        ),
{
    reveal_strlit("common");
    reveal_strlit("business");
    reveal_strlit("data");
    reveal_strlit("language");
    reveal_strlit("domain");
    reveal_strlit("accent");
    reveal_strlit("dwa");
    reveal_strlit("vad_eos");
    reveal_strlit("ptt");
    reveal_strlit("status");
    reveal_strlit("format");
    reveal_strlit("encoding");
    reveal_strlit("audio");
    let f = frame_view(app_id, status, audio);
    let top = f->Object_0;
    assert(top.drop_last() =~= top.take(2));
    assert(top.take(2).drop_last() =~= top.take(1));
    assert("data"@.len() == 4 && "business"@.len() == 8 && "common"@.len() == 6);
    assert(lookup(top, "business"@) == lookup(top.take(2), "business"@));
    assert(lookup(top, "data"@) == Some(top[2].1));
    let g = frame_view(other_app_id, other_status, other_audio);
    let gtop = g->Object_0;
    assert(gtop.drop_last() =~= gtop.take(2));
    assert(lookup(gtop, "business"@) == lookup(gtop.take(2), "business"@));
    let b = top[1].1->Object_0;
    assert(b.drop_last() =~= b.take(5));
    assert(b.take(5).drop_last() =~= b.take(4));
    assert(b.take(4).drop_last() =~= b.take(3));
    assert(b.take(3).drop_last() =~= b.take(2));
    assert(b.take(2).drop_last() =~= b.take(1));
    assert("language"@.len() == 8 && "domain"@.len() == 6 && "accent"@.len() == 6 && "dwa"@.len() == 3);
    assert("vad_eos"@.len() == 7 && "ptt"@.len() == 3);
    assert("domain"@[0] != "accent"@[0]);
    assert("dwa"@[0] != "ptt"@[0]);
    assert(lookup(b, "ptt"@) == Some(b[5].1));
    assert(lookup(b, "vad_eos"@) == lookup(b.take(5), "vad_eos"@));
    assert(lookup(b, "dwa"@) == lookup(b.take(5), "dwa"@));
    assert(lookup(b.take(5), "dwa"@) == lookup(b.take(4), "dwa"@));
    assert(lookup(b, "accent"@) == lookup(b.take(5), "accent"@));
    assert(lookup(b.take(5), "accent"@) == lookup(b.take(4), "accent"@));
    assert(lookup(b.take(4), "accent"@) == lookup(b.take(3), "accent"@));
    assert(lookup(b, "domain"@) == lookup(b.take(5), "domain"@));
    assert(lookup(b.take(5), "domain"@) == lookup(b.take(4), "domain"@));
    assert(lookup(b.take(4), "domain"@) == lookup(b.take(3), "domain"@));
    assert(lookup(b.take(3), "domain"@) == lookup(b.take(2), "domain"@));
    assert(lookup(b, "language"@) == lookup(b.take(5), "language"@));
    assert(lookup(b.take(5), "language"@) == lookup(b.take(4), "language"@));
    assert(lookup(b.take(4), "language"@) == lookup(b.take(3), "language"@));
    assert(lookup(b.take(3), "language"@) == lookup(b.take(2), "language"@));
    assert(lookup(b.take(2), "language"@) == lookup(b.take(1), "language"@));
    let data = top[2].1->Object_0;
    assert(data.drop_last() =~= data.take(3));
    assert(data.take(3).drop_last() =~= data.take(2));
    assert("audio"@.len() == 5 && "encoding"@.len() == 8 && "format"@.len() == 6);
    assert(lookup(data, "encoding"@) == lookup(data.take(3), "encoding"@));
    assert(lookup(data, "format"@) == lookup(data.take(3), "format"@));
    assert(lookup(data.take(3), "format"@) == lookup(data.take(2), "format"@));
}

} // verus!
