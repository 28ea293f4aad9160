use vstd::prelude::*;

use crate::codec::{base64_encode, base64_standard};
use crate::json::{entries_view, field, lookup, Json, JsonNumber, JsonView, NumberView};
use crate::settings::{fish_audio_config_from_value, fish_config_of};
use crate::text::{decimal, decimal_string, prefix, take_chars, trim, trim_end_slashes};

verus! {

/// Most characters of text sent to speech synthesis.
pub const MAX_TTS_CHARS: usize = 1000;

/// Most characters of an error response quoted in an error message.
pub const MAX_ERROR_DETAIL_CHARS: usize = 500;

/// A speech synthesis request from a conversation window.
#[derive(Debug, Clone, Default)]
pub struct FishAudioRequest {
    pub text: Option<String>,
    pub api_base: Option<String>,
    pub api_key: Option<String>,
    pub voice_id: Option<String>,
}

pub open spec fn opt_or(o: Option<String>, default: Seq<char>) -> Seq<char> {
    match o {
        Some(s) => s@,
        None => default,
    }
}

/// The configuration object a synthesis request stands for.
pub open spec fn tts_config(req: FishAudioRequest) -> JsonView {
    JsonView::Object(
        seq![
            ("apiBase"@, JsonView::Str(opt_or(req.api_base, "https://fishaudio.org"@))),
            ("apiKey"@, JsonView::Str(opt_or(req.api_key, ""@))),
            ("voiceId"@, JsonView::Str(opt_or(req.voice_id, ""@))),
        ],
    )
}

fn string_or(o: &Option<String>, default: &str) -> (r: String)
    ensures
        r@ == opt_or(*o, default@),
{
    match o {
        Some(s) => s.clone(),
        None => default.to_owned(),
    }
}

/// The text to synthesize (at most `MAX_TTS_CHARS` characters) and the configuration
/// object of a synthesis request.
pub fn tts_input(request: &FishAudioRequest) -> (r: (String, Json))
    ensures
        r.0@ == prefix(opt_or(request.text, ""@), MAX_TTS_CHARS as nat),
        r.1@ == tts_config(*request),
{
    let text = string_or(&request.text, "");
    let text = take_chars(&text, MAX_TTS_CHARS);
    let entries: Vec<(String, Json)> = vec![
        ("apiBase".to_owned(), Json::Str(string_or(&request.api_base, "https://fishaudio.org"))),
        ("apiKey".to_owned(), Json::Str(string_or(&request.api_key, ""))),
        ("voiceId".to_owned(), Json::Str(string_or(&request.voice_id, ""))),
    ];
    proof {
        reveal_with_fuel(entries_view, 4);
    }
    assert(entries_view(entries@) =~= tts_config(*request)->Object_0);
    (text, Json::Object(entries))
}

/// Synthesized audio as base64 text, as a window receives it.
pub fn audio_base64(audio: &[u8]) -> (r: String)
    ensures
        r@ == base64_standard(audio@),
{
    base64_encode(audio)
}

/// A request to the Fish Audio speech endpoint.
#[derive(Debug)]
pub struct FishRequest {
    pub url: String,
    pub api_key: String,
    pub body: Json,
}

/// The speech endpoint of a service.
pub open spec fn tts_url(base: Seq<char>) -> Seq<char> {
    base + "/api/open/v1/speech/tts"@
}

/// The body of a speech request.
pub open spec fn tts_body(text: Seq<char>, voice: Seq<char>) -> JsonView {
    JsonView::Object(
        seq![
            ("text"@, JsonView::Str(text)),
            ("voiceId"@, JsonView::Str(voice)),
            ("format"@, JsonView::Str("mp3"@)),
            ("speed"@, JsonView::Number(NumberView::PosInt(1))),
        ],
    )
}

/// Plans the speech request for a text; the key and the voice must be set.
pub fn fish_request(text: &str, config: &Json) -> (r: Result<FishRequest, String>)
    ensures
        ({
            let (base, key, voice) = fish_config_of(config@);
            match r {
                Ok(req) => {
                    &&& key.len() > 0 && voice.len() > 0
                    &&& req.url@ == tts_url(base)
                    &&& req.api_key@ == key
                    &&& req.body@ == tts_body(text@, voice)
                },
                Err(e) => (key.len() == 0 || voice.len() == 0) && e@
                    == crate::preset::missing_fish_credentials(),
            }
        }),
{
    let cfg = fish_audio_config_from_value(config);
    if cfg.api_key.as_str().is_empty() || cfg.voice_id.as_str().is_empty() {
        return Err("请先填写 Fish Audio API Key 和音色 ID".to_owned());
    }
    let mut url = cfg.api_base.clone();
    url.append("/api/open/v1/speech/tts");
    let entries: Vec<(String, Json)> = vec![
        ("text".to_owned(), Json::Str(text.to_owned())),
        ("voiceId".to_owned(), Json::Str(cfg.voice_id.clone())),
        ("format".to_owned(), Json::Str("mp3".to_owned())),
        ("speed".to_owned(), Json::Number(JsonNumber::PosInt(1))),
    ];
    proof {
        reveal_with_fuel(entries_view, 5);
    }
    assert(entries_view(entries@) =~= tts_body(text@, cfg.voice_id@)->Object_0);
    Ok(FishRequest { url, api_key: cfg.api_key, body: Json::Object(entries) })
}

/// What one attempt of a speech request came back with.
#[derive(Debug)]
pub enum FishReply {
    /// The request could not be sent; the transport's error text.
    Failed(String),
    /// No response in time.
    TimedOut,
    /// A success status; the body's bytes, or the error text of reading them.
    Audio(Result<Vec<u8>, String>),
    /// Another status, with the response text.
    Rejected { status: u16, detail: String },
}

/// What to do after an attempt.
#[derive(Debug)]
pub enum FishStep {
    /// Try once more.
    Retry,
    /// Stop with this result.
    Done(Result<Vec<u8>, String>),
}

/// Whether an HTTP status is a success (200 to 299).
pub fn status_is_success(status: u16) -> (r: bool)
    ensures
        r == (200 <= status <= 299),
{
    200 <= status && status <= 299
}

/// The error message of a rejected request.
pub open spec fn rejected_message(status: u16, detail: Seq<char>) -> Seq<char> {
    "Fish Audio 请求失败 ("@ + decimal(status as nat) + "): "@ + prefix(
        detail,
        MAX_ERROR_DETAIL_CHARS as nat,
    )
}

/// The step an attempt leads to. The first attempt is retried when the request failed,
/// timed out, was unauthorized (401) or met a server error (500 and up); the second is final.
pub open spec fn fish_step(attempt: nat, reply: FishReply) -> Option<Result<Seq<u8>, Seq<char>>> {
    match reply {
        FishReply::Failed(e) => if attempt == 0 {
            None
        } else {
            Some(Err("Fish Audio 请求失败: "@ + e@))
        },
        FishReply::TimedOut => if attempt == 0 {
            None
        } else {
            Some(Err("Fish Audio 请求超时"@))
        },
        FishReply::Audio(body) => match body {
            Ok(bytes) => if bytes@.len() == 0 {
                Some(Err("Fish Audio 返回了空音频"@))
            } else {
                Some(Ok(bytes@))
            },
            Err(e) => Some(Err(e@)),
        },
        FishReply::Rejected { status, detail } => if attempt == 0 && (status == 401 || status >= 500) {
            None
        } else {
            Some(Err(rejected_message(status, detail@)))
        },
    }
}

pub open spec fn step_view(s: FishStep) -> Option<Result<Seq<u8>, Seq<char>>> {
    match s {
        FishStep::Retry => None,
        FishStep::Done(Ok(b)) => Some(Ok(b@)),
        FishStep::Done(Err(e)) => Some(Err(e@)),
    }
}

/// Decides what follows an attempt of a speech request.
pub fn fish_attempt_step(attempt: u32, reply: FishReply) -> (r: FishStep)
    ensures
        step_view(r) == fish_step(attempt as nat, reply),
{
    match reply {
        FishReply::Failed(e) => {
            if attempt == 0 {
                FishStep::Retry
            } else {
                let mut msg = "Fish Audio 请求失败: ".to_owned();
                msg.append(e.as_str());
                FishStep::Done(Err(msg))
            }
        },
        FishReply::TimedOut => {
            if attempt == 0 {
                FishStep::Retry
            } else {
                FishStep::Done(Err("Fish Audio 请求超时".to_owned()))
            }
        },
        FishReply::Audio(body) => match body {
            Ok(bytes) => {
                if bytes.len() == 0 {
                    FishStep::Done(Err("Fish Audio 返回了空音频".to_owned()))
                } else {
                    FishStep::Done(Ok(bytes))
                }
            },
            Err(e) => FishStep::Done(Err(e)),
        },
        FishReply::Rejected { status, detail } => {
            if attempt == 0 && (status == 401 || status >= 500) {
                FishStep::Retry
            } else {
                let mut msg = "Fish Audio 请求失败 (".to_owned();
                let code = decimal_string(status as u64);
                msg.append(code.as_str());
                msg.append("): ");
                let quoted = take_chars(&detail, MAX_ERROR_DETAIL_CHARS);
                msg.append(quoted.as_str());
                FishStep::Done(Err(msg))
            }
        },
    }
}

/// A speech request is tried at most twice: the second attempt always settles the result,
/// and a success status always settles it at once.
pub proof fn law_at_most_two_attempts(reply: FishReply, body: Result<Vec<u8>, String>)
    ensures
        fish_step(1, reply) is Some,
        fish_step(0, FishReply::Audio(body)) is Some,
{
}

/// The text of an optional string, or `default` when there is none.
pub open spec fn given_or(o: Option<String>, default: Seq<char>) -> Seq<char> {
    match o {
        Some(s) => s@,
        None => default,
    }
}

/// A synthesis request is configured with the service, key and voice it names: the
/// configuration's `voiceId` is the request's voice (empty when it names none), `apiKey` its
/// key (empty when none), `apiBase` its service (`https://fishaudio.org` when none); so the
/// speech request made from it uses the request's voice and key, trimmed, and its service
/// without trailing slashes. The text sent is the first `MAX_TTS_CHARS` characters of the
/// request's text.
pub proof fn law_tts_uses_the_request(req: FishAudioRequest)
    ensures
        field(tts_config(req), "voiceId"@) == Some(JsonView::Str(given_or(req.voice_id, ""@))),
        field(tts_config(req), "apiKey"@) == Some(JsonView::Str(given_or(req.api_key, ""@))),
        field(tts_config(req), "apiBase"@) == Some(
            JsonView::Str(given_or(req.api_base, "https://fishaudio.org"@)),
        ),
        fish_config_of(tts_config(req)) == (
            trim_end_slashes(given_or(req.api_base, "https://fishaudio.org"@)),
            trim(given_or(req.api_key, ""@)),
            trim(given_or(req.voice_id, ""@)),
        ),
{
    reveal_strlit("apiBase");
    reveal_strlit("apiKey");
    reveal_strlit("voiceId");
    let es = tts_config(req)->Object_0;
    assert(es.drop_last() =~= es.take(2));
    assert(es.take(2).drop_last() =~= es.take(1));
    assert("apiBase"@.len() == 7 && "apiKey"@.len() == 6 && "voiceId"@.len() == 7);
    assert("apiBase"@[0] != "voiceId"@[0]);
    assert(lookup(es, "voiceId"@) == Some(es[2].1));
    assert(lookup(es, "apiKey"@) == lookup(es.take(2), "apiKey"@));
    assert(lookup(es, "apiBase"@) == lookup(es.take(2), "apiBase"@));
    assert(lookup(es.take(2), "apiBase"@) == lookup(es.take(1), "apiBase"@));
}

} // verus!
