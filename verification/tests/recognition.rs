use aiui::json::{Json, JsonNumber};
use aiui::xunfei::{
    action_frames, chunk_sizes, connect_failed_notice, handle_xunfei_message, pcm_le_bytes, url_failed_notice,
    xunfei_build_url, xunfei_frame, xunfei_signed_url, DeadlineChange, XunfeiAction, XunfeiEvent,
    XunfeiSession,
};
use base64::Engine;
use hmac::Mac;
use serde_json::Value;

fn to_value(j: &Json) -> Value {
    match j {
        Json::Null => Value::Null,
        Json::Bool(b) => Value::Bool(*b),
        Json::Number(JsonNumber::PosInt(u)) => Value::from(*u),
        Json::Number(JsonNumber::NegInt(i)) => Value::from(*i),
        Json::Number(JsonNumber::Float(s)) => Value::from(s.parse::<f64>().unwrap()),
        Json::Str(s) => Value::String(s.clone()),
        Json::Array(items) => Value::Array(items.iter().map(to_value).collect()),
        Json::Object(entries) => {
            let mut map = serde_json::Map::new();
            for (k, v) in entries {
                map.insert(k.clone(), to_value(v));
            }
            Value::Object(map)
        }
    }
}

fn from_value(v: &Value) -> Json {
    match v {
        Value::Null => Json::Null,
        Value::Bool(b) => Json::Bool(*b),
        Value::Number(n) => {
            if let Some(u) = n.as_u64() {
                Json::Number(JsonNumber::PosInt(u))
            } else if let Some(i) = n.as_i64() {
                Json::Number(JsonNumber::NegInt(i))
            } else {
                Json::Number(JsonNumber::Float(n.to_string()))
            }
        }
        Value::String(s) => Json::Str(s.clone()),
        Value::Array(items) => Json::Array(items.iter().map(from_value).collect()),
        Value::Object(map) => {
            Json::Object(map.iter().map(|(k, v)| (k.clone(), from_value(v))).collect())
        }
    }
}

fn parsed(text: &str) -> Result<Json, String> {
    Ok(from_value(&serde_json::from_str::<Value>(text).unwrap()))
}

fn value(text: &str) -> Value {
    serde_json::from_str::<Value>(text).unwrap()
}

const DATE: &str = "Mon, 01 Jan 2024 00:00:00 GMT";

#[test]
fn signed_url_matches_the_signature_scheme() {
    let url = xunfei_signed_url("key", "secret", DATE).unwrap();
    let origin = format!("host: iat-api.xfyun.cn\ndate: {DATE}\nGET /v2/iat HTTP/1.1");
    let mut mac = hmac::Hmac::<sha2::Sha256>::new_from_slice(b"secret").unwrap();
    mac.update(origin.as_bytes());
    let signature = base64::engine::general_purpose::STANDARD.encode(mac.finalize().into_bytes());
    let auth = format!(
        "api_key=\"key\", algorithm=\"hmac-sha256\", headers=\"host date request-line\", signature=\"{signature}\""
    );
    let authorization = base64::engine::general_purpose::STANDARD.encode(auth.as_bytes());
    let expected = format!(
        "wss://iat-api.xfyun.cn/v2/iat?authorization={}&date={}&host=iat-api.xfyun.cn",
        urlencoding::encode(&authorization),
        urlencoding::encode(DATE)
    );
    assert_eq!(url, expected);
    assert!(url.contains("&date=Mon%2C%2001%20Jan%202024%2000%3A00%3A00%20GMT&host="));
}

#[test]
fn signed_url_depends_on_the_secret() {
    let a = xunfei_signed_url("key", "secret", DATE).unwrap();
    let b = xunfei_signed_url("key", "other", DATE).unwrap();
    assert_ne!(a, b);
}

#[test]
fn build_url_signs_now() {
    let url = xunfei_build_url("key", "secret").unwrap();
    assert!(url.starts_with("wss://iat-api.xfyun.cn/v2/iat?authorization="));
    assert!(url.ends_with("%20GMT&host=iat-api.xfyun.cn"));
}

#[test]
fn frame_carries_audio_in_base64() {
    let frame = xunfei_frame("app", 1, &[1, 2, 3]);
    assert_eq!(
        to_value(&frame),
        value(
            r#"{"common": {"app_id": "app"},
                "business": {"language": "zh_cn", "domain": "iat", "accent": "mandarin", "dwa": "wpgs", "vad_eos": 60000, "ptt": 0},
                "data": {"status": 1, "format": "audio/L16;rate=16000", "encoding": "raw", "audio": "AQID"}}"#
        )
    );
    let last = xunfei_frame("app", 2, &[]);
    assert_eq!(to_value(&last)["data"]["status"], Value::from(2));
    assert_eq!(to_value(&last)["data"]["audio"], Value::String(String::new()));
}

#[test]
fn pcm_bytes_are_little_endian() {
    assert_eq!(pcm_le_bytes(&[1, -1, 256, -32768, 32767]), vec![1, 0, 255, 255, 0, 1, 0, 128, 255, 127]);
    assert!(pcm_le_bytes(&[]).is_empty());
}

#[test]
fn chunks_keep_the_rest_unless_flushing() {
    assert_eq!(chunk_sizes(1500, false), (vec![640, 640], 220));
    assert_eq!(chunk_sizes(1500, true), (vec![640, 640, 220], 0));
    assert_eq!(chunk_sizes(640, false), (vec![640], 0));
    assert_eq!(chunk_sizes(639, false), (vec![], 639));
    assert_eq!(chunk_sizes(0, true), (vec![], 0));
}

#[test]
fn unparsable_messages_end_the_session() {
    let mut latest = "before".to_string();
    let h = handle_xunfei_message(&Err("bad json".to_string()), &mut latest, false, false);
    assert!(!h.keep_going);
    let n = h.notice.unwrap();
    assert_eq!(n.event, "xunfei:error");
    assert_eq!(n.text, "讯飞响应解析失败: bad json");
    assert_eq!(latest, "before");
}

#[test]
fn error_codes_end_the_session() {
    let mut latest = String::new();
    let h = handle_xunfei_message(&parsed(r#"{"code": 10165, "message": "invalid handle"}"#), &mut latest, false, false);
    assert!(!h.keep_going);
    assert_eq!(h.notice.unwrap().text, "invalid handle");
    let h = handle_xunfei_message(&parsed(r#"{"code": -1}"#), &mut latest, false, false);
    assert!(!h.keep_going);
    assert_eq!(h.notice.unwrap().text, "未知错误");
}

const PARTIAL: &str = r#"{"code": 0, "data": {"status": 1, "result": {"pgs": "apd", "ws": [
    {"cw": [{"w": "你"}, {"w": "好"}]}, {"cw": [{"x": 1}]}, {"bg": 3}, {"cw": [{"w": "吗"}]}]}}}"#;

#[test]
fn results_update_the_latest_text() {
    let mut latest = String::new();
    let h = handle_xunfei_message(&parsed(PARTIAL), &mut latest, false, false);
    assert!(h.keep_going);
    let n = h.notice.unwrap();
    assert_eq!(n.event, "xunfei:partial");
    assert_eq!(n.text, "你好吗");
    assert_eq!(latest, "你好吗");
    assert_eq!(h.deadline, DeadlineChange::Keep);
}

#[test]
fn replacing_results_are_final_events() {
    let mut latest = String::new();
    let msg = r#"{"data": {"result": {"pgs": "rpl", "ws": [{"cw": [{"w": "对"}]}]}}}"#;
    let h = handle_xunfei_message(&parsed(msg), &mut latest, false, false);
    assert_eq!(h.notice.unwrap().event, "xunfei:final");
    assert_eq!(latest, "对");
}

#[test]
fn blank_results_change_nothing() {
    let mut latest = "kept".to_string();
    let msg = r#"{"code": 0, "data": {"result": {"ws": [{"cw": [{"w": "  "}]}]}}}"#;
    let h = handle_xunfei_message(&parsed(msg), &mut latest, true, true);
    assert!(h.keep_going);
    assert!(h.notice.is_none());
    assert_eq!(latest, "kept");
    assert_eq!(h.deadline, DeadlineChange::Keep);
}

#[test]
fn deadlines_move_only_when_there_is_one() {
    let mut latest = String::new();
    let h = handle_xunfei_message(&parsed(PARTIAL), &mut latest, true, true);
    assert_eq!(h.deadline, DeadlineChange::In(700));
    let last = r#"{"data": {"status": 2, "result": {"ws": [{"cw": [{"w": "完"}]}]}}}"#;
    let h = handle_xunfei_message(&parsed(last), &mut latest, true, true);
    assert_eq!(h.deadline, DeadlineChange::In(250));
    let h = handle_xunfei_message(&parsed(last), &mut latest, true, false);
    assert_eq!(h.deadline, DeadlineChange::Keep);
    let h = handle_xunfei_message(&parsed(r#"{"data": {"status": 2}}"#), &mut latest, false, true);
    assert_eq!(h.deadline, DeadlineChange::In(250));
}

#[test]
fn session_streams_then_drains() {
    let mut s = XunfeiSession::new();
    assert_eq!(s.step(XunfeiEvent::Samples).action, XunfeiAction::FlushSamples);
    assert_eq!(s.step(XunfeiEvent::Other).action, XunfeiAction::Continue);
    let st = s.step(XunfeiEvent::Text(parsed(PARTIAL)));
    assert_eq!(st.action, XunfeiAction::Continue);
    assert_eq!(st.deadline, DeadlineChange::Keep);
    assert_eq!(s.latest_text, "你好吗");
    let st = s.step(XunfeiEvent::Finish);
    assert_eq!(st.action, XunfeiAction::StartDraining);
    assert_eq!(st.deadline, DeadlineChange::In(3500));
    assert!(s.finishing);
    assert_eq!(s.step(XunfeiEvent::Samples).action, XunfeiAction::Continue);
    let st = s.step(XunfeiEvent::Text(parsed(r#"{"data": {"result": {"ws": [{"cw": [{"w": "好的"}]}]}}}"#)));
    assert_eq!(st.deadline, DeadlineChange::In(700));
    assert_eq!(s.latest_text, "好的");
    assert_eq!(s.step(XunfeiEvent::TimeUp).action, XunfeiAction::Stop { close_socket: true });
}

#[test]
fn session_stops_on_errors_and_closing() {
    let mut s = XunfeiSession::new();
    let st = s.step(XunfeiEvent::Failed("reset".into()));
    assert_eq!(st.action, XunfeiAction::Stop { close_socket: true });
    assert_eq!(st.notice.unwrap().text, "reset");
    assert_eq!(s.step(XunfeiEvent::Closed).action, XunfeiAction::Stop { close_socket: false });
    assert_eq!(s.step(XunfeiEvent::Abort).action, XunfeiAction::Stop { close_socket: true });
    assert_eq!(s.step(XunfeiEvent::AudioClosed).action, XunfeiAction::Stop { close_socket: true });
    assert_eq!(s.step(XunfeiEvent::Text(Err("x".into()))).action, XunfeiAction::Stop { close_socket: true });
    assert_eq!(s.step(XunfeiEvent::TimeUp).action, XunfeiAction::Continue);
    let mut d = XunfeiSession::new();
    d.step(XunfeiEvent::Finish);
    assert_eq!(d.step(XunfeiEvent::Closed).action, XunfeiAction::Stop { close_socket: true });
}

#[test]
fn connection_notices() {
    let n = connect_failed_notice("refused");
    assert_eq!(n.event, "xunfei:error");
    assert_eq!(n.text, "讯飞 WebSocket 连接失败: refused");
    assert_eq!(url_failed_notice("bad").text, "bad");
}

#[test]
fn frame_audio_decodes_to_the_samples() {
    for pcm in [vec![], vec![7u8], vec![1, 2], vec![0, 255, 128, 64, 1]] {
        let v = to_value(&xunfei_frame("app", 1, &pcm));
        let audio = v["data"]["audio"].as_str().unwrap();
        assert_eq!(base64::engine::general_purpose::STANDARD.decode(audio).unwrap(), pcm);
        assert_eq!(v["common"]["app_id"], Value::from("app"));
        assert_eq!(v["data"]["status"], Value::from(1));
    }
}

#[test]
fn a_session_run_hands_over_its_result_once() {
    let mut s = XunfeiSession::new();
    let events = vec![
        XunfeiEvent::Samples,
        XunfeiEvent::Text(parsed(PARTIAL)),
        XunfeiEvent::Text(parsed(r#"{"data": {"result": {"ws": [{"cw": [{"w": " "}]}]}}}"#)),
        XunfeiEvent::Finish,
        XunfeiEvent::Samples,
        XunfeiEvent::Finish,
        XunfeiEvent::TimeUp,
    ];
    let mut actions = Vec::new();
    for e in events {
        let step = s.step(e);
        actions.push(step.action);
        if matches!(step.action, XunfeiAction::Stop { .. }) {
            break;
        }
    }
    assert_eq!(
        actions,
        vec![
            XunfeiAction::FlushSamples,
            XunfeiAction::Continue,
            XunfeiAction::Continue,
            XunfeiAction::StartDraining,
            XunfeiAction::Continue,
            XunfeiAction::Continue,
            XunfeiAction::Stop { close_socket: true },
        ]
    );
    assert_eq!(s.latest_text, "你好吗");
}

#[test]
fn build_url_dates_have_the_http_shape() {
    let url = xunfei_build_url("key", "secret").unwrap();
    let date = url.split("&date=").nth(1).unwrap().split("&host=").next().unwrap();
    let date = urlencoding::decode(date).unwrap().into_owned();
    assert!(date.len() >= 29);
    assert_eq!(&date[3..5], ", ");
    assert!(date.ends_with(" GMT"));
    let n = date.len();
    assert_eq!(&date[n - 10..n - 9], ":");
    assert_eq!(&date[n - 7..n - 6], ":");
}

#[test]
fn action_frames_carry_chunks_then_close() {
    let chunks = vec![vec![1u8, 2], vec![3u8]];
    let flush: Vec<Value> = action_frames("app", XunfeiAction::FlushSamples, &chunks).iter().map(to_value).collect();
    assert_eq!(flush.len(), 2);
    assert_eq!(flush[0], to_value(&xunfei_frame("app", 1, &[1, 2])));
    assert_eq!(flush[1], to_value(&xunfei_frame("app", 1, &[3])));
    let drain: Vec<Value> = action_frames("app", XunfeiAction::StartDraining, &chunks).iter().map(to_value).collect();
    assert_eq!(drain.len(), 3);
    assert_eq!(drain[2], to_value(&xunfei_frame("app", 2, &[])));
    assert!(action_frames("app", XunfeiAction::Continue, &chunks).is_empty());
    assert!(action_frames("app", XunfeiAction::Stop { close_socket: true }, &chunks).is_empty());
}
