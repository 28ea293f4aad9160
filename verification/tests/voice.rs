use aiui::fish::{
    audio_base64, fish_attempt_step, fish_request, status_is_success, tts_input, FishAudioRequest,
    FishReply, FishStep,
};
use aiui::json::{Json, JsonNumber};
use aiui::preset::{
    preset_directory_key, preset_generated_reply, preset_group_files,
    preset_manifest, stored_preset_key, stored_preset_reply, voice_preset_plan, PresetGroup,
};
use serde_json::Value;
use sha2::Digest;

fn to_value(j: &Json) -> Value {
    match j {
        Json::Null => Value::Null,
        Json::Bool(b) => Value::Bool(*b),
        Json::Number(JsonNumber::PosInt(u)) => Value::from(*u),
        Json::Number(JsonNumber::NegInt(i)) => Value::from(*i),
        Json::Number(JsonNumber::Float(s)) => Value::from(s.parse::<f64>().unwrap()),
        Json::Str(s) => Value::String(s.clone()),
        Json::Array(items) => Value::Array(items.iter().map(to_value).collect()),
        Json::Object(entries) => {
            let mut map = serde_json::Map::new();
            for (k, v) in entries {
                map.insert(k.clone(), to_value(v));
            }
            Value::Object(map)
        }
    }
}

fn from_value(v: &Value) -> Json {
    match v {
        Value::Null => Json::Null,
        Value::Bool(b) => Json::Bool(*b),
        Value::Number(n) => {
            if let Some(u) = n.as_u64() {
                Json::Number(JsonNumber::PosInt(u))
            } else if let Some(i) = n.as_i64() {
                Json::Number(JsonNumber::NegInt(i))
            } else {
                Json::Number(JsonNumber::Float(n.to_string()))
            }
        }
        Value::String(s) => Json::Str(s.clone()),
        Value::Array(items) => Json::Array(items.iter().map(from_value).collect()),
        Value::Object(map) => {
            Json::Object(map.iter().map(|(k, v)| (k.clone(), from_value(v))).collect())
        }
    }
}

fn parse(text: &str) -> Json {
    from_value(&serde_json::from_str::<Value>(text).unwrap())
}

fn value(text: &str) -> Value {
    serde_json::from_str::<Value>(text).unwrap()
}

fn expected_key(base: &str, voice: &str) -> String {
    let digest = sha2::Sha256::digest(format!("{base}|{voice}").as_bytes());
    let hex: String = digest.iter().map(|b| format!("{b:02x}")).collect();
    hex[..24].to_string()
}

#[test]
fn preset_key_is_a_digest_prefix() {
    let key = preset_directory_key("https://fishaudio.org", "voice-1");
    assert_eq!(key, expected_key("https://fishaudio.org", "voice-1"));
    assert_eq!(key.len(), 24);
    assert!(key.chars().all(|c| c.is_ascii_digit() || ('a'..='f').contains(&c)));
    assert_ne!(key, preset_directory_key("https://fishaudio.org", "voice-2"));
}

#[test]
fn preset_key_of_empty_parts() {
    // SHA-256 of "|" starts with these hex digits.
    assert_eq!(preset_directory_key("", ""), expected_key("", ""));
}

#[test]
fn preset_plan_needs_key_and_voice() {
    let err = voice_preset_plan(&parse(r#"{"apiKey": "k"}"#)).unwrap_err();
    assert_eq!(err, "请先填写 Fish Audio API Key 和音色 ID");
    let err = voice_preset_plan(&parse(r#"{"voiceId": "v", "apiKey": "  "}"#)).unwrap_err();
    assert_eq!(err, "请先填写 Fish Audio API Key 和音色 ID");
}

#[test]
fn preset_plan_lists_nine_clips() {
    let plan = voice_preset_plan(&parse(r#"{"apiKey": "k", "voiceId": " v ", "apiBase": "http://h/"}"#)).unwrap();
    assert_eq!(plan.api_base, "http://h");
    assert_eq!(plan.voice_id, "v");
    assert_eq!(plan.dir_key, expected_key("http://h", "v"));
    let names: Vec<&str> = plan.clips.iter().map(|c| c.file_name.as_str()).collect();
    assert_eq!(
        names,
        vec!["a-0.mp3", "a-1.mp3", "a-2.mp3", "a-3.mp3", "b-0.mp3", "b-1.mp3", "c-0.mp3", "c-1.mp3", "c-2.mp3"]
    );
    assert_eq!(plan.clips[0].text, "嗯……");
    assert_eq!(plan.clips[0].group, PresetGroup::A);
    assert_eq!(plan.clips[5].text, "等一下啊……");
    assert_eq!(plan.clips[8].text, "欸？我看到了……");
    assert_eq!(to_value(&preset_generated_reply()), value(r#"{"ok": true, "count": 9}"#));
}

#[test]
fn preset_manifest_lists_files_per_group() {
    let plan = voice_preset_plan(&parse(r#"{"apiKey": "k", "voiceId": "v"}"#)).unwrap();
    let manifest = preset_manifest(&plan, 1_700_000_000_000);
    assert_eq!(
        to_value(&manifest),
        value(
            r#"{"apiBase": "https://fishaudio.org", "voiceId": "v",
                "groupA": ["a-0.mp3", "a-1.mp3", "a-2.mp3", "a-3.mp3"],
                "groupB": ["b-0.mp3", "b-1.mp3"],
                "groupC": ["c-0.mp3", "c-1.mp3", "c-2.mp3"],
                "updatedAt": 1700000000000}"#
        )
    );
}

#[test]
fn stored_preset_needs_a_voice() {
    assert!(stored_preset_key(&parse(r#"{"apiKey": "k"}"#)).is_none());
    assert_eq!(
        stored_preset_key(&parse(r#"{"voiceId": "v"}"#)).unwrap(),
        expected_key("https://fishaudio.org", "v")
    );
}

#[test]
fn preset_group_files_reads_manifests() {
    let m = parse(r#"{"groupA": ["a-0.mp3", "a-1.mp3"], "groupB": "x", "groupC": ["c-0.mp3", 3]}"#);
    assert_eq!(preset_group_files(&m, PresetGroup::A).unwrap(), vec!["a-0.mp3", "a-1.mp3"]);
    assert!(preset_group_files(&m, PresetGroup::B).is_none());
    assert!(preset_group_files(&m, PresetGroup::C).is_none());
    let empty = parse("{}");
    assert_eq!(preset_group_files(&empty, PresetGroup::A).unwrap().len(), 0);
}

#[test]
fn stored_preset_reply_has_one_entry_per_group() {
    let a = Some(vec!["AQID".to_string()]);
    let reply = stored_preset_reply(&a, &None, &Some(Vec::new()));
    assert_eq!(to_value(&reply), value(r#"{"groupA": ["AQID"], "groupB": null, "groupC": []}"#));
}

#[test]
fn clip_audio_is_base64() {
    assert_eq!(audio_base64(&[1, 2, 3]), "AQID");
    assert_eq!(audio_base64(b"hello"), "aGVsbG8=");
    assert_eq!(audio_base64(b"he"), "aGU=");
    assert_eq!(audio_base64(b""), "");
}

#[test]
fn tts_input_bounds_text_and_fills_defaults() {
    let request = FishAudioRequest { text: Some("语".repeat(1200)), api_base: None, api_key: Some("k".into()), voice_id: None };
    let (text, config) = tts_input(&request);
    assert_eq!(text.chars().count(), 1000);
    assert_eq!(
        to_value(&config),
        value(r#"{"apiBase": "https://fishaudio.org", "apiKey": "k", "voiceId": ""}"#)
    );
    let (text, _) = tts_input(&FishAudioRequest::default());
    assert_eq!(text, "");
}

#[test]
fn fish_request_targets_the_speech_endpoint() {
    let req = fish_request("你好", &parse(r#"{"apiBase": "https://x.org/", "apiKey": " k ", "voiceId": "v"}"#)).unwrap();
    assert_eq!(req.url, "https://x.org/api/open/v1/speech/tts");
    assert_eq!(req.api_key, "k");
    assert_eq!(to_value(&req.body), value(r#"{"text": "你好", "voiceId": "v", "format": "mp3", "speed": 1}"#));
}

#[test]
fn fish_request_needs_key_and_voice() {
    let err = fish_request("t", &parse(r#"{"apiKey": "k"}"#)).unwrap_err();
    assert_eq!(err, "请先填写 Fish Audio API Key 和音色 ID");
}

fn done(step: FishStep) -> Result<Vec<u8>, String> {
    match step {
        FishStep::Done(r) => r,
        FishStep::Retry => panic!("expected a result"),
    }
}

#[test]
fn fish_first_failures_are_retried() {
    assert!(matches!(fish_attempt_step(0, FishReply::Failed("e".into())), FishStep::Retry));
    assert!(matches!(fish_attempt_step(0, FishReply::TimedOut), FishStep::Retry));
    assert!(matches!(fish_attempt_step(0, FishReply::Rejected { status: 401, detail: String::new() }), FishStep::Retry));
    assert!(matches!(fish_attempt_step(0, FishReply::Rejected { status: 503, detail: String::new() }), FishStep::Retry));
}

#[test]
fn fish_second_failures_are_final() {
    assert_eq!(done(fish_attempt_step(1, FishReply::Failed("boom".into()))).unwrap_err(), "Fish Audio 请求失败: boom");
    assert_eq!(done(fish_attempt_step(1, FishReply::TimedOut)).unwrap_err(), "Fish Audio 请求超时");
    assert_eq!(
        done(fish_attempt_step(1, FishReply::Rejected { status: 503, detail: "busy".into() })).unwrap_err(),
        "Fish Audio 请求失败 (503): busy"
    );
}

#[test]
fn fish_client_errors_are_not_retried() {
    let detail = "d".repeat(600);
    let err = done(fish_attempt_step(0, FishReply::Rejected { status: 400, detail })).unwrap_err();
    assert_eq!(err, format!("Fish Audio 请求失败 (400): {}", "d".repeat(500)));
}

#[test]
fn fish_success_needs_audio() {
    assert_eq!(done(fish_attempt_step(0, FishReply::Audio(Ok(vec![1, 2])))).unwrap(), vec![1, 2]);
    assert_eq!(done(fish_attempt_step(0, FishReply::Audio(Ok(Vec::new())))).unwrap_err(), "Fish Audio 返回了空音频");
    assert_eq!(done(fish_attempt_step(0, FishReply::Audio(Err("read".into())))).unwrap_err(), "read");
}

#[test]
fn success_statuses_are_two_hundreds() {
    assert!(status_is_success(200));
    assert!(status_is_success(299));
    assert!(!status_is_success(199));
    assert!(!status_is_success(300));
    assert!(!status_is_success(401));
}

#[test]
fn a_written_manifest_lists_the_clip_files() {
    let plan = voice_preset_plan(&parse(r#"{"apiKey": "k", "voiceId": "v"}"#)).unwrap();
    let manifest = preset_manifest(&plan, 5);
    for group in [PresetGroup::A, PresetGroup::B, PresetGroup::C] {
        let expected: Vec<String> =
            plan.clips.iter().filter(|c| c.group == group).map(|c| c.file_name.clone()).collect();
        assert_eq!(preset_group_files(&manifest, group).unwrap(), expected);
    }
}

#[test]
fn a_generated_preset_is_found_again() {
    let plan = voice_preset_plan(&parse(r#"{"apiBase": "http://h//", "apiKey": "k", "voiceId": " v "}"#)).unwrap();
    let other = parse(r#"{"apiBase": "http://h", "voiceId": "v"}"#);
    assert_eq!(stored_preset_key(&other).unwrap(), plan.dir_key);
}
