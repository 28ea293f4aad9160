use aiui::json::{Json, JsonNumber};
use aiui::settings::{
    desktop_shortcut_accelerator, developer_mode_flag, fish_audio_config_from_value,
    image_quality_setting, quality_for_lowercase, sanitize_settings, screenshot_quality_settings,
};
use aiui::turns::{sanitize_turns, Attachment, Turn};
use serde_json::Value;

fn to_value(j: &Json) -> Value {
    match j {
        Json::Null => Value::Null,
        Json::Bool(b) => Value::Bool(*b),
        Json::Number(JsonNumber::PosInt(u)) => Value::from(*u),
        Json::Number(JsonNumber::NegInt(i)) => Value::from(*i),
        Json::Number(JsonNumber::Float(s)) => Value::from(s.parse::<f64>().unwrap()),
        Json::Str(s) => Value::String(s.clone()),
        Json::Array(items) => Value::Array(items.iter().map(to_value).collect()),
        Json::Object(entries) => {
            let mut map = serde_json::Map::new();
            for (k, v) in entries {
                map.insert(k.clone(), to_value(v));
            }
            Value::Object(map)
        }
    }
}

fn from_value(v: &Value) -> Json {
    match v {
        Value::Null => Json::Null,
        Value::Bool(b) => Json::Bool(*b),
        Value::Number(n) => {
            if let Some(u) = n.as_u64() {
                Json::Number(JsonNumber::PosInt(u))
            } else if let Some(i) = n.as_i64() {
                Json::Number(JsonNumber::NegInt(i))
            } else {
                Json::Number(JsonNumber::Float(n.to_string()))
            }
        }
        Value::String(s) => Json::Str(s.clone()),
        Value::Array(items) => Json::Array(items.iter().map(from_value).collect()),
        Value::Object(map) => {
            Json::Object(map.iter().map(|(k, v)| (k.clone(), from_value(v))).collect())
        }
    }
}

fn parse(text: &str) -> Json {
    from_value(&serde_json::from_str::<Value>(text).unwrap())
}

fn value(text: &str) -> Value {
    serde_json::from_str::<Value>(text).unwrap()
}

fn turn(role: &str, content: &str) -> Turn {
    Turn { role: role.to_string(), content: content.to_string(), voice_record_id: None, attachments: None }
}

fn image(name: &str, url: &str, is_image: bool) -> Attachment {
    Attachment {
        name: name.to_string(),
        kind: "image/png".to_string(),
        size: 10,
        original_size: 4,
        is_image,
        is_text: true,
        full_data_url: url.to_string(),
    }
}

#[test]
fn sanitize_turns_without_turns_is_empty() {
    assert!(sanitize_turns(None).is_empty());
    assert!(sanitize_turns(Some(Vec::new())).is_empty());
}

#[test]
fn sanitize_turns_keeps_user_and_assistant_turns_in_order() {
    let turns = vec![
        turn("system", "rules"),
        turn("user", "hello"),
        turn("tool", "x"),
        turn("assistant", "hi there"),
    ];
    let out = sanitize_turns(Some(turns));
    let roles: Vec<&str> = out.iter().map(|t| t.role.as_str()).collect();
    assert_eq!(roles, vec!["user", "assistant"]);
    assert_eq!(out[0].content, "hello");
    assert_eq!(out[1].content, "hi there");
}

#[test]
fn sanitize_turns_drops_blank_content() {
    let turns = vec![turn("user", "   \n\t"), turn("assistant", ""), turn("user", " ok ")];
    let out = sanitize_turns(Some(turns));
    assert_eq!(out.len(), 1);
    assert_eq!(out[0].content, " ok ");
}

#[test]
fn sanitize_turns_bounds_content_by_characters() {
    let long: String = "字".repeat(200_005);
    let out = sanitize_turns(Some(vec![turn("user", &long)]));
    assert_eq!(out[0].content.chars().count(), 200_000);
}

#[test]
fn sanitize_turns_judges_blankness_after_bounding() {
    let mut content = " ".repeat(200_000);
    content.push('x');
    let out = sanitize_turns(Some(vec![turn("user", &content)]));
    assert!(out.is_empty());
}

#[test]
fn sanitize_turns_keeps_the_last_five_hundred() {
    let turns: Vec<Turn> = (0..510).map(|i| turn("user", &format!("m{i}"))).collect();
    let out = sanitize_turns(Some(turns));
    assert_eq!(out.len(), 500);
    assert_eq!(out[0].content, "m10");
    assert_eq!(out[499].content, "m509");
}

#[test]
fn sanitize_turns_cleans_assistant_turns() {
    let mut t = turn("assistant", "answer");
    t.voice_record_id = Some("  rec-1  ".to_string());
    t.attachments = Some(vec![image("a.png", "data:x", true)]);
    let mut blank = turn("assistant", "again");
    blank.voice_record_id = Some("   ".to_string());
    let out = sanitize_turns(Some(vec![t, blank]));
    assert_eq!(out[0].voice_record_id.as_deref(), Some("rec-1"));
    assert!(out[0].attachments.is_none());
    assert_eq!(out[1].voice_record_id, None);
}

#[test]
fn sanitize_turns_keeps_only_image_attachments_of_user_turns() {
    let mut t = turn("user", "look");
    t.voice_record_id = Some(" keep ".to_string());
    let long_name = "n".repeat(250);
    t.attachments = Some(vec![
        image(&long_name, "data:image/png;base64,AAA", true),
        image("doc.txt", "data:text/plain,abc", false),
        image("empty.png", "", true),
    ]);
    let out = sanitize_turns(Some(vec![t]));
    assert_eq!(out[0].voice_record_id.as_deref(), Some(" keep "));
    let atts = out[0].attachments.as_ref().unwrap();
    assert_eq!(atts.len(), 1);
    assert_eq!(atts[0].name.chars().count(), 200);
    assert_eq!(atts[0].original_size, 10);
    assert_eq!(atts[0].size, 10);
    assert!(atts[0].is_image);
    assert!(!atts[0].is_text);
    assert_eq!(atts[0].full_data_url, "data:image/png;base64,AAA");
}

#[test]
fn sanitize_turns_keeps_a_larger_original_size() {
    let mut t = turn("user", "look");
    let mut a = image("a.png", "data:x", true);
    a.original_size = 99;
    a.kind = "k".repeat(120);
    t.attachments = Some(vec![a]);
    let out = sanitize_turns(Some(vec![t]));
    let atts = out[0].attachments.as_ref().unwrap();
    assert_eq!(atts[0].original_size, 99);
    assert_eq!(atts[0].kind.chars().count(), 100);
}

#[test]
fn sanitize_turns_twice_is_sanitize_once() {
    let mut a = turn("assistant", "  reply  ");
    a.voice_record_id = Some(" v ".to_string());
    let mut u = turn("user", "question");
    u.attachments = Some(vec![image("a", "u", true), image("b", "", true)]);
    let turns = vec![turn("system", "s"), u, a, turn("user", " ")];
    let once = sanitize_turns(Some(turns));
    let twice = sanitize_turns(Some(once.clone()));
    assert_eq!(format!("{once:?}"), format!("{twice:?}"));
}

#[test]
fn sanitize_settings_keeps_strings_numbers_and_flags() {
    let src = parse(r#"{"a": "text", "b": 3, "c": true, "d": null, "e": [1], "f": {"x": 1}, "g": -2, "h": 1.5}"#);
    let out = sanitize_settings(Some(src));
    assert_eq!(to_value(&out), value(r#"{"a": "text", "b": 3, "c": true, "g": -2, "h": 1.5}"#));
}

#[test]
fn sanitize_settings_without_an_object_is_empty() {
    assert_eq!(to_value(&sanitize_settings(None)), value("{}"));
    assert_eq!(to_value(&sanitize_settings(Some(parse("[1, 2]")))), value("{}"));
    assert_eq!(to_value(&sanitize_settings(Some(parse(r#""text""#)))), value("{}"));
}

#[test]
fn sanitize_settings_bounds_strings() {
    let mut src = serde_json::Map::new();
    src.insert("long".to_string(), Value::String("é".repeat(200_010)));
    let out = sanitize_settings(Some(from_value(&Value::Object(src))));
    let v = to_value(&out);
    assert_eq!(v["long"].as_str().unwrap().chars().count(), 200_000);
}

#[test]
fn sanitize_settings_twice_is_sanitize_once() {
    let src = parse(r#"{"a": "x", "b": [1], "c": false}"#);
    let once = sanitize_settings(Some(src));
    let once_value = to_value(&once);
    let twice = sanitize_settings(Some(once));
    assert_eq!(to_value(&twice), once_value);
}

#[test]
fn desktop_shortcut_defaults_to_control_a() {
    assert_eq!(desktop_shortcut_accelerator(&parse("{}")), "Control+A");
    assert_eq!(desktop_shortcut_accelerator(&parse(r#"{"desktopShortcut": "  \t"}"#)), "Control+A");
    assert_eq!(desktop_shortcut_accelerator(&parse(r#"{"desktopShortcut": 5}"#)), "Control+A");
    assert_eq!(desktop_shortcut_accelerator(&parse(r#"{"desktopShortcut": " Alt+Shift+S \n"}"#)), "Alt+Shift+S");
}

#[test]
fn fish_config_reads_and_cleans_fields() {
    let cfg = fish_audio_config_from_value(&parse(
        r#"{"apiBase": "https://api.example.com///", "apiKey": "  key  ", "voiceId": "\tvoice\n"}"#,
    ));
    assert_eq!(cfg.api_base, "https://api.example.com");
    assert_eq!(cfg.api_key, "key");
    assert_eq!(cfg.voice_id, "voice");
}

#[test]
fn fish_config_defaults() {
    let cfg = fish_audio_config_from_value(&parse("{}"));
    assert_eq!(cfg.api_base, "https://fishaudio.org");
    assert_eq!(cfg.api_key, "");
    assert_eq!(cfg.voice_id, "");
    let cfg = fish_audio_config_from_value(&parse(r#"{"apiBase": 1, "apiKey": null}"#));
    assert_eq!(cfg.api_base, "https://fishaudio.org");
    assert_eq!(cfg.api_key, "");
}

#[test]
fn screenshot_quality_names_are_compared_in_lower_case() {
    assert_eq!(screenshot_quality_settings("low"), (1280, 72));
    assert_eq!(screenshot_quality_settings("LOW"), (1280, 72));
    assert_eq!(screenshot_quality_settings("High"), (2560, 92));
    assert_eq!(screenshot_quality_settings("balanced"), (1920, 85));
    assert_eq!(screenshot_quality_settings(""), (1920, 85));
    assert_eq!(quality_for_lowercase("high"), (2560, 92));
    assert_eq!(quality_for_lowercase("HIGH"), (1920, 85));
}

#[test]
fn image_quality_setting_defaults_to_balanced() {
    assert_eq!(image_quality_setting(&parse("{}")), "balanced");
    assert_eq!(image_quality_setting(&parse(r#"{"desktopImageQuality": "high"}"#)), "high");
}

#[test]
fn developer_mode_follows_the_flag() {
    assert!(developer_mode_flag(&parse(r#"{"developerMode": true}"#)));
    assert!(!developer_mode_flag(&parse(r#"{"developerMode": false}"#)));
    assert!(!developer_mode_flag(&parse(r#"{"developerMode": "yes"}"#)));
    assert!(!developer_mode_flag(&parse("{}")));
    assert!(!developer_mode_flag(&parse("null")));
}

#[test]
fn sanitized_turns_trace_back_to_input_turns() {
    let mut assistant = turn("assistant", "answer");
    assistant.voice_record_id = Some("\t rec-1\u{a0}".to_string());
    assistant.attachments = Some(vec![image("a.png", "data:x", true)]);
    let mut blank_voice = turn("assistant", "again");
    blank_voice.voice_record_id = Some("\u{3000} \n".to_string());
    let input = vec![turn("system", "s"), assistant, turn("user", "q"), blank_voice];
    let out = sanitize_turns(Some(input.clone()));
    assert!(out.len() <= input.len());
    let roles: Vec<&str> = out.iter().map(|t| t.role.as_str()).collect();
    assert_eq!(roles, vec!["assistant", "user", "assistant"]);
    assert_eq!(out[0].voice_record_id.as_deref(), Some("rec-1"));
    assert!(out[0].attachments.is_none());
    assert!(out[2].voice_record_id.is_none());
}

#[test]
fn sanitized_settings_keep_exactly_the_scalar_keys() {
    let out = to_value(&sanitize_settings(Some(parse(
        r#"{"a": "x", "b": 2, "c": true, "d": null, "e": [1], "f": {"g": 1}, "h": -3.5}"#,
    ))));
    let keys: Vec<&String> = out.as_object().unwrap().keys().collect();
    assert_eq!(keys, vec!["a", "b", "c", "h"]);
    assert_eq!(out["h"], value("-3.5"));
    assert_eq!(to_value(&sanitize_settings(Some(parse("[1]")))), value("{}"));
}

#[test]
fn blankness_agrees_with_char_is_whitespace() {
    for code in (0u32..0x3100).chain([0xFEFF, 0x10FFFF]) {
        if let Some(c) = char::from_u32(code) {
            let text = c.to_string();
            let cleaned = fish_audio_config_from_value(&Json::Object(vec![("voiceId".to_string(), Json::Str(text))]));
            assert_eq!(cleaned.voice_id.is_empty(), c.is_whitespace(), "U+{code:04X}");
        }
    }
}
