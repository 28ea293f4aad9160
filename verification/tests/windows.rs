use aiui::json::{Json, JsonNumber};
use aiui::shell::{
    build_tray_menu, jpeg_data_url, main_window_plan, screenshot_data_url, screenshot_event, tray_command,
    MainWindowPlan, MenuEntry, TrayCommand,
};
use aiui::state::{
    interactive_refused_reply, is_audio_sender, is_main_sender, new_session, ok_reply, opened_reply,
    require_audio_sender, require_main_sender, AppState, MainWindowReaction, OpenCollaborationPayload,
    OpenDecision, WindowEvent,
};
use aiui::turns::Turn;
use base64::Engine;
use serde_json::Value;

fn to_value(j: &Json) -> Value {
    match j {
        Json::Null => Value::Null,
        Json::Bool(b) => Value::Bool(*b),
        Json::Number(JsonNumber::PosInt(u)) => Value::from(*u),
        Json::Number(JsonNumber::NegInt(i)) => Value::from(*i),
        Json::Number(JsonNumber::Float(s)) => Value::from(s.parse::<f64>().unwrap()),
        Json::Str(s) => Value::String(s.clone()),
        Json::Array(items) => Value::Array(items.iter().map(to_value).collect()),
        Json::Object(entries) => {
            let mut map = serde_json::Map::new();
            for (k, v) in entries {
                map.insert(k.clone(), to_value(v));
            }
            Value::Object(map)
        }
    }
}

fn from_value(v: &Value) -> Json {
    match v {
        Value::Null => Json::Null,
        Value::Bool(b) => Json::Bool(*b),
        Value::Number(n) => {
            if let Some(u) = n.as_u64() {
                Json::Number(JsonNumber::PosInt(u))
            } else if let Some(i) = n.as_i64() {
                Json::Number(JsonNumber::NegInt(i))
            } else {
                Json::Number(JsonNumber::Float(n.to_string()))
            }
        }
        Value::String(s) => Json::Str(s.clone()),
        Value::Array(items) => Json::Array(items.iter().map(from_value).collect()),
        Value::Object(map) => {
            Json::Object(map.iter().map(|(k, v)| (k.clone(), from_value(v))).collect())
        }
    }
}

fn parse(text: &str) -> Json {
    from_value(&serde_json::from_str::<Value>(text).unwrap())
}

fn value(text: &str) -> Value {
    serde_json::from_str::<Value>(text).unwrap()
}

fn turn(role: &str, content: &str) -> Turn {
    Turn { role: role.to_string(), content: content.to_string(), voice_record_id: None, attachments: None }
}

fn with_session(mode: &str) -> AppState {
    let mut state = AppState::default();
    let session = new_session("s-1".to_string(), None, mode);
    state.install_session(session);
    state
}

#[test]
fn senders_are_recognized_by_label() {
    assert!(is_main_sender("main"));
    assert!(!is_main_sender("audio"));
    assert!(is_audio_sender("audio"));
    assert!(is_audio_sender("desktop"));
    assert!(!is_audio_sender("main"));
    assert_eq!(require_audio_sender("main", "非法的讯飞请求").unwrap_err(), "非法的讯飞请求");
    assert!(require_audio_sender("desktop", "x").is_ok());
    assert_eq!(require_main_sender("audio", "非法的预制语音请求").unwrap_err(), "非法的预制语音请求");
    assert!(require_main_sender("main", "x").is_ok());
}

#[test]
fn default_state_is_idle() {
    let s = AppState::default();
    assert!(!s.main_ready);
    assert!(s.pending_main_commands.is_empty());
    assert!(s.audio_session.is_none());
    assert!(!s.audio_completion_sent && !s.desktop_mouse_interactive && !s.developer_mode && !s.is_quitting);
    assert!(s.desktop_shortcut.is_none());
}

#[test]
fn commands_wait_until_the_page_is_ready() {
    let mut s = AppState::default();
    assert!(s.send_main_command("new-audio-chat", parse("{}"), true).is_none());
    assert!(s.send_main_command("clear-logs", Json::Null, false).is_none());
    assert_eq!(s.pending_main_commands.len(), 2);
    assert!(s.renderer_ready("audio", true).is_empty());
    assert!(!s.main_ready);
    let delivered = s.renderer_ready("main", true);
    let actions: Vec<Value> = delivered.iter().map(|c| to_value(c)["action"].clone()).collect();
    assert_eq!(actions, vec![Value::from("new-audio-chat"), Value::from("clear-logs")]);
    assert!(s.pending_main_commands.is_empty());
    let now = s.send_main_command("export-logs", parse(r#"{"x": 1, "action": "old"}"#), true).unwrap();
    assert_eq!(to_value(&now), value(r#"{"x": 1, "action": "export-logs"}"#));
}

#[test]
fn many_queued_commands_arrive_in_order() {
    let mut s = AppState::default();
    let names = ["new-audio-chat", "new-desktop-work", "recent-audio-chat", "clear-logs", "export-logs"];
    for (i, name) in names.iter().enumerate() {
        assert!(s.send_main_command(name, parse(&format!(r#"{{"n": {i}}}"#)), i % 2 == 0).is_none());
    }
    let delivered = s.renderer_ready("main", true);
    let got: Vec<Value> = delivered.iter().map(to_value).collect();
    let expected: Vec<Value> =
        names.iter().enumerate().map(|(i, n)| value(&format!(r#"{{"n": {i}, "action": "{n}"}}"#))).collect();
    assert_eq!(got, expected);
    assert!(s.pending_main_commands.is_empty());
}

#[test]
fn commands_are_dropped_when_the_window_is_gone() {
    let mut s = AppState::default();
    s.send_main_command("a", parse("{}"), false);
    s.main_ready = true;
    assert!(s.flush_main_commands(false).is_empty());
    assert!(s.pending_main_commands.is_empty());
    assert!(s.send_main_command("b", parse("{}"), false).is_none());
    assert_eq!(s.pending_main_commands.len(), 1);
}

#[test]
fn main_window_hides_instead_of_closing() {
    let mut s = AppState::default();
    s.main_ready = true;
    assert_eq!(s.on_main_window_event(WindowEvent::CloseRequested), MainWindowReaction::PreventCloseAndHide);
    assert_eq!(s.on_main_window_event(WindowEvent::Other), MainWindowReaction::Nothing);
    assert!(s.main_ready);
    s.begin_quit();
    assert_eq!(s.on_main_window_event(WindowEvent::CloseRequested), MainWindowReaction::Nothing);
    s.on_main_window_event(WindowEvent::Destroyed);
    assert!(!s.main_ready);
    s.main_ready = true;
    s.main_window_created();
    assert!(!s.main_ready);
}

#[test]
fn completion_is_reported_once() {
    let mut s = with_session("audio");
    s.audio_session.as_mut().unwrap().pending_turns = vec![turn("user", "hi"), turn("system", "x")];
    let c = s.emit_audio_completion("ended", None).unwrap();
    assert_eq!(c.session_id, "s-1");
    assert_eq!(c.mode, "audio");
    assert_eq!(c.reason, "ended");
    assert_eq!(c.turns.len(), 1);
    assert!(s.emit_audio_completion("window-close", None).is_none());
    s.on_conversation_destroyed();
    assert!(s.audio_session.is_none());
    assert!(!s.audio_completion_sent);
}

#[test]
fn completion_without_session_is_marked_sent() {
    let mut s = AppState::default();
    assert!(s.emit_audio_completion("ended", Some(vec![turn("user", "x")])).is_none());
    assert!(s.audio_completion_sent);
}

#[test]
fn opening_requires_the_main_window() {
    let mut s = AppState::default();
    match s.open_collaboration("audio", false, None, "audio") {
        OpenDecision::Rejected(e) => assert_eq!(e, "非法的协作窗口请求"),
        _ => panic!("expected a refusal"),
    }
}

#[test]
fn opening_reuses_an_open_window() {
    let mut s = with_session("desktop");
    s.audio_completion_sent = true;
    match s.open_collaboration("main", true, None, "audio") {
        OpenDecision::Reused(reply) => {
            assert_eq!(to_value(&reply), value(r#"{"ok": true, "sessionId": "s-1", "reused": true}"#))
        }
        _ => panic!("expected reuse"),
    }
    assert!(s.audio_completion_sent);
    let mut empty = AppState::default();
    match empty.open_collaboration("main", true, None, "audio") {
        OpenDecision::Reused(reply) => assert_eq!(to_value(&reply)["sessionId"], Value::from("")),
        _ => panic!("expected reuse"),
    }
}

#[test]
fn opening_prepares_a_fresh_session() {
    let mut s = AppState::default();
    s.audio_completion_sent = true;
    let payload = OpenCollaborationPayload {
        settings: Some(parse(r#"{"desktopShortcut": "Alt+X", "nested": {"a": 1}}"#)),
        target_chat_id: Some("chat-9".to_string()),
        context: Some(vec![turn("user", "hello"), turn("bot", "x")]),
    };
    let session = match s.open_collaboration("main", false, Some(payload), "desktop") {
        OpenDecision::Create(session) => session,
        _ => panic!("expected a new session"),
    };
    assert!(!s.audio_completion_sent);
    assert!(s.audio_session.is_none());
    assert_eq!(session.session_id.len(), 36);
    let hyphens: Vec<usize> = session.session_id.char_indices().filter(|(_, c)| *c == '-').map(|(i, _)| i).collect();
    assert_eq!(hyphens, vec![8, 13, 18, 23]);
    let chars: Vec<char> = session.session_id.chars().collect();
    assert!(chars.iter().enumerate().all(|(i, c)| [8, 13, 18, 23].contains(&i) || matches!(c, '0'..='9' | 'a'..='f')));
    assert_eq!(chars[14], '4');
    assert!(matches!(chars[19], '8' | '9' | 'a' | 'b'));
    assert_eq!(session.mode, "desktop");
    assert_eq!(session.target_chat_id, "chat-9");
    assert_eq!(session.context.len(), 1);
    assert_eq!(to_value(&session.settings), value(r#"{"desktopShortcut": "Alt+X"}"#));
    assert!(session.pending_turns.is_empty() && session.pending_screenshot.is_none());
    let id = session.session_id.clone();
    s.install_session(session);
    assert_eq!(s.audio_session.as_ref().unwrap().session_id, id);
    assert_eq!(
        to_value(&opened_reply(&id, "Alt+X")),
        value(&format!(r#"{{"ok": true, "sessionId": "{id}", "reused": false, "shortcut": "Alt+X"}}"#))
    );
}

#[test]
fn new_session_without_payload() {
    let session = new_session("id".to_string(), None, "audio");
    assert_eq!(session.target_chat_id, "");
    assert!(session.context.is_empty());
    assert_eq!(to_value(&session.settings), value("{}"));
}

#[test]
fn closing_a_conversation_reports_and_releases_the_shortcut() {
    let mut s = with_session("desktop");
    s.record_desktop_shortcut("Control+A".to_string());
    let (completion, shortcut) = s.on_conversation_close_requested();
    assert_eq!(completion.unwrap().reason, "window-close");
    assert_eq!(shortcut.as_deref(), Some("Control+A"));
    assert!(s.desktop_shortcut.is_none());
    assert!(s.take_desktop_shortcut().is_none());
}

#[test]
fn sessions_are_only_shown_to_conversation_windows() {
    let s = with_session("audio");
    assert_eq!(s.audio_chat_session("main").unwrap_err(), "语音会话不存在");
    assert_eq!(s.audio_chat_session("audio").unwrap().unwrap().session_id, "s-1");
    assert!(AppState::default().audio_chat_session("desktop").unwrap().is_none());
    assert_eq!(s.desktop_work_session("desktop").unwrap_err(), "桌面协作会话不存在");
    let d = with_session("desktop");
    assert_eq!(d.desktop_work_session("desktop").unwrap().mode, "desktop");
    assert_eq!(d.desktop_work_session("main").unwrap_err(), "桌面协作会话不存在");
}

#[test]
fn checkpoints_save_sanitized_turns() {
    let mut s = with_session("audio");
    assert_eq!(to_value(&s.checkpoint("main", Some(vec![turn("user", "x")]))), value(r#"{"ok": false}"#));
    assert!(s.audio_session.as_ref().unwrap().pending_turns.is_empty());
    let reply = s.checkpoint("audio", Some(vec![turn("user", "x"), turn("user", " ")]));
    assert_eq!(to_value(&reply), value(r#"{"ok": true}"#));
    assert_eq!(s.audio_session.as_ref().unwrap().pending_turns.len(), 1);
    let mut none = AppState::default();
    assert_eq!(to_value(&none.checkpoint("audio", None)), value(r#"{"ok": true}"#));
}

#[test]
fn closing_reports_the_last_checkpoint() {
    let mut s = with_session("desktop");
    s.checkpoint("desktop", Some(vec![turn("user", "hi"), turn("system", "x"), turn("assistant", "yo")]));
    let (completion, _) = s.on_conversation_close_requested();
    let c = completion.unwrap();
    assert_eq!(c.session_id, "s-1");
    assert_eq!(c.mode, "desktop");
    assert_eq!(c.reason, "window-close");
    let contents: Vec<&str> = c.turns.iter().map(|t| t.content.as_str()).collect();
    assert_eq!(contents, vec!["hi", "yo"]);
    let (again, _) = s.on_conversation_close_requested();
    assert!(again.is_none());
}

#[test]
fn completing_saves_reports_and_releases() {
    let mut s = with_session("desktop");
    s.record_desktop_shortcut("Alt+S".to_string());
    assert!(s.complete_conversation("main", None, true).is_none());
    let (completion, shortcut) = s.complete_conversation("desktop", Some(vec![turn("assistant", "bye")]), true).unwrap();
    let c = completion.unwrap();
    assert_eq!(c.reason, "ended");
    assert_eq!(c.turns.len(), 1);
    assert_eq!(shortcut.as_deref(), Some("Alt+S"));
    assert_eq!(s.audio_session.as_ref().unwrap().pending_turns.len(), 1);
    let (again, none) = s.complete_conversation("audio", None, false).unwrap();
    assert!(again.is_none());
    assert!(none.is_none());
    assert!(s.audio_session.as_ref().unwrap().pending_turns.is_empty());
}

#[test]
fn mouse_interactivity_is_for_desktop_sessions() {
    let mut s = with_session("audio");
    assert!(!s.interactive_allowed("desktop", true));
    let mut d = with_session("desktop");
    assert!(!d.interactive_allowed("main", true));
    assert!(!d.interactive_allowed("desktop", false));
    assert!(d.interactive_allowed("desktop", true));
    assert_eq!(to_value(&d.set_mouse_interactive(true)), value(r#"{"ok": true, "interactive": true}"#));
    assert!(d.desktop_mouse_interactive);
    assert_eq!(to_value(&interactive_refused_reply()), value(r#"{"ok": false, "interactive": false}"#));
    s.set_mouse_interactive(false);
    assert!(!s.desktop_mouse_interactive);
}

#[test]
fn app_state_updates_come_from_the_main_window() {
    let mut s = AppState::default();
    assert!(!s.app_state_update("audio", &parse(r#"{"developerMode": true}"#)));
    assert!(!s.developer_mode);
    assert!(s.app_state_update("main", &parse(r#"{"developerMode": true}"#)));
    assert!(s.developer_mode);
    assert!(s.app_state_update("main", &parse("{}")));
    assert!(!s.developer_mode);
}

#[test]
fn screenshots_follow_the_session() {
    let mut s = AppState::default();
    assert_eq!(s.screenshot_quality(), "balanced");
    s.record_screenshot("data:x".to_string());
    assert!(s.audio_session.is_none());
    let mut d = AppState::default();
    let payload = OpenCollaborationPayload {
        settings: Some(parse(r#"{"desktopImageQuality": "low"}"#)),
        target_chat_id: None,
        context: None,
    };
    d.install_session(new_session("id".to_string(), Some(payload), "desktop"));
    assert_eq!(d.screenshot_quality(), "low");
    d.record_screenshot("data:image/jpeg;base64,AA".to_string());
    assert_eq!(d.audio_session.as_ref().unwrap().pending_screenshot.as_deref(), Some("data:image/jpeg;base64,AA"));
    assert_eq!(
        to_value(&screenshot_event("u", "low")),
        value(r#"{"dataUrl": "u", "displayId": "0", "quality": "low"}"#)
    );
}

#[test]
fn ok_replies() {
    assert_eq!(to_value(&ok_reply(true)), value(r#"{"ok": true}"#));
    assert_eq!(to_value(&ok_reply(false)), value(r#"{"ok": false}"#));
}

fn item(e: &MenuEntry) -> Option<(String, bool)> {
    match e {
        MenuEntry::Item { id, enabled, .. } => Some((id.clone(), *enabled)),
        MenuEntry::Separator => None,
    }
}

#[test]
fn tray_menu_disables_new_conversations_while_one_is_open() {
    let menu = build_tray_menu(true, false);
    let items: Vec<Option<(String, bool)>> = menu.iter().map(item).collect();
    assert_eq!(
        items,
        vec![
            Some(("open_main".to_string(), true)),
            Some(("new_audio".to_string(), false)),
            Some(("new_desktop".to_string(), false)),
            Some(("recent_audio".to_string(), false)),
            Some(("recent_desktop".to_string(), false)),
            None,
            Some(("quit".to_string(), true)),
        ]
    );
    if let MenuEntry::Item { label, .. } = &menu[6] {
        assert_eq!(label, "退出AIUI");
    }
}

#[test]
fn tray_menu_shows_log_commands_in_developer_mode() {
    let menu = build_tray_menu(false, true);
    let items: Vec<Option<(String, bool)>> = menu.iter().map(item).collect();
    assert_eq!(items.len(), 10);
    assert_eq!(items[1], Some(("new_audio".to_string(), true)));
    assert_eq!(items[5], None);
    assert_eq!(items[6], Some(("clear_logs".to_string(), true)));
    assert_eq!(items[7], Some(("export_logs".to_string(), true)));
    assert_eq!(items[8], None);
}

#[test]
fn tray_entries_map_to_commands() {
    assert_eq!(tray_command("open_main"), TrayCommand::ShowMain);
    assert_eq!(tray_command("new_audio"), TrayCommand::SendCommand("new-audio-chat".to_string()));
    assert_eq!(tray_command("new_desktop"), TrayCommand::SendCommand("new-desktop-work".to_string()));
    assert_eq!(tray_command("recent_audio"), TrayCommand::SendCommand("recent-audio-chat".to_string()));
    assert_eq!(tray_command("recent_desktop"), TrayCommand::SendCommand("recent-desktop-work".to_string()));
    assert_eq!(tray_command("clear_logs"), TrayCommand::SendCommand("clear-logs".to_string()));
    assert_eq!(tray_command("export_logs"), TrayCommand::SendCommand("export-logs".to_string()));
    assert_eq!(tray_command("quit"), TrayCommand::Quit);
    assert_eq!(tray_command("other"), TrayCommand::Nothing);
}

#[test]
fn main_window_plans() {
    assert_eq!(main_window_plan(false, true), MainWindowPlan::Create);
    assert_eq!(main_window_plan(true, true), MainWindowPlan::Show { unminimize: true });
    assert_eq!(main_window_plan(true, false), MainWindowPlan::Show { unminimize: false });
}

#[test]
fn screenshots_become_jpeg_data_urls() {
    let rgba = vec![200u8; 4 * 4 * 4];
    let url = screenshot_data_url(4, 4, rgba.clone(), 1920, (0, 0)).unwrap();
    assert!(url.starts_with("data:image/jpeg;base64,/9j/"));
    let scaled = screenshot_data_url(4, 4, rgba, 2, (2, 2)).unwrap();
    assert!(scaled.starts_with("data:image/jpeg;base64,/9j/"));
    assert_ne!(url, scaled);
}

#[test]
fn jpeg_data_urls_encode_the_given_pixels() {
    let rgba = vec![10u8; 2 * 3 * 4];
    let url = jpeg_data_url(2, 3, rgba.clone()).unwrap();
    let b64 = url.strip_prefix("data:image/jpeg;base64,").unwrap();
    let jpeg = base64::engine::general_purpose::STANDARD.decode(b64).unwrap();
    let mut expected = Vec::new();
    image::DynamicImage::ImageRgba8(image::RgbaImage::from_raw(2, 3, rgba).unwrap())
        .write_to(&mut std::io::Cursor::new(&mut expected), image::ImageFormat::Jpeg)
        .unwrap();
    assert_eq!(jpeg, expected);
    assert!(jpeg_data_url(0, 0, Vec::new()).is_err());
}
