use vstd::prelude::*;

use crate::codec::{new_uuid_v4, uuid_text_shape};
use crate::json::{entries_view, is_object_or_null, with_field, Json, JsonView};
use crate::settings::{
    developer_mode_flag, developer_mode_of, image_quality_of, image_quality_setting,
    sanitize_settings, sanitized_settings,
};
use crate::text::str_eq;
use crate::turns::{copy_turns, opt_turns_view, sanitize_turns, sanitized, turns_view, Turn, TurnView};

verus! {

// ---------------------------------------------------------------------------
// Who may ask for what.
// ---------------------------------------------------------------------------

/// Whether a request comes from the main window.
pub fn is_main_sender(label: &str) -> (r: bool)
    ensures
        r == (label@ == "main"@),
{
    str_eq(label, "main")
}

/// Whether a request comes from a conversation window (voice chat or desktop work).
pub fn is_audio_sender(label: &str) -> (r: bool)
    ensures
        r == (label@ == "audio"@ || label@ == "desktop"@),
{
    str_eq(label, "audio") || str_eq(label, "desktop")
}

/// A request only a conversation window may make; otherwise the given error.
pub fn require_audio_sender(label: &str, error: &str) -> (r: Result<(), String>)
    ensures
        r is Ok <==> (label@ == "audio"@ || label@ == "desktop"@),
        r matches Err(e) ==> e@ == error@,
{
    if is_audio_sender(label) {
        Ok(())
    } else {
        Err(error.to_owned())
    }
}

/// A request only the main window may make; otherwise the given error.
pub fn require_main_sender(label: &str, error: &str) -> (r: Result<(), String>)
    ensures
        r is Ok <==> label@ == "main"@,
        r matches Err(e) ==> e@ == error@,
{
    if is_main_sender(label) {
        Ok(())
    } else {
        Err(error.to_owned())
    }
}

// ---------------------------------------------------------------------------
// Conversation sessions and the application state.
// ---------------------------------------------------------------------------

/// A voice chat or desktop work session.
#[derive(Debug)]
pub struct AudioSession {
    pub session_id: String,
    pub mode: String,
    pub target_chat_id: String,
    pub context: Vec<Turn>,
    pub settings: Json,
    pub pending_turns: Vec<Turn>,
    pub pending_screenshot: Option<String>,
}

/// What the main window hands over when it opens a conversation window.
#[derive(Debug)]
pub struct OpenCollaborationPayload {
    pub settings: Option<Json>,
    pub target_chat_id: Option<String>,
    pub context: Option<Vec<Turn>>,
}

/// The shared state of the application.
#[derive(Debug)]
pub struct AppState {
    pub main_ready: bool,
    pub pending_main_commands: Vec<Json>,
    pub audio_session: Option<AudioSession>,
    pub audio_completion_sent: bool,
    pub desktop_shortcut: Option<String>,
    pub desktop_mouse_interactive: bool,
    pub developer_mode: bool,
    pub is_quitting: bool,
}

pub open spec fn commands_view(v: Seq<Json>) -> Seq<JsonView> {
    v.map_values(|j: Json| j@)
}

impl Default for AppState {
    fn default() -> (r: AppState)
        ensures
            !r.main_ready,
            r.pending_main_commands@.len() == 0,
            r.audio_session is None,
            !r.audio_completion_sent,
            r.desktop_shortcut is None,
            !r.desktop_mouse_interactive,
            !r.developer_mode,
            !r.is_quitting,
    {
        AppState {
            main_ready: false,
            pending_main_commands: Vec::new(),
            audio_session: None,
            audio_completion_sent: false,
            desktop_shortcut: None,
            desktop_mouse_interactive: false,
            developer_mode: false,
            is_quitting: false,
        }
    }
}

/// Events of a window the application watches.
#[derive(Debug, Clone, Copy, PartialEq, Eq)]
pub enum WindowEvent {
    CloseRequested,
    Destroyed,
    Other,
}

/// What to do about a request to close the main window.
#[derive(Debug, Clone, Copy, PartialEq, Eq)]
pub enum MainWindowReaction {
    /// Let the event take its course.
    Nothing,
    /// Keep the window alive, hidden.
    PreventCloseAndHide,
}

/// A command to the main window: the payload with its `action` field set.
pub open spec fn command_with_action(action: Seq<char>, payload: JsonView) -> JsonView {
    with_field(payload, "action"@, JsonView::Str(action))
}

/// What a conversation leaves behind when it ends.
#[derive(Debug)]
pub struct AudioCompletion {
    pub session_id: String,
    pub mode: String,
    pub target_chat_id: String,
    pub reason: String,
    pub turns: Vec<Turn>,
}

/// Everything of the state but the main window's command queue and readiness.
pub open spec fn same_but_commands(a: AppState, b: AppState) -> bool {
    &&& a.audio_session == b.audio_session
    &&& a.audio_completion_sent == b.audio_completion_sent
    &&& a.desktop_shortcut == b.desktop_shortcut
    &&& a.desktop_mouse_interactive == b.desktop_mouse_interactive
    &&& a.developer_mode == b.developer_mode
    &&& a.is_quitting == b.is_quitting
}

/// The state after sending a command to the main window, and the command sent now.
pub open spec fn send_command_post(
    old: AppState,
    new: AppState,
    action: Seq<char>,
    payload: JsonView,
    main_window_open: bool,
    sent: Option<JsonView>,
) -> bool {
    let cmd = command_with_action(action, payload);
    &&& new.main_ready == old.main_ready
    &&& same_but_commands(new, old)
    &&& if main_window_open && old.main_ready {
        &&& sent == Some(cmd)
        &&& commands_view(new.pending_main_commands@) == commands_view(old.pending_main_commands@)
    } else {
        &&& sent is None
        &&& commands_view(new.pending_main_commands@) == commands_view(old.pending_main_commands@).push(cmd)
    }
}

/// The state after flushing the main window's queue, and the commands delivered.
pub open spec fn flush_post(old: AppState, new: AppState, main_window_open: bool, delivered: Seq<JsonView>) -> bool {
    &&& new.main_ready == old.main_ready
    &&& same_but_commands(new, old)
    &&& if old.main_ready {
        &&& new.pending_main_commands@.len() == 0
        &&& delivered == if main_window_open {
            commands_view(old.pending_main_commands@)
        } else {
            Seq::empty()
        }
    } else {
        &&& new.pending_main_commands == old.pending_main_commands
        &&& delivered.len() == 0
    }
}

/// The state after the main window's page reports it is ready, and the commands delivered.
pub open spec fn ready_post(old: AppState, new: AppState, sender: Seq<char>, main_window_open: bool, delivered: Seq<JsonView>) -> bool {
    if sender == "main"@ {
        &&& new.main_ready
        &&& new.pending_main_commands@.len() == 0
        &&& delivered == if main_window_open {
            commands_view(old.pending_main_commands@)
        } else {
            Seq::empty()
        }
        &&& same_but_commands(new, old)
    } else {
        new == old && delivered.len() == 0
    }
}

/// Mathematical value of an end-of-conversation report.
pub open spec fn completion_view(c: AudioCompletion) -> (Seq<char>, Seq<char>, Seq<char>, Seq<char>, Seq<TurnView>) {
    (c.session_id@, c.mode@, c.target_chat_id@, c.reason@, turns_view(c.turns@))
}

pub open spec fn opt_completion_view(o: Option<AudioCompletion>) -> Option<(Seq<char>, Seq<char>, Seq<char>, Seq<char>, Seq<TurnView>)> {
    match o {
        Some(c) => Some(completion_view(c)),
        None => None,
    }
}

/// The report of the end of the conversation in state `s`: none when one was already
/// made or there is no session; otherwise the session's identity, the reason, and the
/// sanitized turns (those given, or else the pending ones).
pub open spec fn completion_report(
    s: AppState,
    reason: Seq<char>,
    turns_override: Option<Seq<TurnView>>,
) -> Option<(Seq<char>, Seq<char>, Seq<char>, Seq<char>, Seq<TurnView>)> {
    if s.audio_completion_sent || s.audio_session is None {
        None
    } else {
        let session = s.audio_session->0;
        Some((
            session.session_id@,
            session.mode@,
            session.target_chat_id@,
            reason,
            sanitized(Some(match turns_override {
                Some(t) => t,
                None => turns_view(session.pending_turns@),
            })),
        ))
    }
}

/// The state after reporting the end of the conversation, and the report: made only when
/// none was made yet and there is a session; the report is marked as made in any case.
pub open spec fn completion_post(
    old: AppState,
    new: AppState,
    reason: Seq<char>,
    turns_override: Option<Seq<TurnView>>,
    report: Option<(Seq<char>, Seq<char>, Seq<char>, Seq<char>, Seq<TurnView>)>,
) -> bool {
    &&& new.audio_completion_sent
    &&& new.audio_session == old.audio_session
    &&& new.pending_main_commands == old.pending_main_commands
    &&& new.main_ready == old.main_ready
    &&& new.desktop_shortcut == old.desktop_shortcut
    &&& new.desktop_mouse_interactive == old.desktop_mouse_interactive
    &&& new.developer_mode == old.developer_mode
    &&& new.is_quitting == old.is_quitting
    &&& report == completion_report(old, reason, turns_override)
}

impl AppState {
    /// The main window is being created: it is not ready for commands until its page says so.
    pub fn main_window_created(&mut self)
        ensures
            !final(self).main_ready,
            final(self).pending_main_commands == old(self).pending_main_commands,
            same_but_commands(*final(self), *old(self)),
    {
        self.main_ready = false;
    }

    /// Reacts to an event of the main window: closing only hides it unless the application
    /// is quitting, and a destroyed window is no longer ready.
    pub fn on_main_window_event(&mut self, event: WindowEvent) -> (r: MainWindowReaction)
        ensures
            r == if event == WindowEvent::CloseRequested && !old(self).is_quitting {
                MainWindowReaction::PreventCloseAndHide
            } else {
                MainWindowReaction::Nothing
            },
            final(self).main_ready == if event == WindowEvent::Destroyed { false } else { old(self).main_ready },
            final(self).pending_main_commands == old(self).pending_main_commands,
            same_but_commands(*final(self), *old(self)),
    {
        match event {
            WindowEvent::CloseRequested => {
                if !self.is_quitting {
                    MainWindowReaction::PreventCloseAndHide
                } else {
                    MainWindowReaction::Nothing
                }
            },
            WindowEvent::Destroyed => {
                self.main_ready = false;
                MainWindowReaction::Nothing
            },
            WindowEvent::Other => MainWindowReaction::Nothing,
        }
    }

    /// Sends a command to the main window: the payload (an object, or `null`) with its
    /// `action` set. It goes out now when the main window is open and ready; otherwise
    /// it waits in the queue.
    pub fn send_main_command(&mut self, action: &str, payload: Json, main_window_open: bool) -> (r: Option<Json>)
        requires
            is_object_or_null(payload@),
        ensures
            send_command_post(*old(self), *final(self), action@, payload@, main_window_open, opt_json_view(r)),
    {
        let mut command = payload;
        command.set_field("action".to_owned(), Json::Str(action.to_owned()));
        if main_window_open && self.main_ready {
            return Some(command);
        }
        let ghost before = self.pending_main_commands@;
        let ghost c = command;
        self.pending_main_commands.push(command);
        assert(commands_view(self.pending_main_commands@) =~= commands_view(before).push(c@));
        None
    }

    /// Takes the queued commands once the main window is ready: all of them, in the order
    /// they were queued; they are delivered only if the window is open. Nothing changes
    /// before the window is ready.
    pub fn flush_main_commands(&mut self, main_window_open: bool) -> (r: Vec<Json>)
        ensures
            flush_post(*old(self), *final(self), main_window_open, commands_view(r@)),
    {
        if !self.main_ready {
            let none: Vec<Json> = Vec::new();
            assert(commands_view(none@) =~= Seq::<JsonView>::empty());
            return none;
        }
        let mut taken: Vec<Json> = Vec::new();
        std::mem::swap(&mut taken, &mut self.pending_main_commands);
        if main_window_open {
            taken
        } else {
            let none: Vec<Json> = Vec::new();
            assert(commands_view(none@) =~= Seq::<JsonView>::empty());
            none
        }
    }

    /// The main window's page is ready (only the main window can say so): queued commands
    /// go out.
    pub fn renderer_ready(&mut self, sender: &str, main_window_open: bool) -> (r: Vec<Json>)
        ensures
            ready_post(*old(self), *final(self), sender@, main_window_open, commands_view(r@)),
    {
        if !is_main_sender(sender) {
            return Vec::new();
        }
        self.main_ready = true;
        self.flush_main_commands(main_window_open)
    }

    /// The end of the current conversation, reported once: the session's identity, the
    /// reason, and its sanitized turns (those given, or else the pending ones). Nothing is
    /// reported when it was already reported or when there is no session; the report is
    /// marked as sent in both cases.
    pub fn emit_audio_completion(&mut self, reason: &str, turns_override: Option<Vec<Turn>>) -> (r: Option<AudioCompletion>)
        ensures
            completion_post(*old(self), *final(self), reason@, opt_turns_view(turns_override), opt_completion_view(r)),
    {
        if self.audio_completion_sent {
            return None;
        }
        self.audio_completion_sent = true;
        match &self.audio_session {
            None => None,
            Some(session) => {
                let source = match turns_override {
                    Some(t) => t,
                    None => copy_turns(&session.pending_turns),
                };
                let turns = sanitize_turns(Some(source));
                Some(AudioCompletion {
                    session_id: session.session_id.clone(),
                    mode: session.mode.clone(),
                    target_chat_id: session.target_chat_id.clone(),
                    reason: reason.to_owned(),
                    turns,
                })
            },
        }
    }

    /// Forgets the registered desktop shortcut and hands it over for unregistering.
    pub fn take_desktop_shortcut(&mut self) -> (r: Option<String>)
        ensures
            r == old(self).desktop_shortcut,
            final(self).desktop_shortcut is None,
            final(self).audio_session == old(self).audio_session,
            final(self).audio_completion_sent == old(self).audio_completion_sent,
            final(self).pending_main_commands == old(self).pending_main_commands,
            final(self).main_ready == old(self).main_ready,
            final(self).desktop_mouse_interactive == old(self).desktop_mouse_interactive,
            final(self).developer_mode == old(self).developer_mode,
            final(self).is_quitting == old(self).is_quitting,
    {
        self.desktop_shortcut.take()
    }

    /// Remembers the accelerator of the registered desktop shortcut.
    pub fn record_desktop_shortcut(&mut self, accelerator: String)
        ensures
            final(self).desktop_shortcut == Some(accelerator),
            final(self).audio_session == old(self).audio_session,
            final(self).audio_completion_sent == old(self).audio_completion_sent,
            final(self).pending_main_commands == old(self).pending_main_commands,
            final(self).main_ready == old(self).main_ready,
            final(self).desktop_mouse_interactive == old(self).desktop_mouse_interactive,
            final(self).developer_mode == old(self).developer_mode,
            final(self).is_quitting == old(self).is_quitting,
    {
        self.desktop_shortcut = Some(accelerator);
    }
}

// ---------------------------------------------------------------------------
// Replies to window requests.
// ---------------------------------------------------------------------------

/// `{"ok": ok}`
pub open spec fn ok_reply_view(ok: bool) -> JsonView {
    JsonView::Object(seq![("ok"@, JsonView::Bool(ok))])
}

/// The reply `{"ok": ok}`.
pub fn ok_reply(ok: bool) -> (r: Json)
    ensures
        r@ == ok_reply_view(ok),
{
    let entries: Vec<(String, Json)> = vec![("ok".to_owned(), Json::Bool(ok))];
    proof {
        reveal_with_fuel(entries_view, 2);
    }
    assert(entries_view(entries@) =~= ok_reply_view(ok)->Object_0);
    Json::Object(entries)
}

/// `{"ok": true, "sessionId": id, "reused": true}`
pub open spec fn reused_reply_view(session_id: Seq<char>) -> JsonView {
    JsonView::Object(
        seq![
            ("ok"@, JsonView::Bool(true)),
            ("sessionId"@, JsonView::Str(session_id)),
            ("reused"@, JsonView::Bool(true)),
        ],
    )
}

/// `{"ok": true, "sessionId": id, "reused": false, "shortcut": shortcut}`
pub open spec fn opened_reply_view(session_id: Seq<char>, shortcut: Seq<char>) -> JsonView {
    JsonView::Object(
        seq![
            ("ok"@, JsonView::Bool(true)),
            ("sessionId"@, JsonView::Str(session_id)),
            ("reused"@, JsonView::Bool(false)),
            ("shortcut"@, JsonView::Str(shortcut)),
        ],
    )
}

/// The reply to opening a conversation window that was created: its session and the
/// desktop shortcut registered for it (empty for voice chat).
pub fn opened_reply(session_id: &str, shortcut: &str) -> (r: Json)
    ensures
        r@ == opened_reply_view(session_id@, shortcut@),
{
    let entries: Vec<(String, Json)> = vec![
        ("ok".to_owned(), Json::Bool(true)),
        ("sessionId".to_owned(), Json::Str(session_id.to_owned())),
        ("reused".to_owned(), Json::Bool(false)),
        ("shortcut".to_owned(), Json::Str(shortcut.to_owned())),
    ];
    proof {
        reveal_with_fuel(entries_view, 5);
    }
    assert(entries_view(entries@) =~= opened_reply_view(session_id@, shortcut@)->Object_0);
    Json::Object(entries)
}

/// `{"ok": ok, "interactive": interactive}`
pub open spec fn interactive_reply_view(ok: bool, interactive: bool) -> JsonView {
    JsonView::Object(seq![("ok"@, JsonView::Bool(ok)), ("interactive"@, JsonView::Bool(interactive))])
}

fn interactive_reply(ok: bool, interactive: bool) -> (r: Json)
    ensures
        r@ == interactive_reply_view(ok, interactive),
{
    let entries: Vec<(String, Json)> = vec![
        ("ok".to_owned(), Json::Bool(ok)),
        ("interactive".to_owned(), Json::Bool(interactive)),
    ];
    proof {
        reveal_with_fuel(entries_view, 3);
    }
    assert(entries_view(entries@) =~= interactive_reply_view(ok, interactive)->Object_0);
    Json::Object(entries)
}

/// The reply refusing to change how the desktop window takes the mouse.
pub fn interactive_refused_reply() -> (r: Json)
    ensures
        r@ == interactive_reply_view(false, false),
{
    interactive_reply(false, false)
}

// ---------------------------------------------------------------------------
// Opening and closing conversation windows.
// ---------------------------------------------------------------------------

/// What opening a conversation window comes to.
#[derive(Debug)]
pub enum OpenDecision {
    /// The request did not come from the main window.
    Rejected(String),
    /// A conversation window is already open: it is reused, with this reply.
    Reused(Json),
    /// A new session, for which the window is to be created.
    Create(AudioSession),
}

pub open spec fn opt_json_view(o: Option<Json>) -> Option<JsonView> {
    match o {
        Some(j) => Some(j@),
        None => None,
    }
}

/// A new session: its identifier and mode, the target chat (empty by default), the
/// sanitized context and settings, and nothing pending.
pub open spec fn is_new_session(s: AudioSession, id: Seq<char>, mode: Seq<char>, payload: Option<OpenCollaborationPayload>) -> bool {
    let (settings, target, context) = match payload {
        Some(p) => (opt_json_view(p.settings), p.target_chat_id, p.context),
        None => (None, None, None),
    };
    &&& s.session_id@ == id
    &&& s.mode@ == mode
    &&& s.target_chat_id@ == match target {
        Some(t) => t@,
        None => Seq::<char>::empty(),
    }
    &&& turns_view(s.context@) == sanitized(opt_turns_view(context))
    &&& s.settings@ == sanitized_settings(settings)
    &&& s.pending_turns@.len() == 0
    &&& s.pending_screenshot is None
}

/// The session a conversation window opens with.
pub fn new_session(session_id: String, payload: Option<OpenCollaborationPayload>, mode: &str) -> (r: AudioSession)
    ensures
        is_new_session(r, session_id@, mode@, payload),
{
    let (settings, target, context) = match payload {
        Some(p) => (p.settings, p.target_chat_id, p.context),
        None => (None, None, None),
    };
    AudioSession {
        session_id,
        mode: mode.to_owned(),
        target_chat_id: match target {
            Some(t) => t,
            None => String::new(),
        },
        context: sanitize_turns(context),
        settings: sanitize_settings(settings),
        pending_turns: Vec::new(),
        pending_screenshot: None,
    }
}

/// Everything but the completion flag and the session.
pub open spec fn same_but_session(a: AppState, b: AppState) -> bool {
    &&& a.main_ready == b.main_ready
    &&& a.pending_main_commands == b.pending_main_commands
    &&& a.desktop_shortcut == b.desktop_shortcut
    &&& a.desktop_mouse_interactive == b.desktop_mouse_interactive
    &&& a.developer_mode == b.developer_mode
    &&& a.is_quitting == b.is_quitting
}

impl AppState {
    /// Decides on a request to open a conversation window in `mode`: only the main window
    /// may ask; an open conversation window is reused; otherwise a new session with a fresh
    /// random UUID as identifier is prepared, and the next end of conversation will be reported.
    pub fn open_collaboration(
        &mut self,
        sender: &str,
        conversation_open: bool,
        payload: Option<OpenCollaborationPayload>,
        mode: &str,
    ) -> (r: OpenDecision)
        ensures
            sender@ != "main"@ ==> *final(self) == *old(self) && (r matches OpenDecision::Rejected(e)
                && e@ == "非法的协作窗口请求"@),
            sender@ == "main"@ && conversation_open ==> *final(self) == *old(self) && (r matches OpenDecision::Reused(reply)
                && reply@ == reused_reply_view(match old(self).audio_session {
                Some(s) => s.session_id@,
                None => Seq::<char>::empty(),
            })),
            sender@ == "main"@ && !conversation_open ==> {
                &&& !final(self).audio_completion_sent
                &&& final(self).audio_session == old(self).audio_session
                &&& same_but_session(*final(self), *old(self))
                &&& r matches OpenDecision::Create(s) && exists|id: Seq<char>|
                    uuid_text_shape(id) && is_new_session(s, id, mode@, payload)
            },
    {
        if !is_main_sender(sender) {
            return OpenDecision::Rejected("非法的协作窗口请求".to_owned());
        }
        if conversation_open {
            let id = match &self.audio_session {
                Some(s) => s.session_id.clone(),
                None => String::new(),
            };
            let entries: Vec<(String, Json)> = vec![
                ("ok".to_owned(), Json::Bool(true)),
                ("sessionId".to_owned(), Json::Str(id)),
                ("reused".to_owned(), Json::Bool(true)),
            ];
            proof {
                reveal_with_fuel(entries_view, 4);
            }
            let ghost expected = match &self.audio_session {
                Some(s) => s.session_id@,
                None => Seq::<char>::empty(),
            };
            assert(entries_view(entries@) =~= reused_reply_view(expected)->Object_0);
            return OpenDecision::Reused(Json::Object(entries));
        }
        self.audio_completion_sent = false;
        let id = new_uuid_v4();
        OpenDecision::Create(new_session(id, payload, mode))
    }

    /// The conversation window was created: its session becomes the current one.
    pub fn install_session(&mut self, session: AudioSession)
        ensures
            final(self).audio_session == Some(session),
            final(self).audio_completion_sent == old(self).audio_completion_sent,
            same_but_session(*final(self), *old(self)),
    {
        self.audio_session = Some(session);
    }

    /// A conversation window is closing: its end is reported (reason `window-close`) and
    /// the desktop shortcut is handed over for unregistering.
    pub fn on_conversation_close_requested(&mut self) -> (r: (Option<AudioCompletion>, Option<String>))
        ensures
            close_requested_post(*old(self), *final(self), opt_completion_view(r.0), r.1),
    {
        let completion = self.emit_audio_completion("window-close", None);
        let shortcut = self.take_desktop_shortcut();
        (completion, shortcut)
    }

    /// A conversation window is gone: no session, nothing reported yet, and the desktop
    /// window no longer takes the mouse.
    pub fn on_conversation_destroyed(&mut self)
        ensures
            final(self).audio_session is None,
            !final(self).audio_completion_sent,
            !final(self).desktop_mouse_interactive,
            final(self).main_ready == old(self).main_ready,
            final(self).pending_main_commands == old(self).pending_main_commands,
            final(self).desktop_shortcut == old(self).desktop_shortcut,
            final(self).developer_mode == old(self).developer_mode,
            final(self).is_quitting == old(self).is_quitting,
    {
        self.audio_session = None;
        self.audio_completion_sent = false;
        self.desktop_mouse_interactive = false;
    }
}

// ---------------------------------------------------------------------------
// Requests of conversation windows.
// ---------------------------------------------------------------------------

/// The parts of the state a conversation request leaves alone.
pub open spec fn same_but_conversation(a: AppState, b: AppState) -> bool {
    &&& a.main_ready == b.main_ready
    &&& a.pending_main_commands == b.pending_main_commands
    &&& a.developer_mode == b.developer_mode
    &&& a.is_quitting == b.is_quitting
    &&& a.desktop_mouse_interactive == b.desktop_mouse_interactive
}

/// A session with its pending turns replaced by `turns` (by value).
pub open spec fn with_pending(old: Option<AudioSession>, new: Option<AudioSession>, turns: Seq<TurnView>) -> bool {
    match old {
        None => new is None,
        Some(o) => new matches Some(n) && {
            &&& n.session_id == o.session_id
            &&& n.mode == o.mode
            &&& n.target_chat_id == o.target_chat_id
            &&& n.context == o.context
            &&& n.settings == o.settings
            &&& n.pending_screenshot == o.pending_screenshot
            &&& turns_view(n.pending_turns@) == turns
        },
    }
}

/// The state after a window's checkpoint: a conversation window's turns, sanitized, become
/// the pending turns of the session (if any); any other window changes nothing.
pub open spec fn checkpoint_post(old: AppState, new: AppState, sender: Seq<char>, turns: Option<Seq<TurnView>>) -> bool {
    if sender == "audio"@ || sender == "desktop"@ {
        &&& with_pending(old.audio_session, new.audio_session, sanitized(turns))
        &&& new.audio_completion_sent == old.audio_completion_sent
        &&& new.desktop_shortcut == old.desktop_shortcut
        &&& same_but_conversation(new, old)
    } else {
        new == old
    }
}

/// The state after a conversation window asked to close, the report made and the desktop
/// shortcut handed over.
pub open spec fn close_requested_post(
    old: AppState,
    new: AppState,
    report: Option<(Seq<char>, Seq<char>, Seq<char>, Seq<char>, Seq<TurnView>)>,
    shortcut: Option<String>,
) -> bool {
    &&& report == completion_report(old, "window-close"@, None)
    &&& new.audio_completion_sent
    &&& new.audio_session == old.audio_session
    &&& shortcut == old.desktop_shortcut
    &&& new.desktop_shortcut is None
    &&& same_but_conversation(new, old)
}

impl AppState {
    /// The current session, for a conversation window (voice chat).
    pub fn audio_chat_session(&self, sender: &str) -> (r: Result<Option<&AudioSession>, String>)
        ensures
            (sender@ == "audio"@ || sender@ == "desktop"@) ==> r == Ok::<Option<&AudioSession>, String>(
                match &self.audio_session {
                    Some(s) => Some(s),
                    None => None,
                },
            ),
            !(sender@ == "audio"@ || sender@ == "desktop"@) ==> (r matches Err(e) && e@ == "语音会话不存在"@),
    {
        if !is_audio_sender(sender) {
            return Err("语音会话不存在".to_owned());
        }
        Ok(self.audio_session.as_ref())
    }

    /// The current session, for the desktop work window: only a desktop session.
    pub fn desktop_work_session(&self, sender: &str) -> (r: Result<&AudioSession, String>)
        ensures
            r is Ok <==> ((sender@ == "audio"@ || sender@ == "desktop"@) && self.audio_session is Some
                && self.audio_session->0.mode@ == "desktop"@),
            r matches Ok(s) ==> self.audio_session == Some(*s),
            r matches Err(e) ==> e@ == "桌面协作会话不存在"@,
    {
        if !is_audio_sender(sender) {
            return Err("桌面协作会话不存在".to_owned());
        }
        match &self.audio_session {
            Some(s) => {
                if str_eq(&s.mode, "desktop") {
                    Ok(s)
                } else {
                    Err("桌面协作会话不存在".to_owned())
                }
            },
            None => Err("桌面协作会话不存在".to_owned()),
        }
    }

    /// A conversation window saves its turns so far (sanitized) in the current session.
    pub fn checkpoint(&mut self, sender: &str, turns: Option<Vec<Turn>>) -> (r: Json)
        ensures
            checkpoint_post(*old(self), *final(self), sender@, opt_turns_view(turns)),
            r@ == ok_reply_view(sender@ == "audio"@ || sender@ == "desktop"@),
    {
        if !is_audio_sender(sender) {
            return ok_reply(false);
        }
        let clean = sanitize_turns(turns);
        match &mut self.audio_session {
            Some(session) => {
                session.pending_turns = clean;
            },
            None => {},
        }
        ok_reply(true)
    }

    /// A conversation window ends its conversation with its final turns: they are sanitized
    /// and saved in the session, the end is reported (reason `ended`) if not yet reported,
    /// and, for desktop work, the desktop shortcut is handed over for unregistering.
    /// Nothing happens for other windows (`None`, answered with `{"ok": false}`).
    pub fn complete_conversation(&mut self, sender: &str, turns: Option<Vec<Turn>>, desktop: bool) -> (r: Option<(Option<AudioCompletion>, Option<String>)>)
        ensures
            !(sender@ == "audio"@ || sender@ == "desktop"@) ==> *final(self) == *old(self) && r is None,
            (sender@ == "audio"@ || sender@ == "desktop"@) ==> (r matches Some(out) && {
                let clean = sanitized(opt_turns_view(turns));
                &&& with_pending(old(self).audio_session, final(self).audio_session, clean)
                &&& final(self).audio_completion_sent
                &&& opt_completion_view(out.0) == completion_report(*old(self), "ended"@, Some(clean))
                &&& desktop ==> out.1 == old(self).desktop_shortcut && final(self).desktop_shortcut is None
                &&& !desktop ==> out.1 is None && final(self).desktop_shortcut == old(self).desktop_shortcut
                &&& same_but_conversation(*final(self), *old(self))
            }),
    {
        if !is_audio_sender(sender) {
            return None;
        }
        let clean = sanitize_turns(turns);
        let copy = copy_turns(&clean);
        match &mut self.audio_session {
            Some(session) => {
                session.pending_turns = copy;
            },
            None => {},
        }
        proof {
            crate::turns::law_sanitize_idempotent(opt_turns_view(turns));
        }
        let completion = self.emit_audio_completion("ended", Some(clean));
        let shortcut = if desktop { self.take_desktop_shortcut() } else { None };
        Some((completion, shortcut))
    }

    /// Whether the desktop window may change how it takes the mouse: the request comes
    /// from a conversation window, the session is desktop work, and its window is open.
    pub fn interactive_allowed(&self, sender: &str, desktop_window_open: bool) -> (r: bool)
        ensures
            r == ((sender@ == "audio"@ || sender@ == "desktop"@) && self.audio_session is Some
                && self.audio_session->0.mode@ == "desktop"@ && desktop_window_open),
    {
        if !is_audio_sender(sender) {
            return false;
        }
        let desktop = match &self.audio_session {
            Some(s) => str_eq(&s.mode, "desktop"),
            None => false,
        };
        desktop && desktop_window_open
    }

    /// The desktop window now takes the mouse or lets it through.
    pub fn set_mouse_interactive(&mut self, value: bool) -> (r: Json)
        ensures
            final(self).desktop_mouse_interactive == value,
            r@ == interactive_reply_view(true, value),
            final(self).audio_session == old(self).audio_session,
            final(self).audio_completion_sent == old(self).audio_completion_sent,
            final(self).desktop_shortcut == old(self).desktop_shortcut,
            final(self).main_ready == old(self).main_ready,
            final(self).pending_main_commands == old(self).pending_main_commands,
            final(self).developer_mode == old(self).developer_mode,
            final(self).is_quitting == old(self).is_quitting,
    {
        self.desktop_mouse_interactive = value;
        interactive_reply(true, value)
    }

    /// The main window reports its state (only it may): developer mode follows its
    /// `developerMode` flag. Returns whether the tray menu is to be rebuilt.
    pub fn app_state_update(&mut self, sender: &str, state_value: &Json) -> (r: bool)
        ensures
            r == (sender@ == "main"@),
            final(self).developer_mode == if r { developer_mode_of(state_value@) } else { old(self).developer_mode },
            final(self).audio_session == old(self).audio_session,
            final(self).audio_completion_sent == old(self).audio_completion_sent,
            final(self).desktop_shortcut == old(self).desktop_shortcut,
            final(self).desktop_mouse_interactive == old(self).desktop_mouse_interactive,
            final(self).main_ready == old(self).main_ready,
            final(self).pending_main_commands == old(self).pending_main_commands,
            final(self).is_quitting == old(self).is_quitting,
    {
        if !is_main_sender(sender) {
            return false;
        }
        self.developer_mode = developer_mode_flag(state_value);
        true
    }

    /// The screenshot quality the current session asks for (`balanced` without a session).
    pub fn screenshot_quality(&self) -> (r: String)
        ensures
            r@ == match self.audio_session {
                Some(s) => image_quality_of(s.settings@),
                None => "balanced"@,
            },
    {
        match &self.audio_session {
            Some(s) => image_quality_setting(&s.settings),
            None => "balanced".to_owned(),
        }
    }

    /// Keeps a captured screenshot in the current session, if any.
    pub fn record_screenshot(&mut self, data_url: String)
        ensures
            match old(self).audio_session {
                None => final(self).audio_session is None,
                Some(o) => final(self).audio_session matches Some(n) && {
                    &&& n.session_id == o.session_id
                    &&& n.mode == o.mode
                    &&& n.target_chat_id == o.target_chat_id
                    &&& n.context == o.context
                    &&& n.settings == o.settings
                    &&& n.pending_turns == o.pending_turns
                    &&& n.pending_screenshot == Some(data_url)
                },
            },
            final(self).audio_completion_sent == old(self).audio_completion_sent,
            final(self).desktop_shortcut == old(self).desktop_shortcut,
            same_but_conversation(*final(self), *old(self)),
    {
        match &mut self.audio_session {
            Some(session) => {
                session.pending_screenshot = Some(data_url);
            },
            None => {},
        }
    }

    /// The tray asks to quit: the application is quitting, so the main window may close.
    pub fn begin_quit(&mut self)
        ensures
            final(self).is_quitting,
            final(self).audio_session == old(self).audio_session,
            final(self).audio_completion_sent == old(self).audio_completion_sent,
            final(self).desktop_shortcut == old(self).desktop_shortcut,
            final(self).desktop_mouse_interactive == old(self).desktop_mouse_interactive,
            final(self).main_ready == old(self).main_ready,
            final(self).pending_main_commands == old(self).pending_main_commands,
            final(self).developer_mode == old(self).developer_mode,
    {
        self.is_quitting = true;
    }
}

// ---------------------------------------------------------------------------
// Laws.
// ---------------------------------------------------------------------------

/// A command sent before the main window's page is ready waits behind those queued before
/// it; when the page reports ready with its window open, exactly the queued commands reach
/// it, in the order they were sent, and the queue is empty.
pub proof fn law_queued_commands_delivered_in_order(
    s0: AppState,
    s1: AppState,
    s2: AppState,
    action: Seq<char>,
    payload: JsonView,
    window_open_at_send: bool,
    sent: Option<JsonView>,
    delivered: Seq<JsonView>,
)
    requires
        !s0.main_ready,
        send_command_post(s0, s1, action, payload, window_open_at_send, sent),
        ready_post(s1, s2, "main"@, true, delivered),
    ensures
        sent is None,
        delivered == commands_view(s0.pending_main_commands@).push(command_with_action(action, payload)),
        s2.pending_main_commands@.len() == 0,
        s2.main_ready,
{
}

/// Once the main window's page is ready and its window open, a command goes out at once
/// and carries its action.
pub proof fn law_ready_command_sent_at_once(
    s0: AppState,
    s1: AppState,
    action: Seq<char>,
    payload: JsonView,
    sent: Option<JsonView>,
)
    requires
        s0.main_ready,
        is_object_or_null(payload),
        send_command_post(s0, s1, action, payload, true, sent),
    ensures
        sent is Some,
        crate::json::field(sent->0, "action"@) == Some(JsonView::Str(action)),
        commands_view(s1.pending_main_commands@) == commands_view(s0.pending_main_commands@),
{
    crate::json::law_set_field_then_get(payload, "action"@, JsonView::Str(action), "action"@);
}

/// The end of a conversation is reported at most once: after a report (or an attempt),
/// a second attempt reports nothing.
pub proof fn law_completion_reported_once(
    s0: AppState,
    s1: AppState,
    s2: AppState,
    reason1: Seq<char>,
    turns1: Option<Seq<TurnView>>,
    report1: Option<(Seq<char>, Seq<char>, Seq<char>, Seq<char>, Seq<TurnView>)>,
    reason2: Seq<char>,
    turns2: Option<Seq<TurnView>>,
    report2: Option<(Seq<char>, Seq<char>, Seq<char>, Seq<char>, Seq<TurnView>)>,
)
    requires
        completion_post(s0, s1, reason1, turns1, report1),
        completion_post(s1, s2, reason2, turns2, report2),
    ensures
        report2 is None,
{
}

/// What a conversation window saved at its last checkpoint is what the end of the
/// conversation reports when the window is closed: the session's identity, the reason
/// `window-close`, and the sanitized turns of the checkpoint.
pub proof fn law_close_reports_checkpoint(
    s0: AppState,
    s1: AppState,
    s2: AppState,
    sender: Seq<char>,
    turns: Option<Seq<TurnView>>,
    report: Option<(Seq<char>, Seq<char>, Seq<char>, Seq<char>, Seq<TurnView>)>,
    shortcut: Option<String>,
)
    requires
        sender == "audio"@ || sender == "desktop"@,
        s0.audio_session is Some,
        !s0.audio_completion_sent,
        checkpoint_post(s0, s1, sender, turns),
        close_requested_post(s1, s2, report, shortcut),
    ensures
        report == Some((
            s0.audio_session->0.session_id@,
            s0.audio_session->0.mode@,
            s0.audio_session->0.target_chat_id@,
            "window-close"@,
            sanitized(turns),
        )),
{
    crate::turns::law_sanitize_idempotent(turns);
}

/// The commands of `n` sends, each with its action set, in the order they were sent.
pub open spec fn sent_commands(actions: Seq<Seq<char>>, payloads: Seq<JsonView>, n: nat) -> Seq<JsonView> {
    Seq::new(n, |i: int| command_with_action(actions[i], payloads[i]))
}

/// `states[i + 1]` is `states[i]` after the `i`-th of `n` sends to the main window.
pub open spec fn send_chain(
    states: Seq<AppState>,
    actions: Seq<Seq<char>>,
    payloads: Seq<JsonView>,
    opens: Seq<bool>,
    sents: Seq<Option<JsonView>>,
    n: nat,
) -> bool {
    &&& states.len() == n + 1
    &&& actions.len() == n && payloads.len() == n && opens.len() == n && sents.len() == n
    &&& forall|i: int|
        0 <= i < n ==> #[trigger] send_command_post(states[i], states[i + 1], actions[i], payloads[i], opens[i], sents[i])
}

proof fn lemma_send_chain_prefix(
    states: Seq<AppState>,
    actions: Seq<Seq<char>>,
    payloads: Seq<JsonView>,
    opens: Seq<bool>,
    sents: Seq<Option<JsonView>>,
    n: nat,
    k: nat,
)
    requires
        send_chain(states, actions, payloads, opens, sents, n),
        !states[0].main_ready,
        k <= n,
    ensures
        !states[k as int].main_ready,
        commands_view(states[k as int].pending_main_commands@) == commands_view(states[0].pending_main_commands@)
            + sent_commands(actions, payloads, k),
        forall|i: int| 0 <= i < k ==> (#[trigger] sents[i]) is None,
    decreases k,
{
    if k == 0 {
        assert(sent_commands(actions, payloads, 0) =~= Seq::<JsonView>::empty());
        assert(commands_view(states[0].pending_main_commands@) + Seq::<JsonView>::empty()
            =~= commands_view(states[0].pending_main_commands@));
    } else {
        let j = (k - 1) as nat;
        lemma_send_chain_prefix(states, actions, payloads, opens, sents, n, j);
        assert(send_command_post(states[j as int], states[j as int + 1], actions[j as int], payloads[j as int], opens[j as int], sents[j as int]));
        assert(sent_commands(actions, payloads, k) =~= sent_commands(actions, payloads, j).push(
            command_with_action(actions[j as int], payloads[j as int]),
        ));
        assert(commands_view(states[0].pending_main_commands@) + sent_commands(actions, payloads, k)
            =~= (commands_view(states[0].pending_main_commands@) + sent_commands(actions, payloads, j)).push(
            command_with_action(actions[j as int], payloads[j as int]),
        ));
    }
}

/// Any number of commands sent before the main window's page is ready wait in the queue;
/// when the page reports ready with its window open, they all reach it, behind those queued
/// before, in the order they were sent, and the queue is empty.
pub proof fn law_queue_delivers_all_in_order(
    states: Seq<AppState>,
    actions: Seq<Seq<char>>,
    payloads: Seq<JsonView>,
    opens: Seq<bool>,
    sents: Seq<Option<JsonView>>,
    n: nat,
    ready: AppState,
    delivered: Seq<JsonView>,
)
    requires
        !states[0].main_ready,
        send_chain(states, actions, payloads, opens, sents, n),
        ready_post(states[n as int], ready, "main"@, true, delivered),
    ensures
        forall|i: int| 0 <= i < n ==> (#[trigger] sents[i]) is None,
        delivered == commands_view(states[0].pending_main_commands@) + sent_commands(actions, payloads, n),
        ready.pending_main_commands@.len() == 0,
        ready.main_ready,
{
    lemma_send_chain_prefix(states, actions, payloads, opens, sents, n, n);
}

} // verus!
